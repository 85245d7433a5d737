use jade::path_resolver::{
    enumerate_buildable_resources, find_resources_dir, get_build_config_file, is_container,
    is_dir_a_buildable_resource, DirEntry, DirTree, Enumeration,
};

fn comps(parts: &[&str]) -> Vec<String> {
    parts.iter().map(|p| p.to_string()).collect()
}

fn dir(name: &str) -> DirEntry {
    DirEntry { name: name.to_string(), is_dir: true }
}

fn file(name: &str) -> DirEntry {
    DirEntry { name: name.to_string(), is_dir: false }
}

#[test]
fn config_file_name_depends_on_environment() {
    assert_eq!(get_build_config_file(None), "jade.xml");
    assert_eq!(get_build_config_file(Some(&"dev".to_string())), "dev.jade.xml");
}

#[test]
fn resources_dir_is_the_innermost_on_the_path() {
    assert_eq!(
        find_resources_dir(&comps(&["/", "srv", "resources", "[shops]", "shop"])),
        Some(comps(&["/", "srv", "resources"]))
    );
    assert_eq!(
        find_resources_dir(&comps(&["/", "resources", "x", "resources"])),
        Some(comps(&["/", "resources", "x", "resources"]))
    );
    assert_eq!(find_resources_dir(&comps(&["/", "srv", "res"])), None);
    assert_eq!(find_resources_dir(&Vec::new()), None);
}

#[test]
fn buildable_directory_holds_the_config_file() {
    let names = comps(&["fxmanifest.lua", "jade.xml"]);
    assert!(is_dir_a_buildable_resource(&names, &"jade.xml".to_string()));
    assert!(!is_dir_a_buildable_resource(&names, &"dev.jade.xml".to_string()));
}

#[test]
fn bracket_names_mark_containers() {
    assert!(is_container("[shops]"));
    assert!(is_container("[]"));
    assert!(!is_container("shops"));
    assert!(!is_container("["));
    assert!(!is_container("[shops"));
    assert!(!is_container(""));
}

#[test]
fn containers_are_flattened_during_discovery() {
    let tree = DirTree {
        listings: vec![
            (Vec::new(), vec![dir("[shops]"), dir("bank"), dir("notes"), file("readme.txt")]),
            (comps(&["[shops]"]), vec![dir("shop"), dir("[nested]")]),
            (comps(&["[shops]", "[nested]"]), vec![dir("deep")]),
            (comps(&["bank"]), vec![file("jade.xml")]),
            (comps(&["notes"]), vec![file("todo.txt")]),
            (comps(&["[shops]", "shop"]), vec![file("jade.xml"), dir("web")]),
            (comps(&["[shops]", "[nested]", "deep"]), vec![file("jade.xml")]),
        ],
    };
    match enumerate_buildable_resources(&tree, None) {
        Enumeration::Found(found) => {
            let mut found: Vec<(String, Vec<String>)> = found;
            found.sort();
            assert_eq!(
                found,
                vec![
                    ("bank".to_string(), comps(&["bank"])),
                    ("deep".to_string(), comps(&["[shops]", "[nested]", "deep"])),
                    ("shop".to_string(), comps(&["[shops]", "shop"])),
                ]
            );
        }
        Enumeration::NeedListing(p) => panic!("every listing was given, asked for {:?}", p),
    }
}

#[test]
fn discovery_asks_for_unread_listings() {
    let tree = DirTree { listings: Vec::new() };
    match enumerate_buildable_resources(&tree, None) {
        Enumeration::NeedListing(p) => assert!(p.is_empty()),
        _ => panic!("the root listing is needed first"),
    }
    let tree = DirTree { listings: vec![(Vec::new(), vec![dir("bank")])] };
    match enumerate_buildable_resources(&tree, Some(&"dev".to_string())) {
        Enumeration::NeedListing(p) => assert_eq!(p, comps(&["bank"])),
        _ => panic!("the bank listing is needed"),
    }
}

#[test]
fn environment_selects_the_config_file() {
    let tree = DirTree {
        listings: vec![
            (Vec::new(), vec![dir("a"), dir("b")]),
            (comps(&["a"]), vec![file("jade.xml")]),
            (comps(&["b"]), vec![file("dev.jade.xml")]),
        ],
    };
    match enumerate_buildable_resources(&tree, Some(&"dev".to_string())) {
        Enumeration::Found(found) => {
            assert_eq!(found.len(), 1);
            assert_eq!(found[0].0, "b");
        }
        _ => panic!("all listings were given"),
    }
}

#[test]
fn later_resource_of_same_name_wins() {
    let tree = DirTree {
        listings: vec![
            (Vec::new(), vec![dir("shop"), dir("[more]")]),
            (comps(&["shop"]), vec![file("jade.xml")]),
            (comps(&["[more]"]), vec![dir("shop")]),
            (comps(&["[more]", "shop"]), vec![file("jade.xml")]),
        ],
    };
    match enumerate_buildable_resources(&tree, None) {
        Enumeration::Found(found) => {
            assert_eq!(found.len(), 1);
            assert_eq!(found[0].1, comps(&["[more]", "shop"]));
        }
        _ => panic!("all listings were given"),
    }
}
