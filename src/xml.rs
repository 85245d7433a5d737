//! A decoded configuration document: elements with their tag, attributes,
//! text and element children, and the lookups the parsers make in it.

use vstd::prelude::*;
use crate::text::{same_text, strings_view};

verus! {

pub struct XmlElement {
    pub tag: String,
    pub attributes: Vec<(String, String)>,
    /// The text that directly opens the element, if any.
    pub text: Option<String>,
    pub children: Vec<XmlElement>,
}

/// Why a configuration element could not be read.
pub enum ConfigError {
    MissingAttribute(String),
    MissingElement(String),
    MissingText(String),
}

/// A `ConfigError` as plain text values.
pub enum ConfigFault {
    MissingAttribute(Seq<char>),
    MissingElement(Seq<char>),
    MissingText(Seq<char>),
}

impl ConfigError {
    pub open spec fn fault(&self) -> ConfigFault {
        match self {
            ConfigError::MissingAttribute(s) => ConfigFault::MissingAttribute(s@),
            ConfigError::MissingElement(s) => ConfigFault::MissingElement(s@),
            ConfigError::MissingText(s) => ConfigFault::MissingText(s@),
        }
    }
}

/// The first of `children` with the tag.
pub open spec fn first_child(children: Seq<XmlElement>, tag: Seq<char>) -> Option<XmlElement>
    decreases children.len(),
{
    if children.len() == 0 {
        None
    } else if children[0].tag@ == tag {
        Some(children[0])
    } else {
        first_child(children.drop_first(), tag)
    }
}

/// The value of the first attribute with the name.
pub open spec fn attribute_of(attributes: Seq<(String, String)>, name: Seq<char>) -> Option<
    Seq<char>,
>
    decreases attributes.len(),
{
    if attributes.len() == 0 {
        None
    } else if attributes[0].0@ == name {
        Some(attributes[0].1@)
    } else {
        attribute_of(attributes.drop_first(), name)
    }
}

pub open spec fn text_of(e: XmlElement) -> Option<Seq<char>> {
    match e.text {
        Some(t) => Some(t@),
        None => None,
    }
}

/// The text of the child with the tag, which must be there and hold text.
pub open spec fn required_text(e: XmlElement, tag: Seq<char>) -> Result<Seq<char>, ConfigFault> {
    match first_child(e.children@, tag) {
        None => Err(ConfigFault::MissingElement(tag)),
        Some(c) => match text_of(c) {
            None => Err(ConfigFault::MissingText(tag)),
            Some(t) => Ok(t),
        },
    }
}

/// The text of the child with the tag, if there is such a child; it must then
/// hold text.
pub open spec fn optional_text(e: XmlElement, tag: Seq<char>) -> Result<
    Option<Seq<char>>,
    ConfigFault,
> {
    match first_child(e.children@, tag) {
        None => Ok(None),
        Some(c) => match text_of(c) {
            None => Err(ConfigFault::MissingText(tag)),
            Some(t) => Ok(Some(t)),
        },
    }
}

/// The texts of the `item` children of `items`, in order; each must hold text.
pub open spec fn item_texts(items: Seq<XmlElement>, item: Seq<char>) -> Result<
    Seq<Seq<char>>,
    ConfigFault,
>
    decreases items.len(),
{
    if items.len() == 0 {
        Ok(seq![])
    } else {
        match item_texts(items.drop_last(), item) {
            Err(f) => Err(f),
            Ok(done) => if items.last().tag@ != item {
                Ok(done)
            } else {
                match text_of(items.last()) {
                    None => Err(ConfigFault::MissingText(item)),
                    Some(t) => Ok(done.push(t)),
                }
            },
        }
    }
}

/// The item texts of the child with tag `list`; none without such a child.
pub open spec fn list_texts(e: XmlElement, list: Seq<char>, item: Seq<char>) -> Result<
    Seq<Seq<char>>,
    ConfigFault,
> {
    match first_child(e.children@, list) {
        None => Ok(seq![]),
        Some(c) => item_texts(c.children@, item),
    }
}

/// Whether the child with the tag has `enable="true"`; false without such a
/// child, which must otherwise carry the attribute.
pub open spec fn enable_flag(e: XmlElement, tag: Seq<char>) -> Result<bool, ConfigFault> {
    match first_child(e.children@, tag) {
        None => Ok(false),
        Some(c) => match attribute_of(c.attributes@, "enable"@) {
            None => Err(ConfigFault::MissingAttribute("enable"@)),
            Some(v) => Ok(v == "true"@),
        },
    }
}

impl XmlElement {
    /// The index of the first child with the tag.
    pub fn find_child(&self, tag: &str) -> (r: Option<usize>)
        ensures
            r is None ==> first_child(self.children@, tag@) is None,
            r matches Some(i) ==> i < self.children@.len() && first_child(self.children@, tag@)
                == Some(self.children@[i as int]),
    {
        let mut i: usize = 0;
        assert(self.children@.subrange(0, self.children@.len() as int) == self.children@);
        while i < self.children.len()
            invariant
                i <= self.children@.len(),
                first_child(self.children@, tag@) == first_child(
                    self.children@.subrange(i as int, self.children@.len() as int),
                    tag@,
                ),
            decreases self.children@.len() - i,
        {
            let ghost rest = self.children@.subrange(i as int, self.children@.len() as int);
            assert(rest.drop_first() == self.children@.subrange(
                i + 1,
                self.children@.len() as int,
            ));
            if same_text(self.children[i].tag.as_str(), tag) {
                return Some(i);
            }
            i += 1;
        }
        None
    }

    /// The value of the first attribute with the name.
    pub fn attribute(&self, name: &str) -> (r: Option<&String>)
        ensures
            r is None ==> attribute_of(self.attributes@, name@) is None,
            r matches Some(v) ==> attribute_of(self.attributes@, name@) == Some(v@),
    {
        let mut i: usize = 0;
        assert(self.attributes@.subrange(0, self.attributes@.len() as int) == self.attributes@);
        while i < self.attributes.len()
            invariant
                i <= self.attributes@.len(),
                attribute_of(self.attributes@, name@) == attribute_of(
                    self.attributes@.subrange(i as int, self.attributes@.len() as int),
                    name@,
                ),
            decreases self.attributes@.len() - i,
        {
            let ghost rest = self.attributes@.subrange(i as int, self.attributes@.len() as int);
            assert(rest.drop_first() == self.attributes@.subrange(
                i + 1,
                self.attributes@.len() as int,
            ));
            if same_text(self.attributes[i].0.as_str(), name) {
                return Some(&self.attributes[i].1);
            }
            i += 1;
        }
        None
    }

    pub fn required_text(&self, tag: &str) -> (r: Result<String, ConfigError>)
        ensures
            match required_text(*self, tag@) {
                Ok(t) => r matches Ok(s) && s@ == t,
                Err(f) => r matches Err(e) && e.fault() == f,
            },
    {
        match self.find_child(tag) {
            None => Err(ConfigError::MissingElement(String::from_str(tag))),
            Some(i) => match &self.children[i].text {
                None => Err(ConfigError::MissingText(String::from_str(tag))),
                Some(t) => Ok(t.clone()),
            },
        }
    }

    pub fn optional_text(&self, tag: &str) -> (r: Result<Option<String>, ConfigError>)
        ensures
            match optional_text(*self, tag@) {
                Ok(None) => r matches Ok(None),
                Ok(Some(t)) => r matches Ok(Some(s)) && s@ == t,
                Err(f) => r matches Err(e) && e.fault() == f,
            },
    {
        match self.find_child(tag) {
            None => Ok(None),
            Some(i) => match &self.children[i].text {
                None => Err(ConfigError::MissingText(String::from_str(tag))),
                Some(t) => Ok(Some(t.clone())),
            },
        }
    }

    pub fn list_texts(&self, list: &str, item: &str) -> (r: Result<Vec<String>, ConfigError>)
        ensures
            match list_texts(*self, list@, item@) {
                Ok(ts) => r matches Ok(v) && strings_view(v@) == ts,
                Err(f) => r matches Err(e) && e.fault() == f,
            },
    {
        match self.find_child(list) {
            None => {
                let v: Vec<String> = Vec::new();
                assert(strings_view(v@) == Seq::<Seq<char>>::empty());
                Ok(v)
            },
            Some(c) => {
                let items = &self.children[c].children;
                let mut out: Vec<String> = Vec::new();
                let mut i: usize = 0;
                assert(items@.subrange(0, 0) == Seq::<XmlElement>::empty());
                assert(strings_view(out@) == Seq::<Seq<char>>::empty());
                while i < items.len()
                    invariant
                        i <= items@.len(),
                        c < self.children@.len(),
                        first_child(self.children@, list@) == Some(self.children@[c as int]),
                        items@ == self.children@[c as int].children@,
                        item_texts(items@.subrange(0, i as int), item@) == Ok::<
                            Seq<Seq<char>>,
                            ConfigFault,
                        >(strings_view(out@)),
                    decreases items@.len() - i,
                {
                    assert(items@.subrange(0, i + 1).drop_last() == items@.subrange(0, i as int));
                    assert(items@.subrange(0, i + 1).last() == items@[i as int]);
                    let ghost prefix = items@.subrange(0, i + 1);
                    if same_text(items[i].tag.as_str(), item) {
                        match &items[i].text {
                            None => {
                                assert(item_texts(prefix, item@) == Err::<Seq<Seq<char>>, ConfigFault>(
                                    ConfigFault::MissingText(item@),
                                ));
                                proof {
                                    lemma_item_fault_stays(items@, item@, i as int + 1);
                                }
                                return Err(ConfigError::MissingText(String::from_str(item)));
                            },
                            Some(t) => {
                                let ghost done = strings_view(out@);
                                out.push(t.clone());
                                assert(strings_view(out@) == done.push(t@));
                                assert(item_texts(prefix, item@) == Ok::<Seq<Seq<char>>, ConfigFault>(
                                    done.push(t@),
                                ));
                            },
                        }
                    } else {
                        assert(item_texts(prefix, item@) == Ok::<Seq<Seq<char>>, ConfigFault>(
                            strings_view(out@),
                        ));
                    }
                    i += 1;
                }
                assert(items@.subrange(0, items@.len() as int) == items@);
                Ok(out)
            },
        }
    }

    pub fn enable_flag(&self, tag: &str) -> (r: Result<bool, ConfigError>)
        ensures
            match enable_flag(*self, tag@) {
                Ok(b) => r == Ok::<bool, ConfigError>(b),
                Err(f) => r matches Err(e) && e.fault() == f,
            },
    {
        match self.find_child(tag) {
            None => Ok(false),
            Some(i) => match self.children[i].attribute("enable") {
                None => Err(ConfigError::MissingAttribute(String::from_str("enable"))),
                Some(v) => Ok(same_text(v.as_str(), "true")),
            },
        }
    }
}

/// Once the items up to `n` hold a fault, all of them hold the same one.
pub proof fn lemma_item_fault_stays(items: Seq<XmlElement>, item: Seq<char>, n: int)
    requires
        0 <= n <= items.len(),
        item_texts(items.subrange(0, n), item) is Err,
    ensures
        item_texts(items, item) == item_texts(items.subrange(0, n), item),
    decreases items.len() - n,
{
    if n < items.len() {
        assert(items.subrange(0, n + 1).drop_last() == items.subrange(0, n));
        lemma_item_fault_stays(items, item, n + 1);
    } else {
        assert(items.subrange(0, n) == items);
    }
}

} // verus!
