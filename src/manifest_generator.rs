//! The manifest descriptor of a resource: fixed directive lines, each optional
//! section present only where its field is set or non-empty.

use vstd::prelude::*;
use crate::text::strings_view;

verus! {

/// `path` is relative to the resource's base path.
pub struct ManifestGenerationStep {
    pub path: String,
    pub fx_version: String,
    pub game: String,
    pub author: Option<String>,
    pub description: Option<String>,
    pub version: Option<String>,
    pub client_scripts: Vec<String>,
    pub server_scripts: Vec<String>,
    pub shared_scripts: Vec<String>,
    pub dependencies: Vec<String>,
    pub files: Vec<String>,
    pub loadscreen: Option<String>,
    pub ui_page: Option<String>,
    pub is_a_map: bool,
    pub lua54: bool,
    pub rdr3_warning: Option<String>,
}

pub open spec fn opt_view(o: Option<String>) -> Option<Seq<char>> {
    match o {
        Some(s) => Some(s@),
        None => None,
    }
}

/// `key "value"` on a line of its own.
pub open spec fn quoted_line(key: Seq<char>, value: Seq<char>) -> Seq<char> {
    key + " \""@ + value + "\"\n"@
}

pub open spec fn optional_line(key: Seq<char>, value: Option<Seq<char>>) -> Seq<char> {
    match value {
        Some(v) => quoted_line(key, v),
        None => seq![],
    }
}

/// One indented, quoted, comma-terminated line per item.
pub open spec fn list_items(items: Seq<Seq<char>>) -> Seq<char>
    decreases items.len(),
{
    if items.len() == 0 {
        seq![]
    } else {
        list_items(items.drop_last()) + "    \""@ + items.last() + "\",\n"@
    }
}

/// `key {`, the items, `}`; nothing for no item.
pub open spec fn list_block(key: Seq<char>, items: Seq<Seq<char>>) -> Seq<char> {
    if items.len() == 0 {
        seq![]
    } else {
        key + " {\n"@ + list_items(items) + "}\n"@
    }
}

pub open spec fn flag_line(on: bool, line: Seq<char>) -> Seq<char> {
    if on {
        line
    } else {
        seq![]
    }
}

/// The text of the descriptor, ending with an empty line.
pub open spec fn manifest_text_of(m: &ManifestGenerationStep) -> Seq<char> {
    quoted_line("fx_version"@, m.fx_version@) + quoted_line("game"@, m.game@) + optional_line(
        "author"@,
        opt_view(m.author),
    ) + optional_line("description"@, opt_view(m.description)) + optional_line(
        "version"@,
        opt_view(m.version),
    ) + list_block("client_scripts"@, strings_view(m.client_scripts@)) + list_block(
        "server_scripts"@,
        strings_view(m.server_scripts@),
    ) + list_block("shared_scripts"@, strings_view(m.shared_scripts@)) + optional_line(
        "ui_page"@,
        opt_view(m.ui_page),
    ) + list_block("files"@, strings_view(m.files@)) + optional_line(
        "loadscreen"@,
        opt_view(m.loadscreen),
    ) + list_block("dependencies"@, strings_view(m.dependencies@)) + flag_line(
        m.is_a_map,
        "this_is_a_map \"yes\"\n"@,
    ) + flag_line(m.lua54, "lua54 \"yes\"\n"@) + optional_line(
        "rdr3_warning"@,
        opt_view(m.rdr3_warning),
    ) + "\n"@
}

fn push_quoted(out: &mut String, key: &str, value: &str)
    ensures
        final(out)@ == old(out)@ + quoted_line(key@, value@),
{
    out.append(key);
    out.append(" \"");
    out.append(value);
    out.append("\"\n");
}

fn push_optional(out: &mut String, key: &str, value: &Option<String>)
    ensures
        final(out)@ == old(out)@ + optional_line(key@, opt_view(*value)),
{
    match value {
        Some(v) => push_quoted(out, key, v.as_str()),
        None => {
            assert(out@ == out@ + Seq::<char>::empty());
        },
    }
}

fn push_list(out: &mut String, key: &str, items: &Vec<String>)
    ensures
        final(out)@ == old(out)@ + list_block(key@, strings_view(items@)),
{
    if items.len() == 0 {
        assert(out@ == out@ + Seq::<char>::empty());
        return;
    }
    let ghost start = out@;
    out.append(key);
    out.append(" {\n");
    let ghost head = out@;
    let mut i: usize = 0;
    while i < items.len()
        invariant
            i <= items@.len(),
            out@ == head + list_items(strings_view(items@).subrange(0, i as int)),
        decreases items@.len() - i,
    {
        out.append("    \"");
        out.append(items[i].as_str());
        out.append("\",\n");
        assert(strings_view(items@).subrange(0, i + 1).drop_last() == strings_view(
            items@,
        ).subrange(0, i as int));
        i += 1;
    }
    assert(strings_view(items@).subrange(0, items@.len() as int) == strings_view(items@));
    out.append("}\n");
}

fn push_flag(out: &mut String, on: bool, line: &str)
    ensures
        final(out)@ == old(out)@ + flag_line(on, line@),
{
    if on {
        out.append(line);
    } else {
        assert(out@ == out@ + Seq::<char>::empty());
    }
}

impl ManifestGenerationStep {
    pub fn manifest_text(&self) -> (r: String)
        ensures
            r@ == manifest_text_of(self),
    {
        let mut out = String::new();
        push_quoted(&mut out, "fx_version", self.fx_version.as_str());
        push_quoted(&mut out, "game", self.game.as_str());
        push_optional(&mut out, "author", &self.author);
        push_optional(&mut out, "description", &self.description);
        push_optional(&mut out, "version", &self.version);
        push_list(&mut out, "client_scripts", &self.client_scripts);
        push_list(&mut out, "server_scripts", &self.server_scripts);
        push_list(&mut out, "shared_scripts", &self.shared_scripts);
        push_optional(&mut out, "ui_page", &self.ui_page);
        push_list(&mut out, "files", &self.files);
        push_optional(&mut out, "loadscreen", &self.loadscreen);
        push_list(&mut out, "dependencies", &self.dependencies);
        push_flag(&mut out, self.is_a_map, "this_is_a_map \"yes\"\n");
        push_flag(&mut out, self.lua54, "lua54 \"yes\"\n");
        push_optional(&mut out, "rdr3_warning", &self.rdr3_warning);
        out.append("\n");
        assert(out@ =~= manifest_text_of(self));
        out
    }
}

} // verus!
