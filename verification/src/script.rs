use vstd::prelude::*;
use vstd::string::*;
use crate::smap::StrMap;
use crate::value::RawValue;

verus! {

/// A variable table: the cursor's locals, a line's rendered variables, or a
/// custom line's properties.
pub type VarMap = StrMap<RawValue>;

/// One node of a line's sub-text tree: a literal character, a literal
/// string, or a command with sub-text arguments.
pub enum SubText {
    Ch(char),
    Str(String),
    Cmd(String, Vec<SubText>),
}

/// The command name `res`: looks a key up in the locale's resource table.
pub open spec fn res_cmd() -> Seq<char> {
    seq!['r', 'e', 's']
}

/// The command name `var`: looks a key up in the cursor's locals.
pub open spec fn var_cmd() -> Seq<char> {
    seq!['v', 'a', 'r']
}

/// A text unit: an optional character tag and alias, and the sub-text tree.
pub struct Text {
    pub ch_tag: Option<String>,
    pub ch_alias: Option<String>,
    pub sub_texts: Vec<SubText>,
}

/// One scripted unit of a paragraph.
pub enum Line {
    Empty,
    Text(Text),
    Switch(Vec<String>),
    Custom(VarMap),
}

/// A named block of sequential lines, plus the expression that yields the
/// next paragraph id once the lines run out.
pub struct Paragraph {
    pub tag: String,
    pub title: Option<String>,
    pub texts: Vec<Line>,
    pub next: Option<Text>,
}

/// Compares a string against a literal, by content.
pub fn str_eq_lit(s: &String, lit: &str) -> (r: bool)
    ensures
        r == (s@ == lit@),
{
    let other = lit.to_owned();
    s.eq(&other)
}

/// The view of an optional string.
pub open spec fn opt_str_view(o: Option<String>) -> Option<Seq<char>> {
    match o {
        Some(s) => Some(s@),
        None => None,
    }
}

} // verus!
