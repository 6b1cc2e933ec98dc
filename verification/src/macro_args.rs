//! The arguments of the launcher's attribute macros, as plain values: the
//! names that the macros derive from identifiers and the string arguments
//! that they read.

use vstd::prelude::*;
use vstd::string::StringExecFns;
use crate::text::push_char;
use crate::wire::chars_of;

verus! {

/// A list of arguments between commas.
#[derive(Clone, Debug)]
pub struct Args<T> {
    pub vars: Vec<T>,
}

/// The names of commands.
pub struct Command;

/// The names of resources.
pub struct Resource;

/// The literal of an argument.
#[derive(Clone, Debug)]
pub enum ArgLiteral {
    Str(String),
    Other,
}

/// One argument of an attribute, as far as the macros look at it.
#[derive(Clone, Debug)]
pub enum MetaArg {
    /// `name = literal`; the name is the first segment of the path, where
    /// the path has one.
    NameValue { name: Option<String>, literal: ArgLiteral },
    /// Anything else.
    Other,
}

/// The position of the first underscore of `text` at or behind `from`, or
/// the length of `text` where there is none.
pub open spec fn underscore_from(text: Seq<char>, from: int) -> int
    decreases text.len() - from,
{
    if from < 0 || from >= text.len() {
        text.len() as int
    } else if text[from] == '_' {
        from
    } else {
        underscore_from(text, from + 1)
    }
}

/// A resource's identifier has a part behind its first underscore.
pub open spec fn names_resource(ident: Seq<char>) -> bool {
    underscore_from(ident, 0) < ident.len()
}

/// The part of an identifier between its first underscore and the next, or
/// the end.
pub open spec fn resource_name(ident: Seq<char>) -> Seq<char> {
    let start = underscore_from(ident, 0) + 1;
    ident.subrange(start, underscore_from(ident, start))
}

/// The argument is `key = "..."`.
pub open spec fn is_string_argument(meta: MetaArg, key: Seq<char>) -> bool {
    meta matches MetaArg::NameValue { name: Some(name), literal: ArgLiteral::Str(_) } && name@
        == key
}

fn find_underscore(text: &Vec<char>, from: usize) -> (r: usize)
    requires
        from <= text@.len(),
    ensures
        r == underscore_from(text@, from as int),
        from <= r <= text@.len(),
{
    let mut i: usize = from;
    while i < text.len() && text[i] != '_'
        invariant
            from <= i <= text@.len(),
            underscore_from(text@, from as int) == underscore_from(text@, i as int),
        decreases text@.len() - i,
    {
        i += 1;
    }
    i
}

impl Command {
    /// The name of the variable that holds the command of `ident`.
    pub fn get_varname(ident: &str) -> (r: String)
        ensures
            r@ == "static_command_for_"@ + ident@,
    {
        let mut name = String::from_str("static_command_for_");
        name.append(ident);
        name
    }
}

impl Resource {
    /// The name of the resource that `ident` stands for: the part between
    /// its first underscore and the next.
    pub fn get_name(ident: &str) -> (r: String)
        requires
            names_resource(ident@),
        ensures
            r@ == resource_name(ident@),
    {
        let chars = chars_of(ident);
        let len = chars.len();
        let start = find_underscore(&chars, 0) + 1;
        let end = find_underscore(&chars, start);
        let mut name = String::new();
        let mut i: usize = start;
        assert(name@ =~= chars@.subrange(start as int, i as int));
        while i < end
            invariant
                start <= i <= end <= chars@.len(),
                name@ == chars@.subrange(start as int, i as int),
            decreases end - i,
        {
            push_char(&mut name, chars[i]);
            i += 1;
            assert(name@ =~= chars@.subrange(start as int, i as int));
        }
        name
    }

    /// Whether `ident` has a part behind its first underscore.
    pub fn has_name(ident: &str) -> (r: bool)
        ensures
            r == names_resource(ident@),
    {
        let chars = chars_of(ident);
        find_underscore(&chars, 0) < chars.len()
    }
}

/// The string that the argument `key = "..."` gives.
pub fn get_string_value(meta: &MetaArg, key: &str) -> (r: String)
    requires
        is_string_argument(*meta, key@),
    ensures
        meta matches MetaArg::NameValue { literal: ArgLiteral::Str(value), .. } && r@ == value@,
{
    match meta {
        MetaArg::NameValue { literal: ArgLiteral::Str(value), .. } => value.clone(),
        _ => String::new(),
    }
}

} // verus!
