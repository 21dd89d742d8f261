//! Filesystem paths as text, joined the way a Unix `PathBuf::join` joins
//! them.
use crate::canonical::append_chars;
use crate::text::{chars_of, string_from_chars};
use vstd::prelude::*;

verus! {

/// `base.join(component)`: an absolute component replaces the base, an
/// empty base yields the component, and otherwise one separator stands
/// between them unless the base already ends with one.
pub open spec fn path_join(base: Seq<char>, component: Seq<char>) -> Seq<char> {
    if component.len() > 0 && component[0] == '/' {
        component
    } else if base.len() == 0 {
        component
    } else if base.last() == '/' {
        base + component
    } else {
        base + seq!['/'] + component
    }
}

pub fn join_chars(base: &[char], component: &[char]) -> (out: Vec<char>)
    ensures
        out@ == path_join(base@, component@),
{
    let mut out: Vec<char> = Vec::new();
    if component.len() > 0 && component[0] == '/' {
        append_chars(&mut out, component);
    } else if base.len() == 0 {
        append_chars(&mut out, component);
    } else if base[base.len() - 1] == '/' {
        append_chars(&mut out, base);
        append_chars(&mut out, component);
    } else {
        append_chars(&mut out, base);
        out.push('/');
        append_chars(&mut out, component);
    }
    assert(out@ =~= path_join(base@, component@));
    out
}

/// `base.join(component)` on texts.
pub fn join(base: &str, component: &str) -> (out: String)
    ensures
        out@ == path_join(base@, component@),
{
    let b = chars_of(base);
    let c = chars_of(component);
    let joined = join_chars(b.as_slice(), c.as_slice());
    string_from_chars(joined.as_slice())
}

/// What the host found at a path, read without following links.
#[derive(Clone, Copy, Debug, Eq, PartialEq, Structural)]
pub enum EntryKind {
    /// A symlink, or on Windows any reparse point.
    Link,
    Directory,
    File,
    /// A socket, a device or another special entry.
    Other,
}

} // verus!
