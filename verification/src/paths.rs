//! Paths of files as texts.
use vstd::prelude::*;
use vstd::string::StringExecFns;

use crate::text;

verus! {

/// The path starts at the root.
pub open spec fn absolute(path: Seq<char>) -> bool {
    path.len() > 0 && path[0] == '/'
}

/// A path with a part added. A part that starts at the root takes its place.
pub open spec fn joined(base: Seq<char>, part: Seq<char>) -> Seq<char> {
    if absolute(part) {
        part
    } else if base.len() == 0 || base.last() == '/' {
        base + part
    } else {
        base + "/"@ + part
    }
}

/// Whether the path starts at the root.
pub fn is_absolute(path: &str) -> (r: bool)
    ensures
        r == absolute(path@),
{
    let cs: Vec<char> = text::chars_of(path);
    cs.len() > 0 && cs[0] == '/'
}

/// Adds a part to a path.
pub fn join(base: &str, part: &str) -> (r: String)
    ensures
        r@ == joined(base@, part@),
{
    if is_absolute(part) {
        return part.to_owned();
    }
    let cs: Vec<char> = text::chars_of(base);
    let mut s: String = base.to_owned();
    if cs.len() > 0 && cs[cs.len() - 1] != '/' {
        s.append("/");
    }
    s.append(part);
    s
}

/// A part is added behind one slash. A part that starts at the root takes the place of the
/// path.
pub proof fn law_parts_are_joined_by_one_slash(base: Seq<char>, part: Seq<char>)
    ensures
        part.len() > 0 && part[0] == '/' ==> joined(base, part) == part,
        (part.len() == 0 || part[0] != '/') && base.len() > 0 && base.last() != '/' ==> joined(base, part) == base + "/"@
            + part,
        (part.len() == 0 || part[0] != '/') && base.len() > 0 && base.last() == '/' ==> joined(base, part) == base + part,
        base.len() == 0 ==> joined(base, part) == part,
{
    assert(base.len() == 0 ==> base + part =~= part);
}

} // verus!
