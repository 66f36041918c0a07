//! Paths, held as text, and the descriptors that are plain directories.

use vstd::prelude::*;
use crate::text::append_str;

verus! {

/// `base` joined with `rest` the way `Path::join` does on Unix: an absolute
/// `rest` replaces `base`; otherwise a `/` separates them unless `base` is
/// empty or already ends with one.
pub open spec fn join_spec(base: Seq<char>, rest: Seq<char>) -> Seq<char> {
    if rest.len() > 0 && rest[0] == '/' {
        rest
    } else if base.len() > 0 && base.last() != '/' {
        base + seq!['/'] + rest
    } else {
        base + rest
    }
}

/// Joins `rest` onto `base` (see [`join_spec`]).
pub fn join_path(base: &str, rest: &str) -> (p: String)
    ensures
        p@ == join_spec(base@, rest@),
{
    let b = crate::text::chars_of(base);
    let r = crate::text::chars_of(rest);
    if r.len() > 0 && r[0] == '/' {
        return rest.to_owned();
    }
    let mut p = base.to_owned();
    if b.len() > 0 && b[b.len() - 1] != '/' {
        append_str(&mut p, "/");
        proof {
            reveal_strlit("/");
        }
    }
    append_str(&mut p, rest);
    p
}

} // verus!
