//! Text helpers for presenting results.

use vstd::prelude::*;
use vstd::string::StrSliceExecFns;
use vstd::string::StringExecFns;

verus! {

/// A file name shortened for display: kept whole when it fits `max`
/// characters, else an ellipsis followed by its last `max - 3` characters.
pub open spec fn truncated_name(name: Seq<char>, max: int) -> Seq<char> {
    if name.len() <= max {
        name
    } else {
        "..."@ + name.subrange(name.len() - (max - 3), name.len() as int)
    }
}

/// Shortens a file name for display to at most `max` characters.
pub fn truncate_path(name: &str, max: usize) -> (r: String)
    requires
        3 <= max,
    ensures
        r@ == truncated_name(name@, max as int),
{
    let n = name.unicode_len();
    if n <= max {
        name.to_owned()
    } else {
        let tail = name.substring_char(n - (max - 3), n);
        let mut r = "...".to_owned();
        r.append(tail);
        r
    }
}

} // verus!
