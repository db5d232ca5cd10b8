//! The format classifier: a path that mentions the event marker anywhere is
//! handled by the event-log strategy, every other path by the tabular one.

use vstd::prelude::*;
use vstd::string::StrSliceExecFns;

verus! {

/// The two processing strategies a path can route to.
#[derive(Clone, Copy, Debug, PartialEq, Eq, Structural)]
pub enum FileKind {
    /// Delimited records behind a header preamble.
    Tabular,
    /// One free-text event per line.
    EventLog,
}

/// The marker that routes a path to the event-log strategy.
pub open spec fn events_marker() -> Seq<char> {
    seq!['E', 'v', 'e', 'n', 't', 's']
}

/// The needle `n` occurs in `h` starting at position `i`.
pub open spec fn chars_match_at(h: Seq<char>, n: Seq<char>, i: int) -> bool {
    0 <= i && i + n.len() <= h.len() && h.subrange(i, i + n.len()) == n
}

/// The needle `n` occurs somewhere in `h`.
pub open spec fn contains_chars(h: Seq<char>, n: Seq<char>) -> bool {
    exists|i: int| chars_match_at(h, n, i)
}

/// A path that contains the event marker anywhere, case sensitively.
pub open spec fn is_event_path(path: Seq<char>) -> bool {
    contains_chars(path, events_marker())
}

/// Whether the event marker occurs in `path` starting at position `i`.
fn marker_match_at(path: &str, marker: &Vec<char>, i: usize, plen: usize) -> (r: bool)
    requires
        plen == path@.len(),
        marker@ == events_marker(),
        i + 6 <= plen,
    ensures
        r == chars_match_at(path@, events_marker(), i as int),
{
    let mut j: usize = 0;
    while j < 6
        invariant
            plen == path@.len(),
            marker@ == events_marker(),
            i + 6 <= plen,
            0 <= j <= 6,
            forall|k: int| 0 <= k < j ==> path@[i + k] == events_marker()[k],
        decreases 6 - j,
    {
        if path.get_char(i + j) != marker[j] {
            assert(!chars_match_at(path@, events_marker(), i as int)) by {
                if path@.subrange(i as int, i + 6) == events_marker() {
                    let jj = j as int;
                    assert(path@.subrange(i as int, i + 6)[jj] == events_marker()[jj]);
                }
            }
            return false;
        }
        j = j + 1;
    }
    assert(path@.subrange(i as int, i + 6) =~= events_marker());
    true
}

/// Chooses the processing strategy for a path: the event-log strategy exactly
/// when the path contains the event marker, wherever it appears and whatever
/// the file extension.
pub fn classify(path: &str) -> (r: FileKind)
    ensures
        (r == FileKind::EventLog) == is_event_path(path@),
        (r == FileKind::Tabular) == !is_event_path(path@),
{
    let marker: Vec<char> = vec!['E', 'v', 'e', 'n', 't', 's'];
    assert(marker@ =~= events_marker());
    let plen: usize = path.unicode_len();
    if plen < 6 {
        assert(forall|i: int| !chars_match_at(path@, events_marker(), i));
        return FileKind::Tabular;
    }
    let last: usize = plen - 6;
    let mut i: usize = 0;
    loop
        invariant
            plen == path@.len(),
            marker@ == events_marker(),
            plen >= 6,
            last == plen - 6,
            0 <= i <= last,
            forall|k: int| 0 <= k < i ==> !chars_match_at(path@, events_marker(), k),
        decreases last - i,
    {
        if marker_match_at(path, &marker, i, plen) {
            return FileKind::EventLog;
        }
        if i == last {
            assert(forall|k: int| chars_match_at(path@, events_marker(), k) ==> 0 <= k <= last);
            return FileKind::Tabular;
        }
        i = i + 1;
    }
}

} // verus!
