//! The run-time resolver: the experiment start time of a file is encoded in
//! the name of its parent directory, written with the fixed pattern
//! `<abbreviated-month>_<day>_<year>_<hour>_<minute>` (e.g. `Feb_13_2023_14_29`),
//! and is persisted and emitted in the canonical `YYYY-MM-DD HH:MM:SS` form.

use vstd::prelude::*;
use vstd::string::StrSliceExecFns;

use crate::errors::ISUProcessorError;

verus! {

/// The greatest position at or before `end` that does not follow a slash:
/// scanning backwards from `end` over separator characters.
pub open spec fn skip_slashes(s: Seq<char>, end: int) -> int
    decreases end,
{
    if end <= 0 {
        0
    } else if s[end - 1] == '/' {
        skip_slashes(s, end - 1)
    } else {
        end
    }
}

/// The start of the path segment that ends at `end`: scanning backwards from
/// `end` over non-separator characters.
pub open spec fn seg_start(s: Seq<char>, end: int) -> int
    decreases end,
{
    if end <= 0 {
        0
    } else if s[end - 1] == '/' {
        end
    } else {
        seg_start(s, end - 1)
    }
}

/// The name of the parent directory of the path: the path segment before the
/// last one. `None` when the path has no parent segment or the parent has no
/// name.
pub open spec fn parent_dir_name_spec(s: Seq<char>) -> Option<Seq<char>> {
    let e1 = skip_slashes(s, s.len() as int);
    if e1 == 0 {
        Option::None
    } else {
        let s1 = seg_start(s, e1);
        let e2 = skip_slashes(s, s1);
        if e2 == 0 {
            Option::None
        } else {
            Option::Some(s.subrange(seg_start(s, e2), e2))
        }
    }
}

/// The greatest position at or before `end` that does not follow a slash.
fn skip_slashes_exec(path: &str, end: usize, plen: usize) -> (r: usize)
    requires
        plen == path@.len(),
        end <= plen,
    ensures
        r == skip_slashes(path@, end as int),
        r <= end,
{
    let mut e: usize = end;
    loop
        invariant
            plen == path@.len(),
            e <= end <= plen,
            skip_slashes(path@, end as int) == skip_slashes(path@, e as int),
        decreases e,
    {
        if e == 0 {
            return 0;
        }
        if path.get_char(e - 1) != '/' {
            return e;
        }
        e = e - 1;
    }
}

/// The start of the path segment that ends at `end`.
fn seg_start_exec(path: &str, end: usize, plen: usize) -> (r: usize)
    requires
        plen == path@.len(),
        end <= plen,
    ensures
        r == seg_start(path@, end as int),
        r <= end,
{
    let mut e: usize = end;
    loop
        invariant
            plen == path@.len(),
            e <= end <= plen,
            seg_start(path@, end as int) == seg_start(path@, e as int),
        decreases e,
    {
        if e == 0 {
            return 0;
        }
        if path.get_char(e - 1) == '/' {
            return e;
        }
        e = e - 1;
    }
}

/// The name of the parent directory of the path, or `None` when the path has
/// no parent segment.
pub fn parent_dir_name(path: &str) -> (r: Option<String>)
    ensures
        match r {
            Option::Some(name) => parent_dir_name_spec(path@) == Option::Some(name@),
            Option::None => parent_dir_name_spec(path@) is None,
        },
{
    let plen: usize = path.unicode_len();
    let e1: usize = skip_slashes_exec(path, plen, plen);
    if e1 == 0 {
        return Option::None;
    }
    let s1: usize = seg_start_exec(path, e1, plen);
    let e2: usize = skip_slashes_exec(path, s1, plen);
    if e2 == 0 {
        return Option::None;
    }
    let s2: usize = seg_start_exec(path, e2, plen);
    let name: &str = path.substring_char(s2, e2);
    Option::Some(name.to_owned())
}

/// What the run-time pattern makes of a parent directory name: the canonical
/// timestamp string when the name matches `%b_%d_%Y_%H_%M`, and nothing when
/// it does not. The outcome depends on the name alone.
pub uninterp spec fn run_time_of(name: Seq<char>) -> Option<Seq<char>>;

/// Relies on chrono's `NaiveDateTime::parse_from_str` with the fixed pattern
/// `%b_%d_%Y_%H_%M`, and on `NaiveDateTime`'s `Display`, which renders the
/// parsed value as `YYYY-MM-DD HH:MM:SS`. Both depend on the name alone.
#[verifier::external_body]
fn parse_run_timestamp(name: &str) -> (r: Option<String>)
    ensures
        match r {
            Option::Some(t) => run_time_of(name@) == Option::Some(t@),
            Option::None => run_time_of(name@) is None,
        },
{
    match chrono::NaiveDateTime::parse_from_str(name, "%b_%d_%Y_%H_%M") {
        Ok(t) => Option::Some(t.to_string()),
        Err(_) => Option::None,
    }
}

/// Derives the run timestamp for a file from the name of its parent
/// directory: `BlankPath` when the path has no named parent,
/// `TimeParsingError` when the name does not match the run-time pattern, and
/// the canonical timestamp string otherwise.
pub fn resolve_run_time(path: &str) -> (r: Result<String, ISUProcessorError>)
    ensures
        match parent_dir_name_spec(path@) {
            Option::None => r == Result::<String, ISUProcessorError>::Err(
                ISUProcessorError::BlankPath,
            ),
            Option::Some(name) => match run_time_of(name) {
                Option::None => r == Result::<String, ISUProcessorError>::Err(
                    ISUProcessorError::TimeParsingError,
                ),
                Option::Some(t) => r matches Ok(s) && s@ == t,
            },
        },
{
    match parent_dir_name(path) {
        Option::None => Result::Err(ISUProcessorError::BlankPath),
        Option::Some(name) => match parse_run_timestamp(name.as_str()) {
            Option::None => Result::Err(ISUProcessorError::TimeParsingError),
            Option::Some(t) => Result::Ok(t),
        },
    }
}

} // verus!
