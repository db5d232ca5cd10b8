//! The event-log processor: each line of the source is one free-text event.
//! Every emitted row carries the event text, a synthesized sequence index,
//! and the run timestamp; the index continues across tails.
//!
//! Line handling reproduces the established trimming exactly: on initial
//! processing, after the trailing line terminator is popped, the last two
//! characters are stripped as line artifacts (so a line shorter than that is
//! malformed); a tail pops the terminator only. Note that on a line that
//! carries fewer than two artifact characters this strip swallows content —
//! a suspected off-by-one — but downstream consumers depend on the emitted
//! shape, so the behavior is kept rather than fixed.

use vstd::prelude::*;
use vstd::slice::slice_subrange;
use vstd::slice::slice_to_vec;
use vstd::utf8::encode_utf8;

use crate::errors::ISUProcessorError;
use crate::run_time::parent_dir_name_spec;
use crate::run_time::resolve_run_time;
use crate::run_time::run_time_of;
use crate::store::tail_new_position;
use crate::store::CheckpointView;
use crate::store::ISUFile;
use crate::strconv::string_to_bytes;
use crate::textops::dec_digits;
use crate::textops::lemma_line_end_bounds;
use crate::textops::line_end;
use crate::textops::line_end_exec;
use crate::textops::split_fields;
use crate::textops::split_fields_exec;
use crate::textops::u64_to_decimal;

verus! {

/// The fixed three-column header of every normalized event file: the bytes
/// of `Event`, `Index` and `DateTime`.
pub open spec fn event_header() -> Seq<Seq<u8>> {
    seq![
        seq![69u8, 118u8, 101u8, 110u8, 116u8],
        seq![73u8, 110u8, 100u8, 101u8, 120u8],
        seq![68u8, 97u8, 116u8, 101u8, 84u8, 105u8, 109u8, 101u8],
    ]
}

/// The fixed header list as it is persisted in a checkpoint.
pub open spec fn event_headers_text() -> Seq<char> {
    seq![
        'E', 'v', 'e', 'n', 't', ',', 'I', 'n', 'd', 'e', 'x', ',', 'D', 'a', 't', 'e', 'T',
        'i', 'm', 'e',
    ]
}

/// One emitted event row: the event text, the sequence index, the run
/// timestamp.
pub open spec fn event_row(text: Seq<u8>, idx: int, time: Seq<u8>) -> Seq<Seq<u8>> {
    seq![text, dec_digits(idx as nat), time]
}

/// The event rows of the data from `pos` on, counting from `idx`: one row
/// per line, indices consecutive. On initial processing (`trim_artifacts`)
/// each line loses its terminator and two artifact characters, and a line
/// too short for that is malformed; a tail line loses its terminator only.
/// A line whose index would not fit the sequence counter is an overflow.
pub open spec fn event_rows_from(
    data: Seq<u8>,
    pos: int,
    idx: int,
    time: Seq<u8>,
    trim_artifacts: bool,
) -> Result<Seq<Seq<Seq<u8>>>, ISUProcessorError>
    decreases data.len() - pos,
    via event_rows_from_decreases
{
    if pos < 0 || pos >= data.len() {
        Result::Ok(Seq::empty())
    } else if idx >= i32::MAX {
        Result::Err(ISUProcessorError::IntegerConversionError)
    } else {
        let e = line_end(data, pos);
        let line = data.subrange(pos, e);
        if trim_artifacts && line.len() < 3 {
            Result::Err(ISUProcessorError::FormatError)
        } else {
            let text = if trim_artifacts {
                line.take(line.len() - 3)
            } else {
                line.take(line.len() - 1)
            };
            match event_rows_from(data, e, idx + 1, time, trim_artifacts) {
                Result::Ok(rest) => Result::Ok(seq![event_row(text, idx, time)] + rest),
                Result::Err(er) => Result::Err(er),
            }
        }
    }
}

#[via_fn]
proof fn event_rows_from_decreases(
    data: Seq<u8>,
    pos: int,
    idx: int,
    time: Seq<u8>,
    trim_artifacts: bool,
) {
    if 0 <= pos < data.len() {
        lemma_line_end_bounds(data, pos);
    }
}

/// What initial event processing makes of a file: the fixed header followed
/// by one row per line, the sequence counter starting at zero, and a
/// checkpoint whose offset covers the whole file and whose index counts the
/// emitted events.
pub open spec fn spec_event_initial(path: Seq<char>, data: Seq<u8>) -> Result<
    (Seq<Seq<Seq<u8>>>, CheckpointView),
    ISUProcessorError,
> {
    match parent_dir_name_spec(path) {
        Option::None => Result::Err(ISUProcessorError::BlankPath),
        Option::Some(name) => match run_time_of(name) {
            Option::None => Result::Err(ISUProcessorError::TimeParsingError),
            Option::Some(t) => if data.len() > i64::MAX {
                Result::Err(ISUProcessorError::IntegerConversionError)
            } else {
                match event_rows_from(data, 0, 0, encode_utf8(t), true) {
                    Result::Err(e) => Result::Err(e),
                    Result::Ok(rows) => Result::Ok(
                        (
                            seq![event_header()] + rows,
                            CheckpointView {
                                path: path,
                                last_position_read: data.len() as int,
                                last_index: rows.len() as int,
                                headers: event_headers_text(),
                                time: t,
                            },
                        ),
                    ),
                }
            },
        },
    }
}

/// What tailing an event file makes of it: the stored header list followed
/// by one row per new line, the counter resuming from the stored index; the
/// checkpoint offset advances to the end of the data and the index advances
/// by the number of new events.
pub open spec fn spec_event_tail(cp: CheckpointView, data: Seq<u8>) -> Result<
    (Seq<Seq<Seq<u8>>>, CheckpointView),
    ISUProcessorError,
> {
    if cp.last_position_read < 0 || cp.last_index < 0 {
        Result::Err(ISUProcessorError::IntegerConversionError)
    } else if data.len() > i64::MAX {
        Result::Err(ISUProcessorError::IntegerConversionError)
    } else {
        let start = if cp.last_position_read <= data.len() {
            cp.last_position_read
        } else {
            data.len() as int
        };
        match event_rows_from(data, start, cp.last_index, encode_utf8(cp.time), false) {
            Result::Err(e) => Result::Err(e),
            Result::Ok(rows) => Result::Ok(
                (
                    seq![split_fields(encode_utf8(cp.headers))] + rows,
                    CheckpointView {
                        last_position_read: tail_new_position(
                            cp.last_position_read,
                            data.len() as int,
                        ),
                        last_index: cp.last_index + rows.len(),
                        ..cp
                    },
                ),
            ),
        }
    }
}

/// Every emitted event row has exactly the three columns, carries the
/// decimal rendering of its position in the sequence — the counter running
/// consecutively from the starting index — and ends with the run timestamp.
pub proof fn lemma_event_rows_sequencing(
    data: Seq<u8>,
    pos: int,
    idx: int,
    time: Seq<u8>,
    trim_artifacts: bool,
)
    requires
        event_rows_from(data, pos, idx, time, trim_artifacts) is Ok,
    ensures
        ({
            let rows = event_rows_from(data, pos, idx, time, trim_artifacts)->Ok_0;
            forall|i: int|
                0 <= i < rows.len() ==> rows[i].len() == 3 && rows[i][1] == dec_digits(
                    (idx + i) as nat,
                ) && rows[i][2] == time
        }),
    decreases data.len() - pos,
{
    let rows = event_rows_from(data, pos, idx, time, trim_artifacts)->Ok_0;
    if !(pos < 0 || pos >= data.len()) {
        let e = line_end(data, pos);
        lemma_line_end_bounds(data, pos);
        lemma_event_rows_sequencing(data, e, idx + 1, time, trim_artifacts);
        let rest = event_rows_from(data, e, idx + 1, time, trim_artifacts)->Ok_0;
        assert forall|i: int| 0 <= i < rows.len() implies rows[i].len() == 3 && rows[i][1]
            == dec_digits((idx + i) as nat) && rows[i][2] == time by {
            if i > 0 {
                assert(rows[i] == rest[i - 1]);
            }
        }
    }
}

/// Across any successful event tail, the checkpoint offset never decreases,
/// and it equals the byte length consumed so far whenever the stored offset
/// lies inside the data; the header list and timestamp are kept, and the
/// index advances by the number of emitted rows.
pub proof fn lemma_event_tail_monotonic(cp: CheckpointView, data: Seq<u8>)
    requires
        spec_event_tail(cp, data) is Ok,
    ensures
        spec_event_tail(cp, data)->Ok_0.1.last_position_read >= cp.last_position_read,
        cp.last_position_read <= data.len() ==> spec_event_tail(
            cp,
            data,
        )->Ok_0.1.last_position_read == data.len(),
        spec_event_tail(cp, data)->Ok_0.1.headers == cp.headers,
        spec_event_tail(cp, data)->Ok_0.1.time == cp.time,
        spec_event_tail(cp, data)->Ok_0.1.last_index == cp.last_index + (spec_event_tail(
            cp,
            data,
        )->Ok_0.0.len() - 1),
{
}

/// Appends one output row per line of `data` from `start` on, the indices
/// counting up from `first_index`; returns the counter value after the last
/// emitted row.
pub fn collect_event_rows(
    out: &mut Vec<Vec<Vec<u8>>>,
    data: &[u8],
    start: usize,
    first_index: i32,
    time: &Vec<u8>,
    trim_artifacts: bool,
) -> (r: Result<i32, ISUProcessorError>)
    requires
        first_index >= 0,
        start <= data@.len(),
    ensures
        match r {
            Result::Ok(last) => event_rows_from(
                data@,
                start as int,
                first_index as int,
                time@,
                trim_artifacts,
            ) matches Ok(rows) && final(out).deep_view() == old(out).deep_view() + rows && last
                as int == first_index + rows.len(),
            Result::Err(e) => event_rows_from(
                data@,
                start as int,
                first_index as int,
                time@,
                trim_artifacts,
            ) == Result::<Seq<Seq<Seq<u8>>>, ISUProcessorError>::Err(e),
        },
{
    let dlen: usize = data.len();
    let mut pos: usize = start;
    let mut idx: i32 = first_index;
    let ghost base = out.deep_view();
    let ghost whole = event_rows_from(
        data@,
        start as int,
        first_index as int,
        time@,
        trim_artifacts,
    );
    proof {
        assert(base + Seq::<Seq<Seq<u8>>>::empty() =~= base);
    }
    loop
        invariant
            dlen == data@.len(),
            start <= pos <= dlen,
            0 <= first_index <= idx,
            base == old(out).deep_view(),
            whole == event_rows_from(
                data@,
                start as int,
                first_index as int,
                time@,
                trim_artifacts,
            ),
            idx as int == first_index + (out.deep_view().len() - base.len()),
            base.len() <= out.deep_view().len(),
            match event_rows_from(data@, pos as int, idx as int, time@, trim_artifacts) {
                Result::Ok(rest) => whole == Result::<
                    Seq<Seq<Seq<u8>>>,
                    ISUProcessorError,
                >::Ok(out.deep_view().skip(base.len() as int).add(rest)) && out.deep_view().take(
                    base.len() as int,
                ) == base,
                Result::Err(er) => whole == Result::<
                    Seq<Seq<Seq<u8>>>,
                    ISUProcessorError,
                >::Err(er),
            },
        decreases dlen - pos,
    {
        if pos == dlen {
            proof {
                let done = out.deep_view().skip(base.len() as int);
                assert(event_rows_from(data@, pos as int, idx as int, time@, trim_artifacts)
                    == Result::<Seq<Seq<Seq<u8>>>, ISUProcessorError>::Ok(Seq::empty()));
                assert(done.add(Seq::empty()) =~= done);
                assert(whole == Result::<Seq<Seq<Seq<u8>>>, ISUProcessorError>::Ok(done));
                assert(out.deep_view().take(base.len() as int).add(done) =~= out.deep_view());
                assert(out.deep_view() == base.add(done));
            }
            return Result::Ok(idx);
        }
        if idx == i32::MAX {
            return Result::Err(ISUProcessorError::IntegerConversionError);
        }
        let e: usize = line_end_exec(data, pos);
        proof {
            lemma_line_end_bounds(data@, pos as int);
        }
        let line_len: usize = e - pos;
        if trim_artifacts && line_len < 3 {
            return Result::Err(ISUProcessorError::FormatError);
        }
        let text_end: usize = if trim_artifacts {
            e - 3
        } else {
            e - 1
        };
        let ghost line = data@.subrange(pos as int, e as int);
        proof {
            if trim_artifacts {
                assert(line.take(line.len() - 3) =~= data@.subrange(pos as int, text_end as int));
            } else {
                assert(line.take(line.len() - 1) =~= data@.subrange(pos as int, text_end as int));
            }
        }
        let text: Vec<u8> = slice_to_vec(slice_subrange(data, pos, text_end));
        let idx_bytes: Vec<u8> = u64_to_decimal(idx as u64);
        let time_copy: Vec<u8> = slice_to_vec(time.as_slice());
        let mut row: Vec<Vec<u8>> = Vec::new();
        row.push(text);
        row.push(idx_bytes);
        row.push(time_copy);
        proof {
            assert(row.deep_view() =~~= event_row(
                data@.subrange(pos as int, text_end as int),
                idx as int,
                time@,
            ));
        }
        let ghost prev = out.deep_view();
        let ghost spec_row = event_row(
            data@.subrange(pos as int, text_end as int),
            idx as int,
            time@,
        );
        out.push(row);
        proof {
            assert(out.deep_view() =~~= prev.push(spec_row));
            let suffix = event_rows_from(data@, e as int, idx + 1, time@, trim_artifacts);
            match suffix {
                Result::Ok(rest) => {
                    assert(event_rows_from(data@, pos as int, idx as int, time@, trim_artifacts)
                        == Result::<Seq<Seq<Seq<u8>>>, ISUProcessorError>::Ok(
                        seq![spec_row] + rest,
                    ));
                    assert(prev.skip(base.len() as int).add(seq![spec_row] + rest)
                        =~= out.deep_view().skip(base.len() as int).add(rest));
                    assert(out.deep_view().take(base.len() as int) =~= prev.take(
                        base.len() as int,
                    ));
                },
                Result::Err(er) => {
                    assert(event_rows_from(data@, pos as int, idx as int, time@, trim_artifacts)
                        == Result::<Seq<Seq<Seq<u8>>>, ISUProcessorError>::Err(er));
                },
            }
        }
        pos = e;
        idx = idx + 1;
    }
}

/// The fixed header row of a normalized event file.
fn event_header_row() -> (r: Vec<Vec<u8>>)
    ensures
        r.deep_view() == event_header(),
{
    let mut row: Vec<Vec<u8>> = Vec::new();
    row.push(vec![69u8, 118u8, 101u8, 110u8, 116u8]);
    row.push(vec![73u8, 110u8, 100u8, 101u8, 120u8]);
    row.push(vec![68u8, 97u8, 116u8, 101u8, 84u8, 105u8, 109u8, 101u8]);
    assert(row.deep_view() =~~= event_header());
    row
}

/// Processes an event file seen for the first time, as `spec_event_initial`
/// states: resolves the run timestamp from the parent directory, emits the
/// fixed header and one `(event, index, timestamp)` row per line counting
/// from zero, and builds the checkpoint to persist once the output artifact
/// is flushed.
pub fn initial_event(path: &str, data: &[u8]) -> (r: Result<
    (Vec<Vec<Vec<u8>>>, ISUFile),
    ISUProcessorError,
>)
    ensures
        match spec_event_initial(path@, data@) {
            Result::Ok(p) => r matches Ok(q) && q.0.deep_view() == p.0 && q.1@ == p.1,
            Result::Err(e) => r matches Err(e2) && e2 == e,
        },
{
    let time: String = match resolve_run_time(path) {
        Result::Err(e) => { return Result::Err(e) },
        Result::Ok(t) => t,
    };
    if data.len() as u64 > i64::MAX as u64 {
        return Result::Err(ISUProcessorError::IntegerConversionError);
    }
    let time_bytes: Vec<u8> = string_to_bytes(&time);
    let mut all: Vec<Vec<Vec<u8>>> = Vec::new();
    all.push(event_header_row());
    let last: i32 = match collect_event_rows(&mut all, data, 0, 0, &time_bytes, true) {
        Result::Err(e) => { return Result::Err(e) },
        Result::Ok(l) => l,
    };
    let headers: String = "Event,Index,DateTime".to_owned();
    proof {
        reveal_strlit("Event,Index,DateTime");
        assert(headers@ =~= event_headers_text());
    }
    let cp = ISUFile {
        path: path.to_owned(),
        last_position_read: data.len() as i64,
        last_index: last,
        headers: headers,
        time: time,
    };
    proof {
        let rows = event_rows_from(data@, 0, 0, time_bytes@, true)->Ok_0;
        assert(all.deep_view() =~~= seq![event_header()] + rows);
    }
    Result::Ok((all, cp))
}

/// Tails an event file from its checkpoint, as `spec_event_tail` states:
/// emits the stored header list and one row per new line, the sequence
/// counter resuming from the stored index, and advances the checkpoint.
pub fn tail_event(cp: &ISUFile, data: &[u8]) -> (r: Result<
    (Vec<Vec<Vec<u8>>>, ISUFile),
    ISUProcessorError,
>)
    ensures
        match spec_event_tail(cp@, data@) {
            Result::Ok(p) => r matches Ok(q) && q.0.deep_view() == p.0 && q.1@ == p.1,
            Result::Err(e) => r matches Err(e2) && e2 == e,
        },
{
    if cp.last_position_read < 0 || cp.last_index < 0 {
        return Result::Err(ISUProcessorError::IntegerConversionError);
    }
    if data.len() as u64 > i64::MAX as u64 {
        return Result::Err(ISUProcessorError::IntegerConversionError);
    }
    let dlen: usize = data.len();
    let start: usize = if cp.last_position_read as u64 <= dlen as u64 {
        cp.last_position_read as usize
    } else {
        dlen
    };
    let time_bytes: Vec<u8> = string_to_bytes(&cp.time);
    let headers_bytes: Vec<u8> = string_to_bytes(&cp.headers);
    let mut all: Vec<Vec<Vec<u8>>> = Vec::new();
    all.push(split_fields_exec(headers_bytes.as_slice()));
    let last: i32 = match collect_event_rows(&mut all, data, start, cp.last_index, &time_bytes,
        false) {
        Result::Err(e) => { return Result::Err(e) },
        Result::Ok(l) => l,
    };
    let new_pos: i64 = if cp.last_position_read as u64 <= dlen as u64 {
        dlen as i64
    } else {
        cp.last_position_read
    };
    let ncp = ISUFile {
        path: cp.path.clone(),
        last_position_read: new_pos,
        last_index: last,
        headers: cp.headers.clone(),
        time: cp.time.clone(),
    };
    proof {
        let rows = event_rows_from(
            data@,
            start as int,
            cp.last_index as int,
            time_bytes@,
            false,
        )->Ok_0;
        assert(all.deep_view() =~~= seq![split_fields(encode_utf8(cp.headers@))] + rows);
    }
    Result::Ok((all, ncp))
}

} // verus!
