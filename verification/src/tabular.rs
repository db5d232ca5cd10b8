//! The tabular processor: delimited records behind a fixed-format header
//! preamble. Initial processing skips the preamble, replaces the last header
//! column with a `DateTime` column, and appends the run timestamp to every
//! data record; a tail parses only the unread span, with the stored header
//! list supplying the output header.

use vstd::prelude::*;
use vstd::slice::slice_subrange;
use vstd::utf8::decode_utf8;
use vstd::utf8::encode_utf8;
use vstd::utf8::encode_utf8_decode_utf8;
use vstd::utf8::valid_utf8;

use crate::csv_io::csv_parse;
use crate::csv_io::spec_parse_records;
use crate::errors::ISUProcessorError;
use crate::run_time::parent_dir_name_spec;
use crate::run_time::resolve_run_time;
use crate::run_time::run_time_of;
use crate::store::tail_new_position;
use crate::store::CheckpointView;
use crate::store::ISUFile;
use crate::strconv::bytes_to_string;
use crate::strconv::string_to_bytes;
use crate::textops::contains_bytes;
use crate::textops::copy_fields_prefix;
use crate::textops::find_bytes;
use crate::textops::join_fields;
use crate::textops::lemma_line_end_bounds;
use crate::textops::line_end;
use crate::textops::line_end_exec;
use crate::textops::split_fields;
use crate::textops::split_fields_exec;

verus! {

/// The sentinel that ends each block of the header preamble: the bytes of
/// `***End_of_Header***`.
pub open spec fn sentinel() -> Seq<u8> {
    seq![
        42u8, 42u8, 42u8, 69u8, 110u8, 100u8, 95u8, 111u8, 102u8, 95u8, 72u8, 101u8, 97u8,
        100u8, 101u8, 114u8, 42u8, 42u8, 42u8,
    ]
}

/// The trailing column appended to the transformed header: the bytes of
/// `DateTime`.
pub open spec fn datetime_field() -> Seq<u8> {
    seq![68u8, 97u8, 116u8, 101u8, 84u8, 105u8, 109u8, 101u8]
}

/// The byte offset just after the preamble, scanning lines from `pos` with
/// `count` sentinel lines already seen: the preamble ends with the second
/// line that mentions the sentinel, and a file that runs out before that is
/// malformed.
pub open spec fn preamble_end_from(data: Seq<u8>, pos: int, count: int) -> Option<int>
    decreases data.len() - pos,
    via preamble_end_from_decreases
{
    if pos < 0 || pos >= data.len() {
        Option::None
    } else {
        let e = line_end(data, pos);
        let hits = if contains_bytes(data.subrange(pos, e), sentinel()) {
            count + 1
        } else {
            count
        };
        if hits >= 2 {
            Option::Some(e)
        } else {
            preamble_end_from(data, e, hits)
        }
    }
}

#[via_fn]
proof fn preamble_end_from_decreases(data: Seq<u8>, pos: int, count: int) {
    if 0 <= pos < data.len() {
        lemma_line_end_bounds(data, pos);
    }
}

/// The byte offset just after the second sentinel line of the preamble.
pub open spec fn preamble_end(data: Seq<u8>) -> Option<int> {
    preamble_end_from(data, 0, 0)
}

/// The sentinel as a byte vector.
fn sentinel_bytes() -> (r: Vec<u8>)
    ensures
        r@ == sentinel(),
{
    let r: Vec<u8> = vec![
        42u8, 42u8, 42u8, 69u8, 110u8, 100u8, 95u8, 111u8, 102u8, 95u8, 72u8, 101u8, 97u8,
        100u8, 101u8, 114u8, 42u8, 42u8, 42u8,
    ];
    assert(r@ =~= sentinel());
    r
}

/// Scans for the end of the header preamble.
pub fn find_preamble_end(data: &[u8]) -> (r: Option<usize>)
    ensures
        match r {
            Option::Some(e) => preamble_end(data@) == Option::Some(e as int) && e <= data@.len(),
            Option::None => preamble_end(data@) is None,
        },
{
    let sent: Vec<u8> = sentinel_bytes();
    let dlen: usize = data.len();
    let mut pos: usize = 0;
    let mut count: u32 = 0;
    loop
        invariant
            dlen == data@.len(),
            pos <= dlen,
            count < 2,
            sent@ == sentinel(),
            preamble_end(data@) == preamble_end_from(data@, pos as int, count as int),
        decreases dlen - pos,
    {
        if pos == dlen {
            return Option::None;
        }
        let e: usize = line_end_exec(data, pos);
        proof {
            lemma_line_end_bounds(data@, pos as int);
        }
        let line: &[u8] = slice_subrange(data, pos, e);
        if find_bytes(line, sent.as_slice()) {
            if count == 1 {
                return Option::Some(e);
            }
            count = count + 1;
        }
        pos = e;
    }
}

/// Appends one output row per record of `recs` from `from` on, each with the
/// run timestamp as one extra trailing field.
fn append_time_rows(
    out: &mut Vec<Vec<Vec<u8>>>,
    recs: &Vec<Vec<Vec<u8>>>,
    from: usize,
    time: &Vec<u8>,
)
    requires
        from <= recs@.len(),
    ensures
        final(out).deep_view() == old(out).deep_view() + recs.deep_view().skip(from as int).map(
            |i: int, rec: Seq<Seq<u8>>| rec.push(time@),
        ),
{
    let ghost f = |i: int, rec: Seq<Seq<u8>>| rec.push(time@);
    let n: usize = recs.len();
    let ghost base = out.deep_view();
    assert(base + recs.deep_view().subrange(from as int, from as int).map(f) =~~= base);
    for j in from..n
        invariant
            from <= j <= n,
            n == recs@.len(),
            recs.deep_view().len() == n,
            base == old(out).deep_view(),
            f == (|i: int, rec: Seq<Seq<u8>>| rec.push(time@)),
            out.deep_view() == base + recs.deep_view().subrange(from as int, j as int).map(f),
    {
        let mut row: Vec<Vec<u8>> = copy_fields_prefix(&recs[j], recs[j].len());
        row.push(vstd::slice::slice_to_vec(time.as_slice()));
        proof {
            assert(recs.deep_view()[j as int].take(recs.deep_view()[j as int].len() as int)
                =~= recs.deep_view()[j as int]);
            assert(row.deep_view() =~~= recs.deep_view()[j as int].push(time@));
        }
        let ghost prev = out.deep_view();
        out.push(row);
        proof {
            assert(out.deep_view() =~~= prev.push(recs.deep_view()[j as int].push(time@)));
            assert(out.deep_view() =~~= base + recs.deep_view().subrange(
                from as int,
                j + 1,
            ).map(f));
        }
    }
    proof {
        assert(recs.deep_view().subrange(from as int, n as int) =~= recs.deep_view().skip(
            from as int,
        ));
    }
}

/// What initial tabular processing makes of a file: everything up to and
/// including the second sentinel line is discarded; the first remaining
/// record is the header, whose last column is replaced by `DateTime`; every
/// further record gets the run timestamp as one extra trailing field; and
/// the checkpoint stores the transformed header list, the run timestamp and
/// an offset covering the whole file.
pub open spec fn spec_tabular_initial(path: Seq<char>, data: Seq<u8>) -> Result<
    (Seq<Seq<Seq<u8>>>, CheckpointView),
    ISUProcessorError,
> {
    match preamble_end(data) {
        Option::None => Result::Err(ISUProcessorError::FormatError),
        Option::Some(body_start) => match parent_dir_name_spec(path) {
            Option::None => Result::Err(ISUProcessorError::BlankPath),
            Option::Some(name) => match run_time_of(name) {
                Option::None => Result::Err(ISUProcessorError::TimeParsingError),
                Option::Some(t) => if data.len() > i64::MAX {
                    Result::Err(ISUProcessorError::IntegerConversionError)
                } else {
                    match spec_parse_records(data.subrange(body_start, data.len() as int)) {
                        Option::None => Result::Err(ISUProcessorError::CSVError),
                        Option::Some(recs) => if recs.len() == 0 || recs[0].len() == 0 {
                            Result::Err(ISUProcessorError::FormatError)
                        } else {
                            let header = recs[0].take(recs[0].len() - 1).push(datetime_field());
                            if !valid_utf8(join_fields(header)) {
                                Result::Err(ISUProcessorError::CSVError)
                            } else {
                                Result::Ok(
                                    (
                                        seq![header] + recs.skip(1).map(
                                            |i: int, rec: Seq<Seq<u8>>| rec.push(encode_utf8(t)),
                                        ),
                                        CheckpointView {
                                            path: path,
                                            last_position_read: data.len() as int,
                                            last_index: 0,
                                            headers: decode_utf8(join_fields(header)),
                                            time: t,
                                        },
                                    ),
                                )
                            }
                        },
                    }
                },
            },
        },
    }
}

/// What tailing a tabular file makes of it: the stored header list is the
/// output header, every record of the unread span gets the stored run
/// timestamp as one extra trailing field, and the checkpoint offset advances
/// to the end of the data while the header list, timestamp and index stay
/// unchanged.
pub open spec fn spec_tabular_tail(cp: CheckpointView, data: Seq<u8>) -> Result<
    (Seq<Seq<Seq<u8>>>, CheckpointView),
    ISUProcessorError,
> {
    if cp.last_position_read < 0 {
        Result::Err(ISUProcessorError::IntegerConversionError)
    } else if data.len() > i64::MAX {
        Result::Err(ISUProcessorError::IntegerConversionError)
    } else {
        let start = if cp.last_position_read <= data.len() {
            cp.last_position_read
        } else {
            data.len() as int
        };
        match spec_parse_records(data.subrange(start, data.len() as int)) {
            Option::None => Result::Err(ISUProcessorError::CSVError),
            Option::Some(recs) => Result::Ok(
                (
                    seq![split_fields(encode_utf8(cp.headers))] + recs.map(
                        |i: int, rec: Seq<Seq<u8>>| rec.push(encode_utf8(cp.time)),
                    ),
                    CheckpointView {
                        last_position_read: tail_new_position(
                            cp.last_position_read,
                            data.len() as int,
                        ),
                        ..cp
                    },
                ),
            ),
        }
    }
}

/// The header columns a tail will emit equal the columns initial processing
/// stored: storing the transformed header as one comma-joined string and
/// cutting it again is the identity, whenever no column name itself holds a
/// comma.
pub proof fn lemma_stored_headers_round_trip(path: Seq<char>, data: Seq<u8>)
    requires
        spec_tabular_initial(path, data) is Ok,
        ({
            let p = spec_tabular_initial(path, data)->Ok_0;
            forall|i: int|
                0 <= i < p.0[0].len() ==> crate::textops::field_has_no_comma(#[trigger] p.0[0][i])
        }),
    ensures
        ({
            let p = spec_tabular_initial(path, data)->Ok_0;
            split_fields(encode_utf8(p.1.headers)) == p.0[0]
        }),
{
    let p = spec_tabular_initial(path, data)->Ok_0;
    let recs = spec_parse_records(
        data.subrange(preamble_end(data)->Some_0, data.len() as int),
    )->Some_0;
    let header = recs[0].take(recs[0].len() - 1).push(datetime_field());
    assert(p.0[0] == header);
    assert(p.1.headers == decode_utf8(join_fields(header)));
    vstd::utf8::decode_utf8_encode_utf8(join_fields(header));
    crate::textops::lemma_split_join_round_trip(header);
}

/// Across any successful tabular tail, the checkpoint offset never
/// decreases, and it equals the byte length consumed so far whenever the
/// stored offset lies inside the data; the header list, timestamp and index
/// are kept.
pub proof fn lemma_tabular_tail_monotonic(cp: CheckpointView, data: Seq<u8>)
    requires
        spec_tabular_tail(cp, data) is Ok,
    ensures
        spec_tabular_tail(cp, data)->Ok_0.1.last_position_read >= cp.last_position_read,
        cp.last_position_read <= data.len() ==> spec_tabular_tail(
            cp,
            data,
        )->Ok_0.1.last_position_read == data.len(),
        spec_tabular_tail(cp, data)->Ok_0.1.headers == cp.headers,
        spec_tabular_tail(cp, data)->Ok_0.1.time == cp.time,
        spec_tabular_tail(cp, data)->Ok_0.1.last_index == cp.last_index,
{
}

/// On every successful initial tabular run, the output header is the source
/// header with its last column replaced by `DateTime`, and every data row is
/// the corresponding source record with exactly one trailing field holding
/// the resolved run timestamp.
pub proof fn lemma_tabular_initial_columns(path: Seq<char>, data: Seq<u8>)
    requires
        spec_tabular_initial(path, data) is Ok,
    ensures
        ({
            let p = spec_tabular_initial(path, data)->Ok_0;
            let recs = spec_parse_records(
                data.subrange(preamble_end(data)->Some_0, data.len() as int),
            )->Some_0;
            let t = run_time_of(parent_dir_name_spec(path)->Some_0)->Some_0;
            &&& p.0.len() == recs.len()
            &&& p.0[0] == recs[0].take(recs[0].len() - 1).push(datetime_field())
            &&& forall|i: int|
                1 <= i < p.0.len() ==> p.0[i] == recs[i].push(encode_utf8(t))
            &&& p.1.time == t
        }),
{
    let recs = spec_parse_records(
        data.subrange(preamble_end(data)->Some_0, data.len() as int),
    )->Some_0;
    let t = run_time_of(parent_dir_name_spec(path)->Some_0)->Some_0;
    let mapped = recs.skip(1).map(|i: int, rec: Seq<Seq<u8>>| rec.push(encode_utf8(t)));
    assert forall|i: int| 1 <= i < recs.len() implies (seq![
        recs[0].take(recs[0].len() - 1).push(datetime_field()),
    ] + mapped)[i] == recs[i].push(encode_utf8(t)) by {
        assert(mapped[i - 1] == recs.skip(1)[i - 1].push(encode_utf8(t)));
        assert(recs.skip(1)[i - 1] == recs[i]);
    }
}

/// Processes a tabular file seen for the first time, as
/// `spec_tabular_initial` states.
pub fn initial_tabular(path: &str, data: &[u8]) -> (r: Result<
    (Vec<Vec<Vec<u8>>>, ISUFile),
    ISUProcessorError,
>)
    ensures
        match spec_tabular_initial(path@, data@) {
            Result::Ok(p) => r matches Ok(q) && q.0.deep_view() == p.0 && q.1@ == p.1,
            Result::Err(e) => r matches Err(e2) && e2 == e,
        },
{
    let body_start: usize = match find_preamble_end(data) {
        Option::None => { return Result::Err(ISUProcessorError::FormatError) },
        Option::Some(e) => e,
    };
    let time: String = match resolve_run_time(path) {
        Result::Err(e) => { return Result::Err(e) },
        Result::Ok(t) => t,
    };
    if data.len() as u64 > i64::MAX as u64 {
        return Result::Err(ISUProcessorError::IntegerConversionError);
    }
    let body: &[u8] = slice_subrange(data, body_start, data.len());
    let recs: Vec<Vec<Vec<u8>>> = match csv_parse(body) {
        Result::Err(e) => { return Result::Err(e) },
        Result::Ok(v) => v,
    };
    if recs.len() == 0 {
        return Result::Err(ISUProcessorError::FormatError);
    }
    let first_len: usize = recs[0].len();
    if first_len == 0 {
        return Result::Err(ISUProcessorError::FormatError);
    }
    let mut header: Vec<Vec<u8>> = copy_fields_prefix(&recs[0], first_len - 1);
    header.push(vec![68u8, 97u8, 116u8, 101u8, 84u8, 105u8, 109u8, 101u8]);
    let ghost header_spec = recs.deep_view()[0].take(recs.deep_view()[0].len() - 1).push(
        datetime_field(),
    );
    proof {
        assert(header.deep_view() =~~= header_spec);
    }
    let joined: Vec<u8> = crate::textops::join_fields_exec(&header);
    let headers_s: String = match bytes_to_string(joined) {
        Option::None => { return Result::Err(ISUProcessorError::CSVError) },
        Option::Some(s) => s,
    };
    proof {
        encode_utf8_decode_utf8(headers_s@);
    }
    let time_bytes: Vec<u8> = string_to_bytes(&time);
    let mut all: Vec<Vec<Vec<u8>>> = Vec::new();
    all.push(header);
    append_time_rows(&mut all, &recs, 1, &time_bytes);
    proof {
        assert(all.deep_view() =~~= seq![header_spec] + recs.deep_view().skip(1).map(
            |i: int, rec: Seq<Seq<u8>>| rec.push(encode_utf8(time@)),
        ));
    }
    let cp = ISUFile {
        path: path.to_owned(),
        last_position_read: data.len() as i64,
        last_index: 0,
        headers: headers_s,
        time: time,
    };
    Result::Ok((all, cp))
}

/// Tails a tabular file from its checkpoint, as `spec_tabular_tail` states.
pub fn tail_tabular(cp: &ISUFile, data: &[u8]) -> (r: Result<
    (Vec<Vec<Vec<u8>>>, ISUFile),
    ISUProcessorError,
>)
    ensures
        match spec_tabular_tail(cp@, data@) {
            Result::Ok(p) => r matches Ok(q) && q.0.deep_view() == p.0 && q.1@ == p.1,
            Result::Err(e) => r matches Err(e2) && e2 == e,
        },
{
    if cp.last_position_read < 0 {
        return Result::Err(ISUProcessorError::IntegerConversionError);
    }
    if data.len() as u64 > i64::MAX as u64 {
        return Result::Err(ISUProcessorError::IntegerConversionError);
    }
    let dlen: usize = data.len();
    let start: usize = if cp.last_position_read as u64 <= dlen as u64 {
        cp.last_position_read as usize
    } else {
        dlen
    };
    let span: &[u8] = slice_subrange(data, start, dlen);
    let recs: Vec<Vec<Vec<u8>>> = match csv_parse(span) {
        Result::Err(e) => { return Result::Err(e) },
        Result::Ok(v) => v,
    };
    let time_bytes: Vec<u8> = string_to_bytes(&cp.time);
    let headers_bytes: Vec<u8> = string_to_bytes(&cp.headers);
    let mut all: Vec<Vec<Vec<u8>>> = Vec::new();
    all.push(split_fields_exec(headers_bytes.as_slice()));
    append_time_rows(&mut all, &recs, 0, &time_bytes);
    proof {
        assert(recs.deep_view().skip(0) =~= recs.deep_view());
        assert(all.deep_view() =~~= seq![split_fields(encode_utf8(cp.headers@))]
            + recs.deep_view().map(|i: int, rec: Seq<Seq<u8>>| rec.push(encode_utf8(cp.time@))));
    }
    let new_pos: i64 = if cp.last_position_read as u64 <= dlen as u64 {
        dlen as i64
    } else {
        cp.last_position_read
    };
    let ncp = ISUFile {
        path: cp.path.clone(),
        last_position_read: new_pos,
        last_index: cp.last_index,
        headers: cp.headers.clone(),
        time: cp.time.clone(),
    };
    Result::Ok((all, ncp))
}

} // verus!
