//! Small verified text utilities shared by the processors: byte-level
//! substring search, line splitting, comma-joined field lists, and decimal
//! rendering of sequence counters.

use vstd::prelude::*;

verus! {

/// The line-feed byte that terminates a line.
pub const LINE_FEED: u8 = 10;

/// The field separator used in persisted header lists.
pub const COMMA: u8 = 44;

// ---------------------------------------------------------------------------
// Byte-level substring search
// ---------------------------------------------------------------------------

/// The needle `n` occurs in `h` starting at position `i`.
pub open spec fn bytes_match_at(h: Seq<u8>, n: Seq<u8>, i: int) -> bool {
    0 <= i && i + n.len() <= h.len() && h.subrange(i, i + n.len()) == n
}

/// The needle `n` occurs somewhere in `h`.
pub open spec fn contains_bytes(h: Seq<u8>, n: Seq<u8>) -> bool {
    exists|i: int| bytes_match_at(h, n, i)
}

/// Whether `n` occurs in `h` starting at position `i`.
fn bytes_match_at_exec(h: &[u8], n: &[u8], i: usize) -> (r: bool)
    requires
        i + n@.len() <= h@.len(),
    ensures
        r == bytes_match_at(h@, n@, i as int),
{
    let hl: usize = h.len();
    let nl: usize = n.len();
    let mut j: usize = 0;
    while j < nl
        invariant
            hl == h@.len() && nl == n@.len(),
            i + nl <= hl,
            0 <= j <= nl,
            forall|k: int| 0 <= k < j ==> h@[i + k] == n@[k],
        decreases nl - j,
    {
        if h[i + j] != n[j] {
            assert(!bytes_match_at(h@, n@, i as int)) by {
                if h@.subrange(i as int, i + n@.len()) == n@ {
                    assert(h@.subrange(i as int, i + n@.len())[j as int] == n@[j as int]);
                }
            }
            return false;
        }
        j = j + 1;
    }
    assert(h@.subrange(i as int, i + n@.len()) =~= n@);
    true
}

/// Whether the needle `n` occurs anywhere in the haystack `h`.
pub fn find_bytes(h: &[u8], n: &[u8]) -> (r: bool)
    ensures
        r == contains_bytes(h@, n@),
{
    if n.len() > h.len() {
        assert(forall|i: int| !bytes_match_at(h@, n@, i));
        return false;
    }
    let last: usize = h.len() - n.len();
    let mut i: usize = 0;
    loop
        invariant
            n@.len() <= h@.len(),
            last == h@.len() - n@.len(),
            0 <= i <= last,
            forall|k: int| 0 <= k < i ==> !bytes_match_at(h@, n@, k),
        decreases last - i,
    {
        if bytes_match_at_exec(h, n, i) {
            return true;
        }
        if i == last {
            assert(forall|k: int| bytes_match_at(h@, n@, k) ==> 0 <= k <= last);
            return false;
        }
        i = i + 1;
    }
}

// ---------------------------------------------------------------------------
// Line boundaries
// ---------------------------------------------------------------------------

/// The position just after the line that starts at `pos`: one past the first
/// line feed at or after `pos`, or the end of the data when no line feed
/// remains.
pub open spec fn line_end(data: Seq<u8>, pos: int) -> int
    decreases data.len() - pos,
{
    if pos < 0 || pos >= data.len() {
        pos
    } else if data[pos] == LINE_FEED {
        pos + 1
    } else {
        line_end(data, pos + 1)
    }
}

/// A line that starts inside the data ends after it starts and no later than
/// the end of the data.
pub proof fn lemma_line_end_bounds(data: Seq<u8>, pos: int)
    requires
        0 <= pos < data.len(),
    ensures
        pos < line_end(data, pos) <= data.len(),
    decreases data.len() - pos,
{
    if data[pos] != LINE_FEED {
        if pos + 1 < data.len() {
            lemma_line_end_bounds(data, pos + 1);
        } else {
            assert(line_end(data, pos + 1) == pos + 1);
        }
    }
}

/// The position just after the line that starts at `pos`.
pub fn line_end_exec(data: &[u8], pos: usize) -> (r: usize)
    requires
        pos <= data@.len(),
    ensures
        r == line_end(data@, pos as int),
        pos <= r <= data@.len(),
{
    let mut i: usize = pos;
    while i < data.len()
        invariant
            pos <= i <= data@.len(),
            line_end(data@, pos as int) == line_end(data@, i as int),
        decreases data@.len() - i,
    {
        if data[i] == LINE_FEED {
            return i + 1;
        }
        i = i + 1;
    }
    i
}

// ---------------------------------------------------------------------------
// Comma-joined field lists
// ---------------------------------------------------------------------------

/// The fields joined into one byte string with a comma between neighbours.
pub open spec fn join_fields(fields: Seq<Seq<u8>>) -> Seq<u8>
    decreases fields.len(),
{
    if fields.len() == 0 {
        Seq::empty()
    } else if fields.len() == 1 {
        fields[0]
    } else {
        fields[0] + seq![COMMA] + join_fields(fields.skip(1))
    }
}

/// The byte string cut at every comma; the empty string holds one empty
/// field, as string splitting does.
pub open spec fn split_fields(b: Seq<u8>) -> Seq<Seq<u8>>
    decreases b.len(),
{
    if b.len() == 0 {
        seq![Seq::<u8>::empty()]
    } else if b[0] == COMMA {
        seq![Seq::<u8>::empty()] + split_fields(b.skip(1))
    } else {
        let rest = split_fields(b.skip(1));
        seq![seq![b[0]] + rest[0]] + rest.skip(1)
    }
}

/// Splitting always yields at least one field.
pub proof fn lemma_split_fields_len(b: Seq<u8>)
    ensures
        split_fields(b).len() >= 1,
    decreases b.len(),
{
    if b.len() != 0 {
        lemma_split_fields_len(b.skip(1));
    }
}

/// Appending one more field extends the joined string by a comma and the
/// field (or is the field itself when the list was empty).
proof fn lemma_join_push(s: Seq<Seq<u8>>, x: Seq<u8>)
    ensures
        join_fields(s.push(x)) == if s.len() == 0 {
            x
        } else {
            join_fields(s) + seq![COMMA] + x
        },
    decreases s.len(),
{
    if s.len() == 0 {
        assert(s.push(x).len() == 1);
        assert(s.push(x)[0] == x);
        assert(join_fields(s.push(x)) == x);
    } else if s.len() == 1 {
        assert(s.push(x)[0] == s[0]);
        assert(s.push(x).skip(1) =~= seq![x]);
        assert(join_fields(seq![x]) == x);
        assert(join_fields(s.push(x)) == s[0] + seq![COMMA] + x);
        assert(join_fields(s) == s[0]);
    } else {
        assert(s.push(x).skip(1) =~= s.skip(1).push(x));
        lemma_join_push(s.skip(1), x);
        assert(s.push(x)[0] == s[0]);
        assert(join_fields(s.push(x)) == s[0] + seq![COMMA] + join_fields(s.skip(1).push(x)));
        assert(join_fields(s.skip(1).push(x)) == join_fields(s.skip(1)) + seq![COMMA] + x);
        assert(s[0] + seq![COMMA] + (join_fields(s.skip(1)) + seq![COMMA] + x) =~= (s[0]
            + seq![COMMA] + join_fields(s.skip(1))) + seq![COMMA] + x);
    }
}

/// Splitting agrees with cutting at the first comma.
proof fn lemma_split_at_comma(b: Seq<u8>, k: int)
    requires
        0 <= k <= b.len(),
        forall|j: int| 0 <= j < k ==> b[j] != COMMA,
        k < b.len() ==> b[k] == COMMA,
    ensures
        split_fields(b) == if k == b.len() {
            seq![b]
        } else {
            seq![b.take(k)] + split_fields(b.skip(k + 1))
        },
    decreases k,
{
    lemma_split_fields_len(b);
    if k == 0 {
        if b.len() == 0 {
            assert(b =~= Seq::<u8>::empty());
        } else {
            assert(b.take(0) =~= Seq::<u8>::empty());
            assert(seq![b.take(0)] + split_fields(b.skip(1)) =~~= seq![Seq::<u8>::empty()]
                + split_fields(b.skip(1)));
        }
    } else {
        let t = b.skip(1);
        assert(forall|j: int| 0 <= j < k - 1 ==> t[j] != COMMA);
        lemma_split_at_comma(t, k - 1);
        lemma_split_fields_len(t);
        let rest = split_fields(t);
        if k == b.len() {
            assert(rest == seq![t]);
            assert(seq![b[0]] + t =~= b);
            assert(seq![seq![b[0]] + rest[0]] + rest.skip(1) =~~= seq![b]);
        } else {
            assert(rest == seq![t.take(k - 1)] + split_fields(t.skip(k)));
            assert(rest[0] == t.take(k - 1));
            assert(seq![b[0]] + t.take(k - 1) =~= b.take(k));
            assert(rest.skip(1) =~= split_fields(t.skip(k)));
            assert(t.skip(k) =~= b.skip(k + 1));
            assert(seq![seq![b[0]] + rest[0]] + rest.skip(1) =~~= seq![b.take(k)]
                + split_fields(b.skip(k + 1)));
        }
    }
}

/// No byte of the field is the separator.
pub open spec fn field_has_no_comma(f: Seq<u8>) -> bool {
    forall|j: int| 0 <= j < f.len() ==> f[j] != COMMA
}

/// Joining fields and splitting the result gives the fields back, as long as
/// the list is non-empty and no field holds a comma.
pub proof fn lemma_split_join_round_trip(fields: Seq<Seq<u8>>)
    requires
        fields.len() >= 1,
        forall|i: int| 0 <= i < fields.len() ==> field_has_no_comma(#[trigger] fields[i]),
    ensures
        split_fields(join_fields(fields)) == fields,
    decreases fields.len(),
{
    if fields.len() == 1 {
        let b = fields[0];
        assert(field_has_no_comma(fields[0]));
        lemma_split_at_comma(b, b.len() as int);
        assert(seq![b] =~~= fields);
    } else {
        let b = join_fields(fields);
        let len0 = fields[0].len() as int;
        assert(field_has_no_comma(fields[0]));
        assert forall|j: int| 0 <= j < len0 implies b[j] != COMMA by {
            assert(b[j] == fields[0][j]);
        }
        assert(b[len0] == COMMA);
        lemma_split_at_comma(b, len0);
        assert(b.take(len0) =~= fields[0]);
        assert(b.skip(len0 + 1) =~= join_fields(fields.skip(1)));
        assert(forall|i: int|
            0 <= i < fields.skip(1).len() ==> field_has_no_comma(#[trigger] fields.skip(1)[i]));
        lemma_split_join_round_trip(fields.skip(1));
        assert(seq![b.take(len0)] + split_fields(b.skip(len0 + 1)) =~~= fields);
    }
}

/// The position of the first comma at or after `pos`, or the length of the
/// data when no comma remains.
fn find_comma(b: &[u8], pos: usize) -> (r: usize)
    requires
        pos <= b@.len(),
    ensures
        pos <= r <= b@.len(),
        forall|j: int| pos <= j < r ==> b@[j] != COMMA,
        r < b@.len() ==> b@[r as int] == COMMA,
{
    let mut i: usize = pos;
    while i < b.len()
        invariant
            pos <= i <= b@.len(),
            forall|j: int| pos <= j < i ==> b@[j] != COMMA,
        decreases b@.len() - i,
    {
        if b[i] == COMMA {
            return i;
        }
        i = i + 1;
    }
    i
}

/// Joins the fields with commas, as the stored header list is written.
pub fn join_fields_exec(fields: &Vec<Vec<u8>>) -> (r: Vec<u8>)
    ensures
        r@ == join_fields(fields.deep_view()),
{
    let mut out: Vec<u8> = Vec::new();
    let n: usize = fields.len();
    assert(fields.deep_view().take(0) =~= Seq::<Seq<u8>>::empty());
    for i in 0..n
        invariant
            n == fields@.len(),
            fields.deep_view().len() == n,
            out@ == join_fields(fields.deep_view().take(i as int)),
    {
        if i > 0 {
            out.push(COMMA);
        }
        out.extend_from_slice(fields[i].as_slice());
        proof {
            let dv = fields.deep_view();
            assert(dv.take(i + 1) =~= dv.take(i as int).push(dv[i as int]));
            lemma_join_push(dv.take(i as int), dv[i as int]);
            assert(dv[i as int] == fields@[i as int]@);
            if i == 0 {
                assert(out@ =~= join_fields(dv.take(i + 1)));
            } else {
                assert(out@ =~= join_fields(dv.take(i as int)) + seq![COMMA] + dv[i as int]);
            }
        }
    }
    assert(fields.deep_view().take(n as int) =~= fields.deep_view());
    out
}

/// Cuts the byte string at every comma.
pub fn split_fields_exec(b: &[u8]) -> (r: Vec<Vec<u8>>)
    ensures
        r.deep_view() == split_fields(b@),
{
    let mut out: Vec<Vec<u8>> = Vec::new();
    let mut pos: usize = 0;
    assert(b@.skip(0) =~= b@);
    assert(out.deep_view() + split_fields(b@) =~~= split_fields(b@));
    loop
        invariant
            pos <= b@.len(),
            split_fields(b@) == out.deep_view() + split_fields(b@.skip(pos as int)),
        decreases b@.len() - pos,
    {
        let k: usize = find_comma(b, pos);
        let field: Vec<u8> = vstd::slice::slice_to_vec(vstd::slice::slice_subrange(b, pos, k));
        proof {
            let t = b@.skip(pos as int);
            assert(forall|j: int| 0 <= j < k - pos ==> t[j] != COMMA);
            lemma_split_at_comma(t, k - pos);
        }
        let ghost prev = out.deep_view();
        out.push(field);
        assert(out.deep_view() =~~= prev.push(b@.subrange(pos as int, k as int)));
        if k == b.len() {
            proof {
                let t = b@.skip(pos as int);
                assert(t =~= b@.subrange(pos as int, k as int));
                assert(split_fields(t) == seq![t]);
                assert(out.deep_view() =~~= prev + seq![t]);
                assert(split_fields(b@) =~~= out.deep_view());
            }
            return out;
        }
        proof {
            let t = b@.skip(pos as int);
            assert(split_fields(t) == seq![t.take(k - pos)] + split_fields(t.skip(k - pos + 1)));
            assert(t.take(k - pos) =~= b@.subrange(pos as int, k as int));
            assert(t.skip(k - pos + 1) =~= b@.skip(k + 1));
            assert(out.deep_view() + split_fields(b@.skip(k + 1)) =~~= prev + split_fields(t));
            assert(split_fields(b@) == out.deep_view() + split_fields(b@.skip(k + 1)));
        }
        pos = k + 1;
    }
}

/// A copy of the first `k` fields of a record.
pub fn copy_fields_prefix(v: &Vec<Vec<u8>>, k: usize) -> (r: Vec<Vec<u8>>)
    requires
        k <= v@.len(),
    ensures
        r.deep_view() == v.deep_view().take(k as int),
{
    let mut out: Vec<Vec<u8>> = Vec::new();
    assert(out.deep_view() =~~= v.deep_view().take(0));
    for i in 0..k
        invariant
            k <= v@.len(),
            v.deep_view().len() == v@.len(),
            out.deep_view() == v.deep_view().take(i as int),
    {
        let item: Vec<u8> = vstd::slice::slice_to_vec(v[i].as_slice());
        assert(item@ == v@[i as int]@);
        assert(item.deep_view() =~= item@);
        assert(v.deep_view()[i as int] =~= v@[i as int]@);
        let ghost prev = out.deep_view();
        out.push(item);
        assert(out.deep_view() =~~= prev.push(v.deep_view()[i as int]));
        assert(out.deep_view() =~~= v.deep_view().take(i + 1));
    }
    out
}

// ---------------------------------------------------------------------------
// Decimal rendering of counters
// ---------------------------------------------------------------------------

/// The usual base-ten digit string of a non-negative number.
pub open spec fn dec_digits(n: nat) -> Seq<u8>
    decreases n,
{
    if n < 10 {
        seq![(48 + n) as u8]
    } else {
        dec_digits(n / 10) + seq![(48 + n % 10) as u8]
    }
}

/// Appends the base-ten digit string of `n`.
fn push_decimal(out: &mut Vec<u8>, n: u64)
    ensures
        final(out)@ == old(out)@ + dec_digits(n as nat),
    decreases n,
{
    if n < 10 {
        out.push((48 + n) as u8);
    } else {
        push_decimal(out, n / 10);
        out.push((48 + (n % 10)) as u8);
        assert(old(out)@ + dec_digits((n / 10) as nat) + seq![(48 + (n as nat) % 10) as u8]
            =~= old(out)@ + dec_digits(n as nat));
    }
}

/// The base-ten digit string of `n`, as a sequence counter is emitted.
pub fn u64_to_decimal(n: u64) -> (r: Vec<u8>)
    ensures
        r@ == dec_digits(n as nat),
{
    let mut out: Vec<u8> = Vec::new();
    push_decimal(&mut out, n);
    assert(Seq::<u8>::empty() + dec_digits(n as nat) =~= dec_digits(n as nat));
    out
}

} // verus!
