//! Record framing of the decompressed stream: each record is an unsigned
//! little-endian base-128 varint giving its length, followed by that many bytes.

use vstd::prelude::*;

verus! {

/// The most bytes a length prefix may take.
pub const MAX_PREFIX_BYTES: usize = 10;

/// Why the record stream could not be split.
#[derive(Debug, Clone, Copy, PartialEq, Eq, Structural)]
pub enum FrameError {
    /// A length prefix runs over more bytes than a length can take.
    PrefixTooLong,
    /// A record is shorter than its length prefix declares.
    Truncated,
}

/// The number of bytes of the varint at the start of `b`, up to and including
/// the first byte without the continuation bit; 0 when `b` ends before one.
pub open spec fn prefix_len(b: Seq<u8>) -> nat
    decreases b.len(),
{
    if b.len() == 0 {
        0
    } else if b[0] < 128 {
        1
    } else if prefix_len(b.drop_first()) == 0 {
        0
    } else {
        prefix_len(b.drop_first()) + 1
    }
}

/// The number a varint's bytes stand for: seven bits per byte, lowest first.
pub open spec fn varint_value(b: Seq<u8>) -> nat
    decreases b.len(),
{
    if b.len() == 0 {
        0
    } else {
        (b[0] % 128) as nat + 128 * varint_value(b.drop_first())
    }
}

/// The shortest varint for `v`.
pub open spec fn varint_encoding(v: nat) -> Seq<u8>
    decreases v,
{
    if v < 128 {
        seq![v as u8]
    } else {
        seq![(v % 128 + 128) as u8] + varint_encoding(v / 128)
    }
}

/// `128` to the power `k`.
pub open spec fn pow128(k: nat) -> nat
    decreases k,
{
    if k == 0 {
        1
    } else {
        128 * pow128((k - 1) as nat)
    }
}

pub proof fn lemma_prefix_len_bound(b: Seq<u8>)
    ensures
        prefix_len(b) <= b.len(),
        prefix_len(b) > 0 ==> b[prefix_len(b) - 1] < 128,
        forall|i: int| 0 <= i < prefix_len(b) - 1 ==> b[i] >= 128,
    decreases b.len(),
{
    if b.len() > 0 && b[0] >= 128 {
        lemma_prefix_len_bound(b.drop_first());
        assert forall|i: int| 0 <= i < prefix_len(b) - 1 implies b[i] >= 128 by {
            if i > 0 {
                assert(b[i] == b.drop_first()[i - 1]);
            }
        }
    }
}

/// What the stream starting with `b` holds next: `None` at a clean end (no
/// complete length prefix left), else the record and the bytes it spans with
/// its prefix.
pub open spec fn next_record(b: Seq<u8>) -> Result<Option<(Seq<u8>, nat)>, FrameError> {
    let k = prefix_len(b);
    if k == 0 {
        Ok(None)
    } else if k > MAX_PREFIX_BYTES {
        Err(FrameError::PrefixTooLong)
    } else {
        let n = varint_value(b.subrange(0, k as int));
        if k + n > b.len() {
            Err(FrameError::Truncated)
        } else {
            Ok(Some((b.subrange(k as int, (k + n) as int), k + n)))
        }
    }
}

/// All records of the stream `b`, in order, or the first framing fault.
pub open spec fn split_records(b: Seq<u8>) -> Result<Seq<Seq<u8>>, FrameError>
    decreases b.len(),
{
    match next_record(b) {
        Ok(None) => Ok(Seq::empty()),
        Ok(Some((r, used))) => match split_records(b.subrange(used as int, b.len() as int)) {
            Ok(rs) => Ok(seq![r] + rs),
            Err(e) => Err(e),
        },
        Err(e) => Err(e),
    }
}

/// The stream that holds the records `rs`, each behind its shortest length prefix.
pub open spec fn framed(rs: Seq<Seq<u8>>) -> Seq<u8>
    decreases rs.len(),
{
    if rs.len() == 0 {
        Seq::empty()
    } else {
        varint_encoding(rs[0].len()) + rs[0] + framed(rs.drop_first())
    }
}

/// The records of a vector of byte vectors, as sequences.
pub open spec fn records_view(v: Seq<Vec<u8>>) -> Seq<Seq<u8>> {
    v.map_values(|r: Vec<u8>| r@)
}

/// Every length prefix of the stream `b` is the shortest for its length, and
/// the stream ends right after a record.
pub open spec fn canonical_stream(b: Seq<u8>) -> bool
    decreases b.len(),
{
    match next_record(b) {
        Ok(Some((_, used))) => {
            let k = prefix_len(b);
            &&& k == 1 || b[k - 1] != 0
            &&& 0 < used <= b.len()
            &&& canonical_stream(b.subrange(used as int, b.len() as int))
        },
        Ok(None) => b.len() == 0,
        Err(_) => true,
    }
}

proof fn lemma_pow128_positive(n: nat)
    ensures
        1 <= pow128(n),
    decreases n,
{
    if n > 0 {
        lemma_pow128_positive((n - 1) as nat);
    }
}

proof fn lemma_pow128_grows(m: nat, n: nat)
    requires
        m <= n,
    ensures
        1 <= pow128(m) <= pow128(n),
    decreases n,
{
    lemma_pow128_positive(m);
    if n > m {
        lemma_pow128_grows(m, (n - 1) as nat);
    }
}

proof fn lemma_pow128_ten()
    ensures
        pow128(10) == 0x400000000000000000,
{
    reveal_with_fuel(pow128, 11);
}

/// The shortest varint of `v` is a varint that stands for `v`, and it takes
/// at most `m` bytes when `v < 128^m`.
proof fn lemma_encoding_reads_back(v: nat, t: Seq<u8>, m: nat)
    ensures
        varint_value(varint_encoding(v)) == v,
        prefix_len(varint_encoding(v) + t) == varint_encoding(v).len(),
        (varint_encoding(v) + t).subrange(0, varint_encoding(v).len() as int) == varint_encoding(v),
        1 <= m && v < pow128(m) ==> varint_encoding(v).len() <= m,
    decreases v,
{
    let e = varint_encoding(v);
    assert((e + t).subrange(0, e.len() as int) =~= e);
    if v < 128 {
        assert(e.drop_first() =~= Seq::<u8>::empty());
        assert(varint_value(e.drop_first()) == 0);
        assert(e[0] == v as u8);
        assert((e[0] % 128) as nat == v);
        assert((e + t)[0] == e[0]);
        assert(varint_value(e) == v);
    }
    if v >= 128 {
        let q = v / 128;
        assert(v % 128 + 128 * q == v && q < v) by (nonlinear_arith)
            requires
                v >= 128,
                q == v / 128,
        ;
        lemma_encoding_reads_back(q, t, (m - 1) as nat);
        let head = seq![(v % 128 + 128) as u8];
        assert(e.drop_first() =~= varint_encoding(q));
        assert((e + t).drop_first() =~= varint_encoding(q) + t);
        assert(((v % 128 + 128) as u8) % 128 == v % 128);
        assert((e + t)[0] == e[0]);
        assert(varint_value(e) == v);
        if 1 <= m && v < pow128(m) {
            if m == 1 {
                assert(pow128(1) == 128 * pow128(0));
            } else {
                assert(pow128(m) == 128 * pow128((m - 1) as nat));
                assert(q < pow128((m - 1) as nat)) by (nonlinear_arith)
                    requires
                        v < 128 * pow128((m - 1) as nat),
                        q == v / 128,
                ;
            }
        }
    }
}

/// A shortest varint re-encodes to itself.
proof fn lemma_canonical_prefix(p: Seq<u8>)
    requires
        p.len() >= 1,
        forall|i: int| 0 <= i < p.len() - 1 ==> p[i] >= 128,
        p[p.len() - 1] < 128,
        p.len() == 1 || p[p.len() - 1] != 0,
    ensures
        varint_encoding(varint_value(p)) == p,
        p.len() > 1 ==> varint_value(p) >= 128,
    decreases p.len(),
{
    if p.len() > 1 {
        let q = p.drop_first();
        assert forall|i: int| 0 <= i < q.len() - 1 implies q[i] >= 128 by {
            assert(q[i] == p[i + 1]);
        }
        lemma_canonical_prefix(q);
        let a = (p[0] % 128) as nat;
        let vq = varint_value(q);
        let v = varint_value(p);
        assert(vq >= 1);
        assert(v == a + 128 * vq);
        assert(v >= 128 && v % 128 == a && v / 128 == vq) by (nonlinear_arith)
            requires
                v == a + 128 * vq,
                a < 128,
                vq >= 1,
        ;
        assert(varint_encoding(v) =~= p);
    } else {
        assert(varint_encoding(varint_value(p)) =~= p);
    }
}

/// Splitting the framing of some records gives back exactly those records.
pub proof fn lemma_split_framed(rs: Seq<Seq<u8>>)
    requires
        forall|i: int| 0 <= i < rs.len() ==> (#[trigger] rs[i]).len() <= usize::MAX,
    ensures
        split_records(framed(rs)) == Ok::<Seq<Seq<u8>>, FrameError>(rs),
    decreases rs.len(),
{
    if rs.len() == 0 {
        assert(prefix_len(framed(rs)) == 0);
        assert(rs =~= Seq::<Seq<u8>>::empty());
    } else {
        let r = rs[0];
        let rest = rs.drop_first();
        let e = varint_encoding(r.len());
        let b = framed(rs);
        assert(b =~= e + (r + framed(rest)));
        lemma_encoding_reads_back(r.len(), r + framed(rest), 10);
        lemma_pow128_ten();
        assert(r.len() < pow128(10));
        assert(b.subrange(e.len() as int, (e.len() + r.len()) as int) =~= r);
        assert(b.subrange((e.len() + r.len()) as int, b.len() as int) =~= framed(rest));
        assert forall|i: int| 0 <= i < rest.len() implies (#[trigger] rest[i]).len() <= usize::MAX by {
            assert(rest[i] == rs[i + 1]);
        }
        lemma_split_framed(rest);
        let k = e.len();
        assert(prefix_len(b) == k);
        assert(b.subrange(0, k as int) == e);
        assert(varint_value(b.subrange(0, k as int)) == r.len());
        assert(1 <= k <= 10);
        assert(k + r.len() <= b.len());
        assert(next_record(b) == Ok::<Option<(Seq<u8>, nat)>, FrameError>(Some((r, k + r.len()))));
        assert(seq![r] + rest =~= rs);
        assert(split_records(b) == Ok::<Seq<Seq<u8>>, FrameError>(seq![r] + rest));
    }
}

/// Re-framing the records split from a stream whose length prefixes are the
/// shortest ones, and which ends right after a record, gives back the stream.
pub proof fn lemma_reframe_split(b: Seq<u8>)
    requires
        split_records(b) is Ok,
        canonical_stream(b),
    ensures
        framed(split_records(b)->Ok_0) == b,
    decreases b.len(),
{
    match next_record(b) {
        Ok(Some((r, used))) => {
            let k = prefix_len(b);
            lemma_prefix_len_bound(b);
            let p = b.subrange(0, k as int);
            lemma_canonical_prefix(p);
            let rest = b.subrange(used as int, b.len() as int);
            lemma_reframe_split(rest);
            let rs = split_records(b)->Ok_0;
            assert(rs.drop_first() == split_records(rest)->Ok_0);
            assert(rs[0] == r);
            assert(r.len() == varint_value(p));
            assert(b =~= p + r + rest);
        },
        Ok(None) => {
            assert(b =~= Seq::<u8>::empty());
        },
        Err(_) => {},
    }
}

fn prefix_length(b: &Vec<u8>, pos: usize) -> (r: usize)
    requires
        pos <= b@.len(),
    ensures
        r == prefix_len(b@.subrange(pos as int, b@.len() as int)),
{
    let mut i: usize = pos;
    while i < b.len() && b[i] >= 128
        invariant
            pos <= i <= b@.len(),
            prefix_len(b@.subrange(pos as int, b@.len() as int)) == if prefix_len(
                b@.subrange(i as int, b@.len() as int),
            ) == 0 {
                0
            } else {
                prefix_len(b@.subrange(i as int, b@.len() as int)) + (i - pos)
            },
        decreases b@.len() - i,
    {
        assert(b@.subrange(i as int, b@.len() as int).drop_first() =~= b@.subrange(
            i + 1,
            b@.len() as int,
        ));
        i += 1;
    }
    if i == b.len() {
        0
    } else {
        i - pos + 1
    }
}

fn varint_at(b: &Vec<u8>, pos: usize, k: usize) -> (r: u128)
    requires
        1 <= k <= MAX_PREFIX_BYTES,
        pos + k <= b@.len(),
    ensures
        r == varint_value(b@.subrange(pos as int, pos + k)),
{
    let len = b.len();
    let end = pos + k;
    let mut acc: u128 = 0;
    let mut j: usize = end;
    proof {
        lemma_pow128_ten();
    }
    while j > pos
        invariant
            pos <= j <= end,
            end == pos + k,
            end <= b@.len(),
            k <= 10,
            pow128(10) == 0x400000000000000000,
            acc == varint_value(b@.subrange(j as int, end as int)),
            acc < pow128((end - j) as nat),
        decreases j - pos,
    {
        j -= 1;
        let ghost m = (end - j) as nat;
        proof {
            assert(b@.subrange(j as int, end as int).drop_first() =~= b@.subrange(j + 1, end as int));
            lemma_pow128_grows(m, 10);
            assert(pow128(m) == 128 * pow128((m - 1) as nat));
        }
        let d = (b[j] % 128) as u128;
        assert(acc * 128 + d < pow128(m)) by (nonlinear_arith)
            requires
                acc < pow128((m - 1) as nat),
                pow128(m) == 128 * pow128((m - 1) as nat),
                d < 128,
        ;
        acc = acc * 128 + d;
    }
    acc
}

/// Reads the record starting at byte `pos` of the stream: `None` at a clean
/// end, else the record and the number of bytes it spans with its prefix.
pub fn read_record(data: &Vec<u8>, pos: usize) -> (r: Result<Option<(Vec<u8>, usize)>, FrameError>)
    requires
        pos <= data@.len(),
    ensures
        match next_record(data@.subrange(pos as int, data@.len() as int)) {
            Ok(None) => r matches Ok(None),
            Ok(Some((rec, used))) => r matches Ok(Some((v, u))) && v@ == rec && u == used,
            Err(e) => r matches Err(x) && x == e,
        },
{
    let ghost rest = data@.subrange(pos as int, data@.len() as int);
    let k = prefix_length(data, pos);
    if k == 0 {
        return Ok(None);
    }
    if k > MAX_PREFIX_BYTES {
        return Err(FrameError::PrefixTooLong);
    }
    proof {
        lemma_prefix_len_bound(rest);
        assert(rest.subrange(0, k as int) =~= data@.subrange(pos as int, pos + k));
    }
    let n = varint_at(data, pos, k);
    let remaining = data.len() - pos - k;
    if n > remaining as u128 {
        return Err(FrameError::Truncated);
    }
    let n = n as usize;
    let start = pos + k;
    let end = start + n;
    let mut rec: Vec<u8> = Vec::new();
    let mut i: usize = start;
    while i < end
        invariant
            start <= i <= end <= data@.len(),
            rec@ == data@.subrange(start as int, i as int),
        decreases end - i,
    {
        rec.push(data[i]);
        i += 1;
        assert(rec@ =~= data@.subrange(start as int, i as int));
    }
    assert(rest.subrange(k as int, (k + n) as int) =~= rec@);
    Ok(Some((rec, k + n)))
}

/// Splits a decompressed stream into its records.
pub fn split_stream(data: &Vec<u8>) -> (r: Result<Vec<Vec<u8>>, FrameError>)
    ensures
        match split_records(data@) {
            Ok(rs) => r matches Ok(v) && records_view(v@) == rs,
            Err(e) => r matches Err(x) && x == e,
        },
{
    let mut out: Vec<Vec<u8>> = Vec::new();
    let mut pos: usize = 0;
    let len = data.len();
    assert(data@.subrange(0, data@.len() as int) =~= data@);
    loop
        invariant
            pos <= data@.len(),
            len == data@.len(),
            split_records(data@) == match split_records(data@.subrange(pos as int, data@.len() as int)) {
                Ok(rs) => Ok(records_view(out@) + rs),
                Err(e) => Err(e),
            },
        decreases data@.len() - pos,
    {
        let ghost rest = data@.subrange(pos as int, data@.len() as int);
        match read_record(data, pos) {
            Ok(None) => {
                assert(records_view(out@) + Seq::<Seq<u8>>::empty() =~= records_view(out@));
                return Ok(out);
            },
            Ok(Some((rec, used))) => {
                proof {
                    lemma_prefix_len_bound(rest);
                    assert(rest.subrange(used as int, rest.len() as int) =~= data@.subrange(
                        pos + used,
                        data@.len() as int,
                    ));
                }
                let ghost before = out@;
                out.push(rec);
                assert(records_view(out@) =~= records_view(before) + seq![rec@]);
                proof {
                    match split_records(data@.subrange(pos + used, data@.len() as int)) {
                        Ok(rs) => {
                            assert(records_view(before) + (seq![rec@] + rs) =~= records_view(out@)
                                + rs);
                        },
                        Err(_) => {},
                    }
                }
                pos = pos + used;
            },
            Err(e) => {
                return Err(e);
            },
        }
    }
}

/// The shortest varint for `v`.
pub fn encode_varint(v: usize) -> (r: Vec<u8>)
    ensures
        r@ == varint_encoding(v as nat),
{
    let mut out: Vec<u8> = Vec::new();
    let mut x: usize = v;
    while x >= 128
        invariant
            varint_encoding(v as nat) == out@ + varint_encoding(x as nat),
        decreases x,
    {
        let ghost before = out@;
        out.push((x % 128 + 128) as u8);
        assert(varint_encoding(x as nat) == seq![(x % 128 + 128) as u8] + varint_encoding((x / 128) as nat));
        assert(before + varint_encoding(x as nat) =~= out@ + varint_encoding((x / 128) as nat));
        x = x / 128;
    }
    out.push(x as u8);
    assert(varint_encoding(v as nat) =~= out@);
    out
}

/// The stream holding `records`, each behind its shortest length prefix.
pub fn frame_records(records: &Vec<Vec<u8>>) -> (r: Vec<u8>)
    ensures
        r@ == framed(records_view(records@)),
{
    let ghost all = records_view(records@);
    let mut out: Vec<u8> = Vec::new();
    let mut i: usize = 0;
    assert(all.subrange(0, all.len() as int) =~= all);
    while i < records.len()
        invariant
            i <= records@.len(),
            all == records_view(records@),
            framed(all) == out@ + framed(all.subrange(i as int, all.len() as int)),
        decreases records@.len() - i,
    {
        let rec = &records[i];
        let ghost tail = all.subrange(i as int, all.len() as int);
        assert(tail[0] == rec@);
        assert(tail.drop_first() =~= all.subrange(i + 1, all.len() as int));
        let ghost before = out@;
        let mut prefix = encode_varint(rec.len());
        out.append(&mut prefix);
        let mut j: usize = 0;
        while j < rec.len()
            invariant
                j <= rec@.len(),
                out@ == before + varint_encoding(rec@.len()) + rec@.subrange(0, j as int),
            decreases rec@.len() - j,
        {
            out.push(rec[j]);
            j += 1;
            assert(out@ =~= before + varint_encoding(rec@.len()) + rec@.subrange(0, j as int));
        }
        assert(rec@.subrange(0, rec@.len() as int) =~= rec@);
        assert(before + framed(tail) =~= out@ + framed(all.subrange(i + 1, all.len() as int)));
        i += 1;
    }
    assert(out@ + framed(all.subrange(all.len() as int, all.len() as int)) =~= out@);
    out
}

} // verus!
