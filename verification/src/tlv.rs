//! BER-TLV frames as EMV uses them.
//!
//! A frame is a tag of one or two bytes (two bytes exactly when the low five
//! bits of the first byte are all set), a length in the short form or in the
//! minimal long form, and that many value bytes.  Bit 6 of the first tag
//! byte marks a constructed value, whose bytes are in turn a run of frames.

use vstd::prelude::*;

verus! {

/// True when `b` opens a two-byte tag: its low five bits are all set.
pub open spec fn opens_two_byte_tag(b: u8) -> bool {
    b % 32 == 31
}

/// The first (or only) byte of the tag identifier `t`.
pub open spec fn tag_first_byte(t: u16) -> u8 {
    if t < 0x100 {
        t as u8
    } else {
        (t / 0x100) as u8
    }
}

/// True when the tag identifier `t` has an encoding this module produces:
/// one byte not opening a two-byte tag and not the forbidden `00`, or two
/// bytes whose first opens a two-byte tag.
pub open spec fn valid_tag(t: u16) -> bool {
    if t < 0x100 {
        t != 0 && !opens_two_byte_tag(t as u8)
    } else {
        opens_two_byte_tag((t / 0x100) as u8)
    }
}

/// True when the tag marks a constructed value (bit 6 of the first byte).
pub open spec fn is_constructed_tag(t: u16) -> bool {
    (tag_first_byte(t) / 32) % 2 == 1
}

/// The one or two bytes that encode the tag identifier `t`.
pub open spec fn tag_bytes(t: u16) -> Seq<u8> {
    if t < 0x100 {
        seq![t as u8]
    } else {
        seq![(t / 0x100) as u8, (t % 0x100) as u8]
    }
}

/// The minimal encoding of a value length `n` (short form below `80`,
/// else a length-of-length byte and big-endian length bytes).
pub open spec fn len_bytes(n: int) -> Seq<u8> {
    if n < 0x80 {
        seq![n as u8]
    } else if n < 0x100 {
        seq![0x81u8, n as u8]
    } else if n < 0x10000 {
        seq![0x82u8, (n / 0x100) as u8, (n % 0x100) as u8]
    } else {
        seq![0x83u8, (n / 0x10000) as u8, ((n / 0x100) % 0x100) as u8, (n % 0x100) as u8]
    }
}

/// The full frame for tag `t` and value `v`: tag, then length, then value.
pub open spec fn spec_encode_tlv(t: u16, v: Seq<u8>) -> Seq<u8> {
    tag_bytes(t) + len_bytes(v.len() as int) + v
}

/// Reads a tag identifier from the front of `b`: the identifier and how
/// many bytes it took.
pub open spec fn spec_parse_tag(b: Seq<u8>) -> Option<(u16, int)> {
    if b.len() >= 1 && b[0] != 0 && !opens_two_byte_tag(b[0]) {
        Some((b[0] as u16, 1int))
    } else if b.len() >= 2 && opens_two_byte_tag(b[0]) {
        Some((((b[0] as int) * 0x100 + b[1]) as u16, 2int))
    } else {
        None
    }
}

/// Reads a length from the front of `b`: the length and how many bytes it
/// took.  Only the minimal long forms are accepted, so that every accepted
/// frame re-encodes to itself.
pub open spec fn spec_parse_len(b: Seq<u8>) -> Option<(int, int)> {
    if b.len() >= 1 && b[0] < 0x80 {
        Some((b[0] as int, 1int))
    } else if b.len() >= 2 && b[0] == 0x81 && b[1] >= 0x80 {
        Some((b[1] as int, 2int))
    } else if b.len() >= 3 && b[0] == 0x82 && (b[1] as int) * 0x100 + b[2] >= 0x100 {
        Some(((b[1] as int) * 0x100 + b[2], 3int))
    } else if b.len() >= 4 && b[0] == 0x83 && ((b[1] as int) * 0x10000 + (b[2] as int) * 0x100
        + b[3]) >= 0x10000 {
        Some(((b[1] as int) * 0x10000 + (b[2] as int) * 0x100 + b[3], 4int))
    } else {
        None
    }
}

/// Reads one frame from the front of `b`: the tag, the value bytes, and
/// how many bytes of `b` the whole frame took.
pub open spec fn spec_parse_tlv(b: Seq<u8>) -> Option<(u16, Seq<u8>, int)> {
    match spec_parse_tag(b) {
        None => None,
        Some((t, ti)) => match spec_parse_len(b.skip(ti)) {
            None => None,
            Some((l, li)) => if b.len() >= ti + li + l {
                Some((t, b.subrange(ti + li, ti + li + l), ti + li + l))
            } else {
                None
            },
        },
    }
}

/// What a parsed frame is good for: its shape is bounded by the input and
/// its tag can be re-encoded.
pub proof fn lemma_tlv_parse_bounds(b: Seq<u8>)
    ensures
        spec_parse_tlv(b) matches Some(r) ==> {
            &&& 2 <= r.2 <= b.len()
            &&& r.1.len() <= r.2 - 2
            &&& valid_tag(r.0)
            &&& r.1.len() < 0x1000000
        },
{
    if let Some((t, ti)) = spec_parse_tag(b) {
        if ti == 2 {
            assert(t == (b[0] as int) * 0x100 + b[1]);
            assert(t >= 31 * 0x100);
            assert((t as int) / 0x100 == b[0] as int) by (nonlinear_arith)
                requires
                    t == (b[0] as int) * 0x100 + b[1],
                    0 <= b[1] < 0x100,
            ;
        }
    }
}

/// The round trip: a frame read out of `b` re-encodes, by
/// tag then length then value, to exactly the bytes it was read from.
pub proof fn lemma_tlv_round_trip(b: Seq<u8>)
    ensures
        spec_parse_tlv(b) matches Some(r) ==> spec_encode_tlv(r.0, r.1) == b.subrange(0, r.2),
{
    if let Some((t, v, n)) = spec_parse_tlv(b) {
        let (t0, ti) = spec_parse_tag(b)->Some_0;
        let (l, li) = spec_parse_len(b.skip(ti))->Some_0;
        lemma_tlv_parse_bounds(b);
        assert(tag_bytes(t) =~= b.subrange(0, ti)) by {
            if ti == 2 {
                assert(t == (b[0] as int) * 0x100 + b[1]);
                assert((t as int) / 0x100 == b[0] && (t as int) % 0x100 == b[1])
                    by (nonlinear_arith)
                    requires
                        t == (b[0] as int) * 0x100 + b[1],
                        0 <= b[1] < 0x100,
                ;
            }
        }
        assert(len_bytes(l) =~= b.subrange(ti, ti + li)) by {
            let c = b.skip(ti);
            assert(forall|j: int| 0 <= j < li ==> c[j] == b[ti + j]);
            if li == 3 {
                assert(l == (c[1] as int) * 0x100 + c[2]);
                assert(l / 0x100 == c[1] && l % 0x100 == c[2]) by (nonlinear_arith)
                    requires
                        l == (c[1] as int) * 0x100 + c[2],
                        0 <= c[2] < 0x100,
                ;
            }
            if li == 4 {
                assert(l == (c[1] as int) * 0x10000 + (c[2] as int) * 0x100 + c[3]);
                assert(l / 0x10000 == c[1] && (l / 0x100) % 0x100 == c[2] && l % 0x100 == c[3])
                    by (nonlinear_arith)
                    requires
                        l == (c[1] as int) * 0x10000 + (c[2] as int) * 0x100 + c[3],
                        0 <= c[2] < 0x100,
                        0 <= c[3] < 0x100,
                ;
            }
        }
        assert(v.len() == l);
        assert(spec_encode_tlv(t, v) =~= b.subrange(0, ti) + b.subrange(ti, ti + li) + b.subrange(
            ti + li,
            n,
        ));
        assert(b.subrange(0, ti) + b.subrange(ti, ti + li) + b.subrange(ti + li, n) =~= b.subrange(
            0,
            n,
        ));
    }
}

/// The converse round trip: an encoded frame, whatever follows it,
/// parses back to exactly the tag and value it was built from.
pub proof fn lemma_tlv_encode_parse(t: u16, v: Seq<u8>, rest: Seq<u8>)
    requires
        valid_tag(t),
        v.len() < 0x1000000,
    ensures
        spec_parse_tlv(spec_encode_tlv(t, v) + rest) == Some(
            (t, v, spec_encode_tlv(t, v).len() as int),
        ),
{
    let e = spec_encode_tlv(t, v);
    let b = e + rest;
    let tb = tag_bytes(t);
    let lb = len_bytes(v.len() as int);
    let ti = tb.len() as int;
    let li = lb.len() as int;
    assert(forall|j: int| 0 <= j < ti ==> b[j] == tb[j]);
    assert(forall|j: int| 0 <= j < li ==> b[ti + j] == lb[j]);
    assert(forall|j: int| 0 <= j < v.len() ==> b[ti + li + j] == v[j]);
    if t >= 0x100 {
        assert(b[0] == (t / 0x100) as u8 && b[1] == (t % 0x100) as u8);
        assert(((t / 0x100) as int) * 0x100 + (t % 0x100) == t);
        assert(spec_parse_tag(b) == Some((t, 2int)));
    } else {
        assert(spec_parse_tag(b) == Some((t, 1int)));
    }
    let c = b.skip(ti);
    assert(forall|j: int| 0 <= j < c.len() ==> c[j] == b[ti + j]);
    let n = v.len() as int;
    if n < 0x80 {
        assert(spec_parse_len(c) == Some((n, 1int)));
    } else if n < 0x100 {
        assert(c[0] == 0x81 && c[1] == n as u8);
        assert(spec_parse_len(c) == Some((n, 2int)));
    } else if n < 0x10000 {
        assert(c[0] == 0x82 && c[1] == (n / 0x100) as u8 && c[2] == (n % 0x100) as u8);
        assert(((n / 0x100) as int) * 0x100 + (n % 0x100) == n);
        assert(spec_parse_len(c) == Some((n, 3int)));
    } else {
        assert(c[0] == 0x83 && c[1] == (n / 0x10000) as u8 && c[2] == ((n / 0x100) % 0x100) as u8
            && c[3] == (n % 0x100) as u8);
        assert(((n / 0x10000) as int) * 0x10000 + ((n / 0x100) % 0x100) * 0x100 + (n % 0x100)
            == n) by {
            assert(n / 0x10000 == (n / 0x100) / 0x100);
            assert((n / 0x100) == ((n / 0x100) / 0x100) * 0x100 + (n / 0x100) % 0x100);
            assert(n == (n / 0x100) * 0x100 + n % 0x100);
            assert(((n / 0x100) / 0x100) * 0x100 * 0x100 == ((n / 0x100) / 0x100) * 0x10000)
                by (nonlinear_arith);
            assert((((n / 0x100) / 0x100) * 0x100 + (n / 0x100) % 0x100) * 0x100 == ((n / 0x100)
                / 0x100) * 0x100 * 0x100 + ((n / 0x100) % 0x100) * 0x100) by (nonlinear_arith);
        }
        assert(spec_parse_len(c) == Some((n, 4int)));
    }
    assert(b.len() >= ti + li + n);
    assert(b.subrange(ti + li, ti + li + n) =~= v);
}

/// A fresh vector holding the bytes of `b` from `i` up to `j`.
pub fn copy_range(b: &[u8], i: usize, j: usize) -> (r: Vec<u8>)
    requires
        i <= j <= b@.len(),
    ensures
        r@ == b@.subrange(i as int, j as int),
{
    let mut out: Vec<u8> = Vec::new();
    let mut k = i;
    while k < j
        invariant
            i <= k <= j <= b@.len(),
            out@ =~= b@.subrange(i as int, k as int),
        decreases j - k,
    {
        out.push(b[k]);
        proof {
            assert(out@ =~= b@.subrange(i as int, k + 1));
        }
        k = k + 1;
    }
    out
}

/// Reads the frame starting at position `off` of `buf`: the tag
/// identifier, the value bytes, and how many bytes the frame spans.
/// `None` when no well-formed frame starts there.
#[verifier::rlimit(60)]
pub fn parse_tlv_at(buf: &[u8], off: usize) -> (r: Option<(u16, Vec<u8>, usize)>)
    requires
        off <= buf@.len(),
    ensures
        r is Some <==> spec_parse_tlv(buf@.skip(off as int)) is Some,
        r matches Some(p) ==> spec_parse_tlv(buf@.skip(off as int)) == Some((
            p.0,
            p.1@,
            p.2 as int,
        )),
{
    let ghost s = buf@.skip(off as int);
    proof {
        assert(forall|j: int| 0 <= j < s.len() ==> s[j] == buf@[off + j]);
    }
    if buf.len() - off < 2 {
        return None;
    }
    let b0 = buf[off];
    let (tag, ti): (u16, usize) = if b0 % 32 == 31 {
        ((b0 as u16) * 0x100 + (buf[off + 1] as u16), 2)
    } else if b0 != 0 {
        (b0 as u16, 1)
    } else {
        return None;
    };
    if buf.len() - off < ti + 1 {
        return None;
    }
    let l0 = buf[off + ti];
    let (len, li): (usize, usize) = if l0 < 0x80 {
        (l0 as usize, 1)
    } else if l0 == 0x81 {
        if buf.len() - off < ti + 2 || buf[off + ti + 1] < 0x80 {
            return None;
        }
        (buf[off + ti + 1] as usize, 2)
    } else if l0 == 0x82 {
        if buf.len() - off < ti + 3 {
            return None;
        }
        let l = (buf[off + ti + 1] as usize) * 0x100 + (buf[off + ti + 2] as usize);
        if l < 0x100 {
            return None;
        }
        (l, 3)
    } else if l0 == 0x83 {
        if buf.len() - off < ti + 4 {
            return None;
        }
        let l = (buf[off + ti + 1] as usize) * 0x10000 + (buf[off + ti + 2] as usize) * 0x100 + (
        buf[off + ti + 3] as usize);
        if l < 0x10000 {
            return None;
        }
        (l, 4)
    } else {
        return None;
    };
    if buf.len() - off - ti - li < len {
        return None;
    }
    let value = copy_range(buf, off + ti + li, off + ti + li + len);
    proof {
        assert(value@ =~= s.subrange(ti + li, ti + li + len));
    }
    Some((tag, value, ti + li + len))
}

/// Reads the first frame of `buf`.
pub fn parse_tlv(buf: &[u8]) -> (r: Option<(u16, Vec<u8>, usize)>)
    ensures
        r is Some <==> spec_parse_tlv(buf@) is Some,
        r matches Some(p) ==> spec_parse_tlv(buf@) == Some((p.0, p.1@, p.2 as int)),
{
    proof {
        assert(buf@.skip(0) =~= buf@);
    }
    parse_tlv_at(buf, 0)
}

/// True when `b` is exactly a run of well-formed frames with nothing
/// left over.
pub open spec fn spec_all_frames(b: Seq<u8>) -> bool
    decreases b.len(),
    via spec_all_frames_decreases
{
    if b.len() == 0 {
        true
    } else {
        match spec_parse_tlv(b) {
            None => false,
            Some((t, v, n)) => spec_all_frames(b.skip(n)),
        }
    }
}

#[via_fn]
proof fn spec_all_frames_decreases(b: Seq<u8>) {
    lemma_tlv_parse_bounds(b);
}

/// Checks that the bytes are exactly a run of well-formed frames.
pub fn all_frames(buf: &[u8]) -> (r: bool)
    ensures
        r == spec_all_frames(buf@),
{
    let blen = buf.len();
    let mut off: usize = 0;
    proof {
        assert(buf@.skip(0) =~= buf@);
    }
    while off < blen
        invariant
            0 <= off <= blen == buf@.len(),
            spec_all_frames(buf@) == spec_all_frames(buf@.skip(off as int)),
        decreases blen - off,
    {
        proof {
            lemma_tlv_parse_bounds(buf@.skip(off as int));
        }
        match parse_tlv_at(buf, off) {
            None => {
                return false;
            },
            Some((_tag, _value, n)) => {
                proof {
                    assert(buf@.skip(off as int).skip(n as int) =~= buf@.skip(off + n));
                }
                off = off + n;
            },
        }
    }
    proof {
        assert(buf@.skip(blen as int) =~= Seq::<u8>::empty());
    }
    true
}

/// Appends all of `src` to `dst`.
pub fn append_bytes(dst: &mut Vec<u8>, src: &[u8])
    ensures
        final(dst)@ == old(dst)@ + src@,
{
    let ghost d0 = dst@;
    let mut k: usize = 0;
    while k < src.len()
        invariant
            0 <= k <= src@.len(),
            dst@ =~= d0 + src@.subrange(0, k as int),
        decreases src@.len() - k,
    {
        dst.push(src[k]);
        proof {
            assert(dst@ =~= d0 + src@.subrange(0, k + 1));
        }
        k = k + 1;
    }
    proof {
        assert(src@.subrange(0, src@.len() as int) =~= src@);
    }
}

/// A fresh copy of the byte vector `v`.
pub fn clone_bytes(v: &Vec<u8>) -> (r: Vec<u8>)
    ensures
        r@ == v@,
{
    let r = copy_range(v.as_slice(), 0, v.len());
    proof {
        assert(v@.subrange(0, v@.len() as int) =~= v@);
    }
    r
}

/// Whether an already-parsed tag identifier marks a constructed value.
pub fn tag_is_constructed(tag: u16) -> (r: bool)
    ensures
        r == is_constructed_tag(tag),
{
    let first: u16 = if tag < 0x100 {
        tag
    } else {
        tag / 0x100
    };
    (first / 32) % 2 == 1
}

/// Writes the frame for tag `t` and value `v`: tag, then minimal length,
/// then the value bytes.
pub fn encode_tlv(t: u16, v: &[u8]) -> (r: Vec<u8>)
    requires
        valid_tag(t),
        v@.len() < 0x1000000,
    ensures
        r@ == spec_encode_tlv(t, v@),
{
    let mut out: Vec<u8> = Vec::new();
    if t < 0x100 {
        out.push(t as u8);
    } else {
        out.push((t / 0x100) as u8);
        out.push((t % 0x100) as u8);
    }
    let n = v.len();
    if n < 0x80 {
        out.push(n as u8);
    } else if n < 0x100 {
        out.push(0x81);
        out.push(n as u8);
    } else if n < 0x10000 {
        out.push(0x82);
        out.push((n / 0x100) as u8);
        out.push((n % 0x100) as u8);
    } else {
        out.push(0x83);
        out.push((n / 0x10000) as u8);
        out.push(((n / 0x100) % 0x100) as u8);
        out.push((n % 0x100) as u8);
    }
    let mut k: usize = 0;
    proof {
        assert(out@ =~= tag_bytes(t) + len_bytes(v@.len() as int));
    }
    while k < v.len()
        invariant
            0 <= k <= v@.len(),
            out@ =~= tag_bytes(t) + len_bytes(v@.len() as int) + v@.subrange(0, k as int),
        decreases v@.len() - k,
    {
        out.push(v[k]);
        proof {
            assert(out@ =~= tag_bytes(t) + len_bytes(v@.len() as int) + v@.subrange(0, k + 1));
        }
        k = k + 1;
    }
    proof {
        assert(v@.subrange(0, v@.len() as int) =~= v@);
    }
    out
}

} // verus!
