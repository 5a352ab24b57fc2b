//! Packed-BCD codec.
//!
//! EMV carries decimal quantities (PIN digits, amounts, dates, the PAN) as
//! packed BCD: two decimal digits per byte, and in the `cn` (compressed
//! numeric) format the unused trailing nibbles are filled with `F`.

use vstd::prelude::*;

verus! {

/// True when `b` is the ASCII code of a decimal digit.
pub open spec fn is_ascii_digit(b: u8) -> bool {
    0x30 <= b <= 0x39
}

/// The digit nibble standing at position `j` of the `cn` encoding of `s`:
/// the `j`-th digit of `s`, or the `F` filler once `s` is exhausted.
pub open spec fn cn_nibble(s: Seq<u8>, j: int) -> u8 {
    if 0 <= j < s.len() {
        (s[j] - 0x30) as u8
    } else {
        0xF
    }
}

/// The `n`-byte `cn` encoding of the ASCII digit string `s`:
/// digits packed two to a byte, right-padded with `F` nibbles.
pub open spec fn ascii_to_bcd_cn_spec(s: Seq<u8>, n: int) -> Seq<u8> {
    Seq::new(n as nat, |i: int| (cn_nibble(s, 2 * i) * 16 + cn_nibble(s, 2 * i + 1)) as u8)
}

/// Decodes packed BCD back to ASCII digits.  `pad` records that an `F`
/// filler nibble has already been seen, after which only `FF` bytes may
/// follow.  `None` marks a nibble that is neither a digit nor valid filler.
pub open spec fn bcd_to_ascii_spec(b: Seq<u8>, pad: bool) -> Option<Seq<u8>>
    decreases b.len(),
{
    if b.len() == 0 {
        Some(Seq::empty())
    } else {
        let hi = b[0] / 16;
        let lo = b[0] % 16;
        if pad {
            if b[0] == 0xFF {
                bcd_to_ascii_spec(b.skip(1), true)
            } else {
                None
            }
        } else if hi <= 9 && lo <= 9 {
            match bcd_to_ascii_spec(b.skip(1), false) {
                Some(rest) => Some(seq![(0x30 + hi) as u8, (0x30 + lo) as u8] + rest),
                None => None,
            }
        } else if hi <= 9 && lo == 0xF {
            match bcd_to_ascii_spec(b.skip(1), true) {
                Some(rest) => Some(seq![(0x30 + hi) as u8] + rest),
                None => None,
            }
        } else if b[0] == 0xFF {
            bcd_to_ascii_spec(b.skip(1), true)
        } else {
            None
        }
    }
}

/// Converts packed BCD bytes to the ASCII digit string they spell,
/// stripping any trailing `F` filler nibbles.  Fails on a nibble that is
/// neither a decimal digit nor part of a well-placed filler.
pub fn bcd_to_ascii(bcd: &[u8]) -> (r: Result<Vec<u8>, ()>)
    ensures
        r is Ok <==> bcd_to_ascii_spec(bcd@, false) is Some,
        r is Ok ==> r->Ok_0@ == bcd_to_ascii_spec(bcd@, false)->Some_0,
{
    let mut out: Vec<u8> = Vec::new();
    let mut pad = false;
    let mut i: usize = 0;
    proof {
        assert(bcd@.skip(0) =~= bcd@);
        if let Some(rest) = bcd_to_ascii_spec(bcd@, false) {
            assert(Seq::<u8>::empty() + rest =~= rest);
        }
    }
    while i < bcd.len()
        invariant
            0 <= i <= bcd@.len(),
            match bcd_to_ascii_spec(bcd@.skip(i as int), pad) {
                Some(rest) => bcd_to_ascii_spec(bcd@, false) == Some(out@ + rest),
                None => bcd_to_ascii_spec(bcd@, false) is None,
            },
        decreases bcd@.len() - i,
    {
        let ghost prev = bcd@.skip(i as int);
        let ghost opre = out@;
        let b = bcd[i];
        let hi = b / 16;
        let lo = b % 16;
        proof {
            assert(prev.skip(1) =~= bcd@.skip(i + 1));
            assert(prev[0] == bcd@[i as int]);
        }
        if pad {
            if b != 0xFF {
                return Err(());
            }
        } else if hi <= 9 && lo <= 9 {
            out.push(0x30 + hi);
            out.push(0x30 + lo);
        } else if hi <= 9 && lo == 0xF {
            out.push(0x30 + hi);
            pad = true;
        } else if b == 0xFF {
            pad = true;
        } else {
            return Err(());
        }
        i = i + 1;
        proof {
            if let Some(rest) = bcd_to_ascii_spec(bcd@.skip(i as int), pad) {
                assert(opre + (out@.skip(opre.len() as int) + rest) =~= out@ + rest);
            }
        }
    }
    proof {
        assert(bcd@.skip(bcd@.len() as int) =~= Seq::<u8>::empty());
        assert(out@ + Seq::<u8>::empty() =~= out@);
    }
    Ok(out)
}

/// Packs the ASCII digit string `ascii` into `n` bytes of `cn`-format BCD,
/// right-padded with `F` nibbles.  Fails when a byte of `ascii` is not a
/// decimal digit or the digits do not fit in `n` bytes.
pub fn ascii_to_bcd_cn(ascii: &[u8], n: usize) -> (r: Result<Vec<u8>, ()>)
    ensures
        r is Ok <==> (ascii@.len() <= 2 * n && forall|j: int|
            0 <= j < ascii@.len() ==> is_ascii_digit(ascii@[j])),
        r is Ok ==> r->Ok_0@ == ascii_to_bcd_cn_spec(ascii@, n as int),
{
    let pairs = ascii.len() / 2;
    if pairs + ascii.len() % 2 > n {
        return Err(());
    }
    let mut k: usize = 0;
    while k < ascii.len()
        invariant
            0 <= k <= ascii@.len(),
            forall|j: int| 0 <= j < k ==> is_ascii_digit(ascii@[j]),
        decreases ascii@.len() - k,
    {
        let c = ascii[k];
        if c < 0x30 || c > 0x39 {
            return Err(());
        }
        k = k + 1;
    }
    let mut out: Vec<u8> = Vec::new();
    let mut i: usize = 0;
    while i < n
        invariant
            0 <= i <= n,
            ascii@.len() <= usize::MAX,
            pairs == ascii@.len() / 2,
            out@.len() == i,
            forall|j: int| 0 <= j < ascii@.len() ==> is_ascii_digit(ascii@[j]),
            forall|j: int| 0 <= j < i ==> out@[j] == ascii_to_bcd_cn_spec(ascii@, n as int)[j],
        decreases n - i,
    {
        proof {
            assert(ascii@.len() == 2 * (ascii@.len() / 2) + ascii@.len() % 2);
        }
        let hi: u8 = if i < pairs || (i == pairs && ascii.len() % 2 == 1) {
            ascii[2 * i] - 0x30
        } else {
            0xF
        };
        let lo: u8 = if i < pairs {
            ascii[2 * i + 1] - 0x30
        } else {
            0xF
        };
        out.push(hi * 16 + lo);
        i = i + 1;
    }
    proof {
        assert(out@ =~= ascii_to_bcd_cn_spec(ascii@, n as int));
    }
    Ok(out)
}

/// The `cn` round trip: packing an ASCII digit string and unpacking it
/// again yields the original string, the `F` filler stripped.
pub proof fn lemma_bcd_cn_round_trip(s: Seq<u8>, n: int)
    requires
        0 <= n,
        s.len() <= 2 * n,
        forall|j: int| 0 <= j < s.len() ==> is_ascii_digit(s[j]),
    ensures
        bcd_to_ascii_spec(ascii_to_bcd_cn_spec(s, n), false) == Some(s),
    decreases n,
{
    let b = ascii_to_bcd_cn_spec(s, n);
    if n == 0 {
        assert(s =~= Seq::<u8>::empty());
    } else if s.len() == 0 {
        lemma_bcd_cn_all_pad(s, n);
    } else if s.len() == 1 {
        assert(b[0] == (s[0] - 0x30) * 16 + 0xF);
        assert(b[0] / 16 == s[0] - 0x30 && b[0] % 16 == 0xF) by (nonlinear_arith)
            requires
                b[0] == (s[0] - 0x30) * 16 + 0xF,
                0 <= s[0] - 0x30 <= 9,
        ;
        lemma_bcd_cn_all_pad(s.skip(1), n - 1);
        assert(b.skip(1) =~= ascii_to_bcd_cn_spec(s.skip(1), n - 1));
        assert(seq![s[0]] + s.skip(1) =~= s);
    } else {
        assert(b[0] == (s[0] - 0x30) * 16 + (s[1] - 0x30));
        assert(b[0] / 16 == s[0] - 0x30 && b[0] % 16 == s[1] - 0x30) by (nonlinear_arith)
            requires
                b[0] == (s[0] - 0x30) * 16 + (s[1] - 0x30),
                0 <= s[0] - 0x30 <= 9,
                0 <= s[1] - 0x30 <= 9,
        ;
        lemma_bcd_cn_round_trip(s.skip(2), n - 1);
        assert(b.skip(1) =~= ascii_to_bcd_cn_spec(s.skip(2), n - 1)) by {
            assert forall|j: int| 0 <= j < n - 1 implies b.skip(1)[j] == ascii_to_bcd_cn_spec(
                s.skip(2),
                n - 1,
            )[j] by {
                assert(cn_nibble(s, 2 * (j + 1)) == cn_nibble(s.skip(2), 2 * j));
                assert(cn_nibble(s, 2 * (j + 1) + 1) == cn_nibble(s.skip(2), 2 * j + 1));
            }
        }
        assert(seq![s[0], s[1]] + s.skip(2) =~= s);
    }
}

/// A `cn` encoding past the digits is `FF` bytes only, and decodes to
/// nothing.
proof fn lemma_bcd_cn_all_pad(s: Seq<u8>, n: int)
    requires
        0 <= n,
        s.len() == 0,
    ensures
        bcd_to_ascii_spec(ascii_to_bcd_cn_spec(s, n), false) == Some(Seq::<u8>::empty()),
        bcd_to_ascii_spec(ascii_to_bcd_cn_spec(s, n), true) == Some(Seq::<u8>::empty()),
    decreases n,
{
    let b = ascii_to_bcd_cn_spec(s, n);
    if n > 0 {
        assert(b[0] == 0xFF);
        lemma_bcd_cn_all_pad(s, n - 1);
        assert(b.skip(1) =~= ascii_to_bcd_cn_spec(s, n - 1));
    }
}

} // verus!
