//! The tag-list expander.
//!
//! A data object list (CDOL, DDOL, the static-data tag list `9F4A`) is a
//! run of entries, each a tag of one or two bytes (two exactly when the low
//! five bits of the first byte are all set) followed by one expected-length
//! byte.  Expansion concatenates, in list order, the stored value of each
//! listed tag; it fails when a tag is missing or its stored value has a
//! different length.  A list of exactly one byte is the single-tag
//! shorthand: that tag's value, whatever its length.

use vstd::prelude::*;

use crate::store::TagStore;
use crate::tlv::opens_two_byte_tag;
use crate::tlv::append_bytes;
use crate::tlv::clone_bytes;

verus! {

/// The (tag, expected length) entries spelled by the list bytes `l`, or
/// `None` when the list is cut short.
pub open spec fn spec_parse_dol(l: Seq<u8>) -> Option<Seq<(u16, int)>>
    decreases l.len(),
{
    if l.len() == 0 {
        Some(Seq::empty())
    } else if opens_two_byte_tag(l[0]) {
        if l.len() >= 3 {
            match spec_parse_dol(l.skip(3)) {
                Some(r) => Some(
                    seq![((((l[0] as int) * 0x100 + l[1]) as u16), l[2] as int)] + r,
                ),
                None => None,
            }
        } else {
            None
        }
    } else {
        if l.len() >= 2 {
            match spec_parse_dol(l.skip(2)) {
                Some(r) => Some(seq![((l[0] as u16), l[1] as int)] + r),
                None => None,
            }
        } else {
            None
        }
    }
}

/// The concatenation, in order, of the stored values of the listed tags;
/// `None` when a tag is absent or its value's length differs from the
/// listed one.
pub open spec fn spec_expand_dol(m: Map<u16, Seq<u8>>, es: Seq<(u16, int)>) -> Option<Seq<u8>>
    decreases es.len(),
{
    if es.len() == 0 {
        Some(Seq::empty())
    } else if m.contains_key(es[0].0) && m[es[0].0].len() == es[0].1 {
        match spec_expand_dol(m, es.skip(1)) {
            Some(r) => Some(m[es[0].0] + r),
            None => None,
        }
    } else {
        None
    }
}

/// Parsing and expansion in one walk over the list bytes.
pub open spec fn spec_expand_list(m: Map<u16, Seq<u8>>, l: Seq<u8>) -> Option<Seq<u8>>
    decreases l.len(),
{
    match spec_parse_dol(l) {
        None => None,
        Some(es) => spec_expand_dol(m, es),
    }
}

/// The sum of the listed expected lengths.
pub open spec fn dol_sum(es: Seq<(u16, int)>) -> int
    decreases es.len(),
{
    if es.len() == 0 {
        0
    } else {
        es[0].1 + dol_sum(es.skip(1))
    }
}

/// Walking the list and expanding it agree with parsing it first and then
/// expanding the entries.
pub proof fn lemma_expand_list_is_expand_dol(m: Map<u16, Seq<u8>>, l: Seq<u8>)
    ensures
        spec_parse_dol(l) is None ==> spec_expand_list(m, l) is None,
        spec_parse_dol(l) matches Some(es) ==> spec_expand_list(m, l) == spec_expand_dol(m, es),
{
}

/// How one entry at the front of a list shapes the whole expansion.
proof fn lemma_expand_list_step(m: Map<u16, Seq<u8>>, l: Seq<u8>)
    requires
        l.len() >= 1,
    ensures
        ({
            let two = opens_two_byte_tag(l[0]);
            let step: int = if two {
                3int
            } else {
                2int
            };
            let t: u16 = if two {
                ((l[0] as int) * 0x100 + l[1]) as u16
            } else {
                l[0] as u16
            };
            &&& l.len() < step ==> spec_expand_list(m, l) is None
            &&& l.len() >= step && !(m.contains_key(t) && m[t].len() == l[step - 1])
                ==> spec_expand_list(m, l) is None
            &&& l.len() >= step && m.contains_key(t) && m[t].len() == l[step - 1]
                ==> spec_expand_list(m, l) == (match spec_expand_list(m, l.skip(step)) {
                Some(r) => Some(m[t] + r),
                None => None,
            })
        }),
{
    let two = opens_two_byte_tag(l[0]);
    let step: int = if two {
        3int
    } else {
        2int
    };
    let t: u16 = if two {
        ((l[0] as int) * 0x100 + l[1]) as u16
    } else {
        l[0] as u16
    };
    if l.len() >= step {
        let w = l[step - 1] as int;
        if let Some(r) = spec_parse_dol(l.skip(step)) {
            let es = spec_parse_dol(l)->Some_0;
            assert(es == seq![(t, w)] + r);
            assert(es[0] == (t, w));
            assert(es.skip(1) =~= r);
        }
    }
}

/// The expander law: when every listed tag is present with the listed
/// length, expansion succeeds, its length is the sum of the listed
/// lengths, and the value of the `i`-th listed tag stands at the offset
/// that the lengths before it add up to — the output keeps list order.
pub proof fn lemma_dol_expansion(m: Map<u16, Seq<u8>>, es: Seq<(u16, int)>)
    requires
        forall|i: int| 0 <= i < es.len() ==> #[trigger] m.contains_key(es[i].0)
            && m[es[i].0].len() == es[i].1,
    ensures
        spec_expand_dol(m, es) is Some,
        spec_expand_dol(m, es)->Some_0.len() == dol_sum(es),
        forall|i: int| 0 <= i < es.len() ==> #[trigger] spec_expand_dol(m, es)->Some_0.subrange(
            dol_sum(es.take(i)),
            dol_sum(es.take(i)) + es[i].1,
        ) == m[es[i].0],
    decreases es.len(),
{
    if es.len() > 0 {
        assert(m.contains_key(es[0].0));
        assert(m[es[0].0].len() == es[0].1);
        assert forall|j: int|
            0 <= j < es.skip(1).len() implies #[trigger] m.contains_key(es.skip(1)[j].0)
            && m[es.skip(1)[j].0].len() == es.skip(1)[j].1 by {
            assert(es.skip(1)[j] == es[j + 1]);
            assert(m.contains_key(es[j + 1].0));
        }
        lemma_dol_expansion(m, es.skip(1));
        let v0 = m[es[0].0];
        let rest = spec_expand_dol(m, es.skip(1))->Some_0;
        let out = spec_expand_dol(m, es)->Some_0;
        assert(out == v0 + rest);
        assert forall|i: int| 0 <= i < es.len() implies #[trigger] out.subrange(
            dol_sum(es.take(i)),
            dol_sum(es.take(i)) + es[i].1,
        ) == m[es[i].0] by {
            if i == 0 {
                assert(es.take(0) =~= Seq::<(u16, int)>::empty());
                assert(out.subrange(0, v0.len() as int) =~= v0);
            } else {
                assert(es.take(i).skip(1) =~= es.skip(1).take(i - 1));
                assert(dol_sum(es.take(i)) == es[0].1 + dol_sum(es.skip(1).take(i - 1)));
                let off = dol_sum(es.skip(1).take(i - 1));
                assert(es.skip(1)[i - 1] == es[i]);
                lemma_dol_sum_take_bounds(m, es.skip(1), i - 1);
                assert(m.contains_key(es[i].0));
                assert(0 <= es[i].1);
                assert(0 <= off && off + es[i].1 <= rest.len());
                assert(rest.subrange(off, off + es[i].1) == m[es[i].0]);
                lemma_concat_subrange_right(v0, rest, off, off + es[i].1);
            }
        }
    }
}

/// The right part of a concatenation keeps its subranges.
proof fn lemma_concat_subrange_right(a: Seq<u8>, b: Seq<u8>, i: int, j: int)
    requires
        0 <= i <= j <= b.len(),
    ensures
        (a + b).subrange(a.len() + i, a.len() + j) == b.subrange(i, j),
{
    assert forall|k: int| 0 <= k < j - i implies #[trigger] (a + b).subrange(
        a.len() + i,
        a.len() + j,
    )[k] == b.subrange(i, j)[k] by {
        assert((a + b).subrange(a.len() + i, a.len() + j)[k] == (a + b)[a.len() + i + k]);
        assert((a + b)[a.len() + i + k] == b[i + k]);
    }
    assert((a + b).subrange(a.len() + i, a.len() + j) =~= b.subrange(i, j));
}

/// A prefix of the listed lengths never adds up past the whole sum, and an
/// entry's slot lies inside it.
proof fn lemma_dol_sum_take_bounds(m: Map<u16, Seq<u8>>, es: Seq<(u16, int)>, i: int)
    requires
        0 <= i < es.len(),
        forall|j: int| 0 <= j < es.len() ==> #[trigger] m.contains_key(es[j].0)
            && m[es[j].0].len() == es[j].1,
    ensures
        0 <= dol_sum(es.take(i)),
        dol_sum(es.take(i)) + es[i].1 <= dol_sum(es),
    decreases es.len(),
{
    lemma_dol_sum_nonneg(m, es);
    assert(m.contains_key(es[0].0));
    assert(m[es[0].0].len() == es[0].1);
    assert forall|j: int|
        0 <= j < es.skip(1).len() implies #[trigger] m.contains_key(es.skip(1)[j].0)
        && m[es.skip(1)[j].0].len() == es.skip(1)[j].1 by {
        assert(es.skip(1)[j] == es[j + 1]);
        assert(m.contains_key(es[j + 1].0));
    }
    lemma_dol_sum_nonneg(m, es.skip(1));
    if i == 0 {
        assert(es.take(0) =~= Seq::<(u16, int)>::empty());
    } else {
        lemma_dol_sum_take_bounds(m, es.skip(1), i - 1);
        assert(es.take(i).skip(1) =~= es.skip(1).take(i - 1));
        assert(es.take(i)[0] == es[0]);
        assert(dol_sum(es.take(i)) == es[0].1 + dol_sum(es.skip(1).take(i - 1)));
        assert(es.skip(1)[i - 1] == es[i]);
    }
}

/// Listed lengths are value lengths, so every sum is nonnegative.
proof fn lemma_dol_sum_nonneg(m: Map<u16, Seq<u8>>, es: Seq<(u16, int)>)
    requires
        forall|j: int| 0 <= j < es.len() ==> #[trigger] m.contains_key(es[j].0)
            && m[es[j].0].len() == es[j].1,
    ensures
        0 <= dol_sum(es),
    decreases es.len(),
{
    if es.len() > 0 {
        assert(m.contains_key(es[0].0));
        assert(m[es[0].0].len() == es[0].1);
        assert forall|j: int|
            0 <= j < es.skip(1).len() implies #[trigger] m.contains_key(es.skip(1)[j].0)
            && m[es.skip(1)[j].0].len() == es.skip(1)[j].1 by {
            assert(es.skip(1)[j] == es[j + 1]);
            assert(m.contains_key(es[j + 1].0));
        }
        lemma_dol_sum_nonneg(m, es.skip(1));
    }
}

/// What expanding the list `l` against the store `m` yields, the
/// one-byte single-tag shorthand included.
pub open spec fn spec_list_expansion(m: Map<u16, Seq<u8>>, l: Seq<u8>) -> Option<Seq<u8>> {
    if l.len() == 1 {
        if m.contains_key(l[0] as u16) {
            Some(m[l[0] as u16])
        } else {
            None
        }
    } else {
        spec_expand_list(m, l)
    }
}

/// Expands the tag list `tag_list` against the store: the concatenation,
/// in list order, of each listed tag's stored value.  A one-byte list
/// names a single tag whose stored value is returned whole.
pub fn expand_tag_list(store: &TagStore, tag_list: &[u8]) -> (r: Result<Vec<u8>, ()>)
    requires
        store.wf(),
    ensures
        r is Ok <==> spec_list_expansion(store@, tag_list@) is Some,
        r matches Ok(v) ==> Some(v@) == spec_list_expansion(store@, tag_list@),
{
    if tag_list.len() == 1 {
        let tag = tag_list[0] as u16;
        return match store.get(tag) {
            Some(v) => Ok(clone_bytes(v)),
            None => Err(()),
        };
    }
    let mut out: Vec<u8> = Vec::new();
    let llen = tag_list.len();
    let mut i: usize = 0;
    proof {
        assert(tag_list@.skip(0) =~= tag_list@);
        if let Some(rest) = spec_expand_list(store@, tag_list@) {
            assert(Seq::<u8>::empty() + rest =~= rest);
        }
    }
    while i < llen
        invariant
            store.wf(),
            0 <= i <= llen == tag_list@.len(),
            llen != 1,
            match spec_expand_list(store@, tag_list@.skip(i as int)) {
                Some(rest) => spec_expand_list(store@, tag_list@) == Some(out@ + rest),
                None => spec_expand_list(store@, tag_list@) is None,
            },
        decreases llen - i,
    {
        let ghost pre = tag_list@.skip(i as int);
        let ghost opre = out@;
        proof {
            lemma_expand_list_step(store@, pre);
            assert(forall|j: int| 0 <= j < pre.len() ==> pre[j] == tag_list@[i + j]);
        }
        let b0 = tag_list[i];
        let (tag, step): (u16, usize) = if b0 % 32 == 31 {
            if llen - i < 3 {
                return Err(());
            }
            ((b0 as u16) * 0x100 + (tag_list[i + 1] as u16), 3)
        } else {
            if llen - i < 2 {
                return Err(());
            }
            (b0 as u16, 2)
        };
        let want = tag_list[i + step - 1] as usize;
        let value = match store.get(tag) {
            Some(v) => v,
            None => {
                return Err(());
            },
        };
        if value.len() != want {
            return Err(());
        }
        append_bytes(&mut out, value.as_slice());
        i = i + step;
        proof {
            assert(pre.skip(step as int) =~= tag_list@.skip(i as int));
            if let Some(rest) = spec_expand_list(store@, tag_list@.skip(i as int)) {
                assert(opre + (value@ + rest) =~= out@ + rest);
            }
        }
    }
    proof {
        assert(tag_list@.skip(llen as int) =~= Seq::<u8>::empty());
        assert(out@ + Seq::<u8>::empty() =~= out@);
    }
    Ok(out)
}

} // verus!
