//! The per-session tag store: uppercase-hex EMV tags, held here as their
//! one- or two-byte identifiers, mapped to raw value bytes.
//!
//! Keys are unique; a duplicate write overwrites.  The identifier `80` is
//! never stored: it is the primitive container tag of non-TLV responses.

use vstd::prelude::*;

use crate::tlv::is_constructed_tag;
use crate::tlv::spec_parse_tlv;
use crate::tlv::lemma_tlv_parse_bounds;
use crate::tlv::parse_tlv_at;
use crate::tlv::tag_is_constructed;

verus! {

/// One stored tag: its identifier and its raw value bytes.
pub struct TagEntry {
    pub tag: u16,
    pub value: Vec<u8>,
}

/// The tag store.  Its view is the map from tag identifier to value bytes.
pub struct TagStore {
    entries: Vec<TagEntry>,
}

/// What a write leaves in the store: the identifier `80` is dropped, any
/// other tag is bound to `v`, overwriting a previous binding.
pub open spec fn spec_put(m: Map<u16, Seq<u8>>, t: u16, v: Seq<u8>) -> Map<u16, Seq<u8>> {
    if t == 0x80 {
        m
    } else {
        m.insert(t, v)
    }
}

/// The store after absorbing the byte string `b`: frames are read from the
/// front as long as they are well formed; a primitive frame is written, a
/// constructed frame is absorbed recursively.
pub open spec fn tlv_put_all(m: Map<u16, Seq<u8>>, b: Seq<u8>) -> Map<u16, Seq<u8>>
    decreases b.len(), 1int,
    via tlv_put_all_decreases
{
    match spec_parse_tlv(b) {
        None => m,
        Some((t, v, n)) => tlv_put_all(tlv_put_node(m, t, v), b.skip(n)),
    }
}

/// One frame's effect on the store.
pub open spec fn tlv_put_node(m: Map<u16, Seq<u8>>, t: u16, v: Seq<u8>) -> Map<u16, Seq<u8>>
    decreases v.len(), 2int,
{
    if is_constructed_tag(t) {
        tlv_put_all(m, v)
    } else {
        spec_put(m, t, v)
    }
}

#[via_fn]
proof fn tlv_put_all_decreases(m: Map<u16, Seq<u8>>, b: Seq<u8>) {
    lemma_tlv_parse_bounds(b);
}

impl View for TagStore {
    type V = Map<u16, Seq<u8>>;

    closed spec fn view(&self) -> Map<u16, Seq<u8>> {
        Map::new(
            |t: u16| exists|i: int| 0 <= i < self.entries@.len() && self.entries@[i].tag == t,
            |t: u16|
                {
                    let i = choose|i: int|
                        0 <= i < self.entries@.len() && self.entries@[i].tag == t;
                    self.entries@[i].value@
                },
        )
    }
}

impl TagStore {
    /// Keys are unique, so each tag denotes one value.
    pub closed spec fn wf(&self) -> bool {
        forall|i: int, j: int|
            0 <= i < j < self.entries@.len() ==> self.entries@[i].tag != self.entries@[j].tag
    }

    /// The entry at `i` is what the view binds its tag to.
    proof fn lemma_entry_in_view(&self, i: int)
        requires
            self.wf(),
            0 <= i < self.entries@.len(),
        ensures
            self@.contains_key(self.entries@[i].tag),
            self@[self.entries@[i].tag] == self.entries@[i].value@,
    {
        let t = self.entries@[i].tag;
        let j = choose|j: int| 0 <= j < self.entries@.len() && self.entries@[j].tag == t;
        assert(0 <= j < self.entries@.len() && self.entries@[j].tag == t);
        assert(j == i);
    }

    /// An empty store.
    pub fn new() -> (r: TagStore)
        ensures
            r.wf(),
            r@ == Map::<u16, Seq<u8>>::empty(),
    {
        let r = TagStore { entries: Vec::new() };
        proof {
            assert(r@ =~= Map::<u16, Seq<u8>>::empty());
        }
        r
    }

    /// Forgets everything; run at the start of every SELECT.
    pub fn clear(&mut self)
        ensures
            final(self).wf(),
            final(self)@ == Map::<u16, Seq<u8>>::empty(),
    {
        self.entries = Vec::new();
        proof {
            assert(self@ =~= Map::<u16, Seq<u8>>::empty());
        }
    }

    /// The value stored under `tag`, if any.
    pub fn get(&self, tag: u16) -> (r: Option<&Vec<u8>>)
        requires
            self.wf(),
        ensures
            r is Some <==> self@.contains_key(tag),
            r matches Some(v) ==> v@ == self@[tag],
    {
        let n = self.entries.len();
        let mut i: usize = 0;
        while i < n
            invariant
                self.wf(),
                0 <= i <= n == self.entries@.len(),
                forall|j: int| 0 <= j < i ==> self.entries@[j].tag != tag,
            decreases n - i,
        {
            if self.entries[i].tag == tag {
                proof {
                    self.lemma_entry_in_view(i as int);
                }
                return Some(&self.entries[i].value);
            }
            i = i + 1;
        }
        None
    }

    /// Binds `tag` to `value`, overwriting a previous binding; a write
    /// under the identifier `80` is dropped.
    pub fn put(&mut self, tag: u16, value: Vec<u8>)
        requires
            old(self).wf(),
        ensures
            final(self).wf(),
            final(self)@ == spec_put(old(self)@, tag, value@),
    {
        if tag == 0x80 {
            return;
        }
        let ghost gvalue = value@;
        let n = self.entries.len();
        let mut i: usize = 0;
        while i < n
            invariant
                self.wf(),
                self.entries@ == old(self).entries@,
                value@ == gvalue,
                tag != 0x80,
                0 <= i <= n == self.entries@.len(),
                forall|j: int| 0 <= j < i ==> self.entries@[j].tag != tag,
            decreases n - i,
        {
            if self.entries[i].tag == tag {
                self.entries[i] = TagEntry { tag, value };
                proof {
                    let pre = old(self).entries@;
                    let post = self.entries@;
                    assert(post.len() == pre.len());
                    assert(forall|k: int| 0 <= k < pre.len() && k != i ==> post[k] == pre[k]);
                    assert(post[i as int].tag == tag && post[i as int].value@ == gvalue);
                    assert(self.wf()) by {
                        assert(forall|k: int| 0 <= k < post.len() ==> post[k].tag == pre[k].tag);
                    }
                    let target = spec_put(old(self)@, tag, gvalue);
                    assert forall|t2: u16| self@.contains_key(t2) implies target.contains_key(t2)
                        && self@[t2] == target[t2] by {
                        assert(exists|j: int|
                            0 <= j < self.entries@.len() && self.entries@[j].tag == t2);
                        let k = choose|k: int|
                            0 <= k < self.entries@.len() && self.entries@[k].tag == t2;
                        assert(0 <= k < post.len() && post[k].tag == t2);
                        self.lemma_entry_in_view(k);
                        assert(self@[t2] == post[k].value@);
                        if k != i {
                            assert(pre[k].tag == t2);
                            old(self).lemma_entry_in_view(k);
                            assert(pre[k].tag != tag);
                            assert(target.contains_key(t2));
                            assert(target[t2] == old(self)@[t2]);
                        } else {
                            assert(t2 == tag);
                            assert(target[t2] == gvalue);
                        }
                    }
                    assert forall|t2: u16| target.contains_key(t2) implies
                        self@.contains_key(t2) by {
                        if t2 == tag {
                            assert(post[i as int].tag == t2);
                        } else {
                            let k = choose|k: int| 0 <= k < pre.len() && pre[k].tag == t2;
                            assert(k != i);
                            assert(post[k].tag == t2);
                        }
                    }
                    assert(self@ =~= target);
                }
                return;
            }
            i = i + 1;
        }
        self.entries.push(TagEntry { tag, value });
        proof {
            let pre = old(self).entries@;
            let post = self.entries@;
            let m = post.len() - 1;
            assert(post[m].tag == tag && post[m].value@ == gvalue);
            assert(forall|k: int| 0 <= k < pre.len() ==> post[k] == pre[k]);
            let target = spec_put(old(self)@, tag, gvalue);
            assert forall|t2: u16| self@.contains_key(t2) implies target.contains_key(t2)
                && self@[t2] == target[t2] by {
                let k = choose|k: int| 0 <= k < post.len() && post[k].tag == t2;
                self.lemma_entry_in_view(k);
                if k != m {
                    assert(pre[k].tag == t2);
                    assert(t2 != tag);
                    old(self).lemma_entry_in_view(k);
                }
            }
            assert forall|t2: u16| target.contains_key(t2) implies self@.contains_key(t2) by {
                if t2 == tag {
                    assert(post[m].tag == t2);
                } else {
                    let k = choose|k: int| 0 <= k < pre.len() && pre[k].tag == t2;
                    assert(post[k].tag == t2);
                }
            }
            assert(self@ =~= target);
        }
    }

    /// All stored pairs: every binding of the store, each tag once.
    pub fn pairs(&self) -> (r: Vec<(u16, Vec<u8>)>)
        requires
            self.wf(),
        ensures
            forall|j: int| 0 <= j < r@.len() ==> #[trigger] self@.contains_key(r@[j].0)
                && self@[r@[j].0] == r@[j].1@,
            forall|i: int, j: int| 0 <= i < j < r@.len() ==> r@[i].0 != r@[j].0,
            forall|t: u16| self@.contains_key(t) ==> exists|j: int|
                0 <= j < r@.len() && (#[trigger] r@[j]).0 == t,
    {
        let n = self.entries.len();
        let mut out: Vec<(u16, Vec<u8>)> = Vec::new();
        let mut i: usize = 0;
        while i < n
            invariant
                self.wf(),
                0 <= i <= n == self.entries@.len(),
                out@.len() == i,
                forall|j: int| 0 <= j < i ==> (#[trigger] out@[j]).0 == self.entries@[j].tag
                    && out@[j].1@ == self.entries@[j].value@,
            decreases n - i,
        {
            out.push((self.entries[i].tag, crate::tlv::clone_bytes(&self.entries[i].value)));
            i = i + 1;
        }
        proof {
            assert forall|j: int| 0 <= j < out@.len() implies #[trigger] self@.contains_key(
                out@[j].0,
            ) && self@[out@[j].0] == out@[j].1@ by {
                self.lemma_entry_in_view(j);
            }
            assert forall|t: u16| self@.contains_key(t) implies exists|j: int|
                0 <= j < out@.len() && (#[trigger] out@[j]).0 == t by {
                let k = choose|k: int|
                    0 <= k < self.entries@.len() && self.entries@[k].tag == t;
                assert(out@[k].0 == t);
            }
        }
        out
    }

    /// Absorbs a response byte string: primitive frames are stored (the
    /// identifier `80` excepted), constructed frames are walked into, and
    /// reading stops at the first malformed frame.
    pub fn absorb_tlv(&mut self, buf: &[u8])
        requires
            old(self).wf(),
        ensures
            final(self).wf(),
            final(self)@ == tlv_put_all(old(self)@, buf@),
        decreases buf@.len(),
    {
        let ghost m0 = self@;
        let blen = buf.len();
        let mut off: usize = 0;
        proof {
            assert(buf@.skip(0) =~= buf@);
        }
        while off < blen
            invariant_except_break
                self.wf(),
                0 <= off <= blen == buf@.len(),
                tlv_put_all(m0, buf@) == tlv_put_all(self@, buf@.skip(off as int)),
            ensures
                self.wf(),
                tlv_put_all(m0, buf@) == self@,
            decreases blen - off,
        {
            let ghost s_pre = self@;
            let ghost off_pre = off as int;
            proof {
                lemma_tlv_parse_bounds(buf@.skip(off_pre));
            }
            match parse_tlv_at(buf, off) {
                None => {
                    break ;
                },
                Some((tag, value, n)) => {
                    let ghost v = value@;
                    if tag_is_constructed(tag) {
                        self.absorb_tlv(value.as_slice());
                    } else {
                        self.put(tag, value);
                    }
                    proof {
                        assert(self@ == tlv_put_node(s_pre, tag, v));
                        assert(buf@.skip(off_pre).skip(n as int) =~= buf@.skip(off_pre + n));
                        assert(tlv_put_all(s_pre, buf@.skip(off_pre)) == tlv_put_all(
                            self@,
                            buf@.skip(off_pre + n),
                        ));
                    }
                    off = off + n;
                },
            }
        }
    }

    /// Once the identifier `80` is absent it stays absent: no sequence of
    /// absorbed response bytes ever binds it.
    pub proof fn lemma_tag_80_never_stored(m: Map<u16, Seq<u8>>, b: Seq<u8>)
        requires
            !m.contains_key(0x80),
        ensures
            !tlv_put_all(m, b).contains_key(0x80),
        decreases b.len(), 1int,
    {
        lemma_tlv_parse_bounds(b);
        if let Some((t, v, n)) = spec_parse_tlv(b) {
            Self::lemma_tag_80_never_stored_node(m, t, v);
            Self::lemma_tag_80_never_stored(tlv_put_node(m, t, v), b.skip(n));
        }
    }

    /// Absorbing response bytes never removes a stored tag.
    pub proof fn lemma_tlv_put_all_preserves(m: Map<u16, Seq<u8>>, b: Seq<u8>, t: u16)
        requires
            m.contains_key(t),
        ensures
            tlv_put_all(m, b).contains_key(t),
        decreases b.len(), 1int,
    {
        lemma_tlv_parse_bounds(b);
        if let Some((t2, v, n)) = spec_parse_tlv(b) {
            Self::lemma_tlv_put_node_preserves(m, t2, v, t);
            Self::lemma_tlv_put_all_preserves(tlv_put_node(m, t2, v), b.skip(n), t);
        }
    }

    /// One frame's effect never removes a stored tag.
    proof fn lemma_tlv_put_node_preserves(m: Map<u16, Seq<u8>>, t2: u16, v: Seq<u8>, t: u16)
        requires
            m.contains_key(t),
        ensures
            tlv_put_node(m, t2, v).contains_key(t),
        decreases v.len(), 2int,
    {
        if is_constructed_tag(t2) {
            Self::lemma_tlv_put_all_preserves(m, v, t);
        }
    }

    /// One frame's effect never binds the identifier `80`.
    proof fn lemma_tag_80_never_stored_node(m: Map<u16, Seq<u8>>, t: u16, v: Seq<u8>)
        requires
            !m.contains_key(0x80),
        ensures
            !tlv_put_node(m, t, v).contains_key(0x80),
        decreases v.len(), 2int,
    {
        if is_constructed_tag(t) {
            Self::lemma_tag_80_never_stored(m, v);
        }
    }
}

} // verus!
