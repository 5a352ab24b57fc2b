//! The EMV transaction session: SELECT PSE, application selection, GET
//! PROCESSING OPTIONS with the AFL record walk, offline data
//! authentication, PIN verification, and GENERATE AC.  The session owns
//! the tag store and drives a caller-supplied APDU transport; every
//! response runs through the TLV absorber into the store.

use vstd::prelude::*;

use rand::Rng;
use rand::SeedableRng;

use crate::apdu::ApduTransport;
use crate::apdu::build_generate_ac_command;
use crate::apdu::build_get_challenge_command;
use crate::apdu::build_get_data_command;
use crate::apdu::build_get_response_command;
use crate::apdu::build_gpo_command;
use crate::apdu::build_internal_authenticate_command;
use crate::apdu::build_read_record_command;
use crate::apdu::build_select_command;
use crate::apdu::build_verify_enciphered_pin_command;
use crate::apdu::build_verify_plaintext_pin_command;
use crate::apdu::rebuild_with_le;
use crate::bcd::ascii_to_bcd_cn;
use crate::bcd::is_ascii_digit;
use crate::cert::is_certificate_expired;
use crate::cert::recover_issuer_public_key;
use crate::cert::recover_icc_public_key;
use crate::cert::spec_icc_cert_valid;
use crate::cert::spec_issuer_cert_valid;
use crate::cert::spec_trim_trailing_bb;
use crate::cert::today_utc;
use crate::cert::verify_dynamic_signature;
use crate::dol::expand_tag_list;
use crate::dol::spec_list_expansion;
use crate::icc::Capabilities;
use crate::icc::Icc;
use crate::icc::capabilities_from_aip;
use crate::icc::cvm_rules_from_8e;
use crate::icc::get_bit;
use crate::icc::spec_bit;
use crate::icc::spec_capabilities_from_aip;
use crate::icc::spec_cvm_rules;
use crate::icc::spec_usage_from_9f07;
use crate::icc::usage_from_9f07;
use crate::is_success_response;
use crate::rsa::CertificateAuthority;
use crate::rsa::RsaPublicKey;
use crate::rsa::get_ca_public_key;
use crate::rsa::rsa_public_decrypt_accepts;
use crate::rsa::rsa_public_decrypt_of;
use crate::rsa::spec_find_ca_key;
use crate::store::TagStore;
use crate::store::spec_put;
use crate::store::tlv_put_all;
use crate::tlv::clone_bytes;
use crate::tlv::copy_range;
use crate::tlv::parse_tlv;
use crate::tlv::parse_tlv_at;
use crate::tlv::tag_is_constructed;
use crate::tvr::TerminalVerificationResults;

verus! {

/// The terminal-side configuration.
pub struct Terminal {
    pub use_random: bool,
    pub capabilities: Capabilities,
    pub tvr: TerminalVerificationResults,
}

/// Session settings: the terminal record and the default tag values
/// written into the store before the transaction starts.
pub struct Settings {
    pub terminal: Terminal,
    pub default_tags: Vec<(u16, Vec<u8>)>,
}

/// One application found in the payment system directory.
pub struct EmvApplication {
    pub aid: Vec<u8>,
    pub label: Vec<u8>,
    pub priority: Vec<u8>,
}

/// Relies on rand_chacha's `ChaCha20Rng::from_entropy` and rand's
/// `Rng::try_fill`: `n` bytes from the operating system's entropy.
/// Nothing is promised of the values; a draw that fails leaves zeros.
#[verifier::external_body]
fn random_bytes(n: usize) -> (r: Vec<u8>)
    ensures
        r@.len() == n,
{
    let mut rng = rand_chacha::ChaCha20Rng::from_entropy();
    let mut v = vec![0u8; n];
    let _ = rng.try_fill(v.as_mut_slice());
    v
}

/// A run of `n` zero bytes.
fn zero_bytes(n: usize) -> (r: Vec<u8>)
    ensures
        r@ == Seq::new(n as nat, |i: int| 0u8),
{
    let mut out: Vec<u8> = Vec::new();
    let mut i: usize = 0;
    while i < n
        invariant
            0 <= i <= n,
            out@ =~= Seq::new(i as nat, |j: int| 0u8),
        decreases n - i,
    {
        out.push(0);
        proof {
            assert(out@ =~= Seq::new((i + 1) as nat, |j: int| 0u8));
        }
        i = i + 1;
    }
    out
}

/// Every AFL group asks for no authentication records: each group's
/// fourth byte (the count) is zero.
pub open spec fn spec_afl_counts_zero(afl: Seq<u8>) -> bool {
    forall|g: int| 0 <= g && 4 * g + 3 < afl.len() ==> #[trigger] afl[4 * g + 3] == 0
}

/// The data-authentication buffer for a list of per-record
/// contributions: their concatenation, in AFL order.
pub open spec fn concat_parts(parts: Seq<Seq<u8>>) -> Seq<u8>
    decreases parts.len(),
{
    if parts.len() == 0 {
        Seq::empty()
    } else {
        parts[0] + concat_parts(parts.skip(1))
    }
}

/// The summed length of a list of contributions.
pub open spec fn parts_len_sum(parts: Seq<Seq<u8>>) -> int
    decreases parts.len(),
{
    if parts.len() == 0 {
        0
    } else {
        parts[0].len() + parts_len_sum(parts.skip(1))
    }
}

/// The data-authentication buffer keeps AFL order: it is exactly as long
/// as its contributions together, and the `i`-th contribution stands at
/// the offset that the lengths before it add up to.
pub proof fn lemma_data_auth_order(parts: Seq<Seq<u8>>)
    ensures
        concat_parts(parts).len() == parts_len_sum(parts),
        forall|i: int| 0 <= i < parts.len() ==> #[trigger] concat_parts(parts).subrange(
            parts_len_sum(parts.take(i)),
            parts_len_sum(parts.take(i)) + parts[i].len(),
        ) == parts[i],
    decreases parts.len(),
{
    if parts.len() > 0 {
        lemma_data_auth_order(parts.skip(1));
        let v0 = parts[0];
        let rest = concat_parts(parts.skip(1));
        let out = concat_parts(parts);
        assert forall|i: int| 0 <= i < parts.len() implies #[trigger] out.subrange(
            parts_len_sum(parts.take(i)),
            parts_len_sum(parts.take(i)) + parts[i].len(),
        ) == parts[i] by {
            if i == 0 {
                assert(parts.take(0) =~= Seq::<Seq<u8>>::empty());
                assert(out.subrange(0, v0.len() as int) =~= v0);
            } else {
                assert(parts.take(i).skip(1) =~= parts.skip(1).take(i - 1));
                assert(parts.take(i)[0] == parts[0]);
                assert(parts_len_sum(parts.take(i)) == v0.len() + parts_len_sum(
                    parts.skip(1).take(i - 1),
                ));
                let off = parts_len_sum(parts.skip(1).take(i - 1));
                assert(parts.skip(1)[i - 1] == parts[i]);
                lemma_parts_len_sum_take_bounds(parts.skip(1), i - 1);
                assert(rest.subrange(off, off + parts[i].len()) == parts[i]);
                assert forall|k: int| 0 <= k < parts[i].len() implies #[trigger] out[v0.len() + off
                    + k] == rest[off + k] by {
                    assert((v0 + rest)[v0.len() + off + k] == rest[off + k]);
                }
                assert(out.subrange(v0.len() + off, v0.len() + off + parts[i].len())
                    =~= rest.subrange(off, off + parts[i].len()));
            }
        }
    }
}

/// A prefix of the contribution lengths never adds up past the whole
/// sum, and a contribution's slot lies inside it.
proof fn lemma_parts_len_sum_take_bounds(parts: Seq<Seq<u8>>, i: int)
    requires
        0 <= i < parts.len(),
    ensures
        0 <= parts_len_sum(parts.take(i)),
        parts_len_sum(parts.take(i)) + parts[i].len() <= parts_len_sum(parts),
    decreases parts.len(),
{
    lemma_parts_len_sum_nonneg(parts);
    lemma_parts_len_sum_nonneg(parts.skip(1));
    if i == 0 {
        assert(parts.take(0) =~= Seq::<Seq<u8>>::empty());
    } else {
        lemma_parts_len_sum_take_bounds(parts.skip(1), i - 1);
        assert(parts.take(i).skip(1) =~= parts.skip(1).take(i - 1));
        assert(parts.take(i)[0] == parts[0]);
        assert(parts_len_sum(parts.take(i)) == parts[0].len() + parts_len_sum(
            parts.skip(1).take(i - 1),
        ));
        assert(parts.skip(1)[i - 1] == parts[i]);
    }
}

/// Contribution lengths are lengths: every sum is nonnegative.
proof fn lemma_parts_len_sum_nonneg(parts: Seq<Seq<u8>>)
    ensures
        0 <= parts_len_sum(parts),
    decreases parts.len(),
{
    if parts.len() > 0 {
        lemma_parts_len_sum_nonneg(parts.skip(1));
    }
}

/// Swapping two AFL groups of equal contribution length but different
/// contribution bytes produces a different data-authentication buffer:
/// the order of the AFL walk is load-bearing for the hash computed over
/// the buffer.  (Two groups with the same bytes, or of unequal lengths
/// that happen to realign, can leave the buffer unchanged; those are
/// left out here.)
pub proof fn lemma_data_auth_swap(parts: Seq<Seq<u8>>, i: int, j: int)
    requires
        0 <= i < j < parts.len(),
        parts[i].len() == parts[j].len(),
        parts[i] != parts[j],
    ensures
        concat_parts(parts) != concat_parts(parts.update(i, parts[j]).update(j, parts[i])),
{
    let swapped = parts.update(i, parts[j]).update(j, parts[i]);
    lemma_data_auth_order(parts);
    lemma_data_auth_order(swapped);
    assert(swapped[i] == parts[j]);
    assert(parts.take(i) =~= swapped.take(i));
    lemma_parts_len_sum_take_bounds(parts, i);
    lemma_parts_len_sum_take_bounds(swapped, i);
    let off = parts_len_sum(parts.take(i));
    assert(concat_parts(parts).subrange(off, off + parts[i].len()) == parts[i]);
    assert(concat_parts(swapped).subrange(off, off + parts[j].len()) == parts[j]);
    if concat_parts(parts) == concat_parts(swapped) {
        assert(concat_parts(parts).subrange(off, off + parts[i].len()) == concat_parts(
            swapped,
        ).subrange(off, off + parts[j].len()));
        assert(false);
    }
}

/// The store after the configured default tags are written, in order.
pub open spec fn spec_apply_defaults(m: Map<u16, Seq<u8>>, d: Seq<(u16, Vec<u8>)>) -> Map<
    u16,
    Seq<u8>,
>
    decreases d.len(),
{
    if d.len() == 0 {
        m
    } else {
        spec_apply_defaults(spec_put(m, d[0].0, d[0].1@), d.skip(1))
    }
}

/// The `Some`-ness of an optional byte vector, viewed.
pub open spec fn opt_bytes_view(o: Option<Vec<u8>>) -> Option<Seq<u8>> {
    match o {
        Some(v) => Some(v@),
        None => None,
    }
}

/// Walks the frames of one `61` application template, tracking the last
/// primitive `4F` (AID), `50` (label) and `87` (priority) seen; `None`
/// when a frame is malformed.
pub open spec fn spec_app_fields(
    b: Seq<u8>,
    aid: Option<Seq<u8>>,
    label: Option<Seq<u8>>,
    priority: Option<Seq<u8>>,
) -> Option<(Option<Seq<u8>>, Option<Seq<u8>>, Option<Seq<u8>>)>
    decreases b.len(),
    via spec_app_fields_decreases
{
    if b.len() == 0 {
        Some((aid, label, priority))
    } else {
        match crate::tlv::spec_parse_tlv(b) {
            None => None,
            Some((t, v, n)) => {
                if !crate::tlv::is_constructed_tag(t) && t == 0x4F {
                    spec_app_fields(b.skip(n), Some(v), label, priority)
                } else if !crate::tlv::is_constructed_tag(t) && t == 0x50 {
                    spec_app_fields(b.skip(n), aid, Some(v), priority)
                } else if !crate::tlv::is_constructed_tag(t) && t == 0x87 {
                    spec_app_fields(b.skip(n), aid, label, Some(v))
                } else {
                    spec_app_fields(b.skip(n), aid, label, priority)
                }
            },
        }
    }
}

#[via_fn]
proof fn spec_app_fields_decreases(
    b: Seq<u8>,
    aid: Option<Seq<u8>>,
    label: Option<Seq<u8>>,
    priority: Option<Seq<u8>>,
) {
    crate::tlv::lemma_tlv_parse_bounds(b);
}

/// The applications a run of directory-record frames lists: each `61`
/// template must carry an AID and a label, and is listed exactly when it
/// also carries a priority.  `None` when a frame, inside or outside a
/// template, is malformed.
pub open spec fn spec_collect_apps(b: Seq<u8>) -> Option<Seq<(Seq<u8>, Seq<u8>, Seq<u8>)>>
    decreases b.len(),
    via spec_collect_apps_decreases
{
    if b.len() == 0 {
        Some(Seq::empty())
    } else {
        match crate::tlv::spec_parse_tlv(b) {
            None => None,
            Some((t, v, n)) => {
                if t == 0x61 {
                    match spec_app_fields(v, None, None, None) {
                        None => None,
                        Some((aid, label, priority)) => if aid is Some && label is Some {
                            match spec_collect_apps(b.skip(n)) {
                                None => None,
                                Some(rest) => match priority {
                                    Some(p) => Some(
                                        seq![(aid->Some_0, label->Some_0, p)] + rest,
                                    ),
                                    None => Some(rest),
                                },
                            }
                        } else {
                            None
                        },
                    }
                } else {
                    spec_collect_apps(b.skip(n))
                }
            },
        }
    }
}

#[via_fn]
proof fn spec_collect_apps_decreases(b: Seq<u8>) {
    crate::tlv::lemma_tlv_parse_bounds(b);
}

/// A list of applications, read as its field triples.
pub open spec fn apps_view(s: Seq<EmvApplication>) -> Seq<(Seq<u8>, Seq<u8>, Seq<u8>)> {
    Seq::new(s.len(), |i: int| (s[i].aid@, s[i].label@, s[i].priority@))
}

/// An EMV session over a transport `T`.
pub struct EmvConnection<T: ApduTransport> {
    pub tags: TagStore,
    pub interface: T,
    pub settings: Settings,
    pub icc: Icc,
    pub ca_data: Vec<CertificateAuthority>,
}

impl<T: ApduTransport> View for EmvConnection<T> {
    type V = Map<u16, Seq<u8>>;

    /// A session is read through its tag store.
    closed spec fn view(&self) -> Map<u16, Seq<u8>> {
        self.tags@
    }
}

impl<T: ApduTransport> EmvConnection<T> {
    /// The tag store is sound.
    pub closed spec fn wf(&self) -> bool {
        self.tags.wf()
    }

    /// A fresh session over a transport, with the given settings and CA
    /// key table.  The tag store starts empty.
    pub fn new(interface: T, settings: Settings, ca_data: Vec<CertificateAuthority>) -> (r:
        EmvConnection<T>)
        ensures
            r.wf(),
            r@ == Map::<u16, Seq<u8>>::empty(),
            r.settings == settings,
            crate::icc::spec_icc_initial(r.icc),
    {
        EmvConnection { tags: TagStore::new(), interface, settings, icc: Icc::new(), ca_data }
    }

    /// The stored value of a tag, if any.
    pub fn get_tag_value(&self, tag: u16) -> (r: Option<&Vec<u8>>)
        requires
            self.wf(),
        ensures
            r is Some <==> self@.contains_key(tag),
            r matches Some(v) ==> v@ == self@[tag],
    {
        self.tags.get(tag)
    }

    /// Binds a tag to a value; a write under the identifier `80` is
    /// dropped, any other write overwrites.
    pub fn add_tag(&mut self, tag: u16, value: Vec<u8>)
        requires
            old(self).wf(),
        ensures
            final(self).wf(),
            final(self)@ == spec_put(old(self)@, tag, value@),
            final(self).settings == old(self).settings,
            final(self).icc == old(self).icc,
            final(self).ca_data == old(self).ca_data,
    {
        self.tags.put(tag, value);
    }

    /// Absorbs a response byte string into the store: primitive frames
    /// are stored, constructed frames are walked into, reading stops at
    /// the first malformed frame.
    pub fn process_tlv(&mut self, buf: &[u8])
        requires
            old(self).wf(),
        ensures
            final(self).wf(),
            final(self)@ == tlv_put_all(old(self)@, buf@),
            final(self).settings == old(self).settings,
            final(self).icc == old(self).icc,
            final(self).ca_data == old(self).ca_data,
    {
        self.tags.absorb_tlv(buf);
    }

    /// Sends one command, following the `61 xx` (GET RESPONSE) and
    /// `6C xx` (wrong length) flows, and absorbs the assembled response
    /// into the store.  Returns the final status trailer and the
    /// response data.  Fails on a transport error, a reply without a
    /// status trailer, a `6C 00` reply, or an unreasonable run of
    /// continuation rounds; on failure the store is untouched.
    fn send_apdu(&mut self, apdu: &[u8]) -> (r: Result<(Vec<u8>, Vec<u8>), ()>)
        requires
            old(self).wf(),
            apdu@.len() >= 1,
        ensures
            final(self).wf(),
            final(self).settings == old(self).settings,
            final(self).icc == old(self).icc,
            final(self).ca_data == old(self).ca_data,
            r matches Ok(p) ==> {
                &&& p.0@.len() == 2
                &&& p.0@[0] != 0x61 && p.0@[0] != 0x6C
                &&& final(self)@ == tlv_put_all(old(self)@, p.1@)
            },
            r is Err ==> final(self)@ == old(self)@,
    {
        let mut response_data: Vec<u8> = Vec::new();
        let mut current = copy_range(apdu, 0, apdu.len());
        proof {
            assert(apdu@.subrange(0, apdu@.len() as int) =~= apdu@);
        }
        let mut rounds: usize = 0;
        while rounds < 128
            invariant
                self.wf(),
                self@ == old(self)@,
                self.settings == old(self).settings,
                self.icc == old(self).icc,
                self.ca_data == old(self).ca_data,
                apdu@.len() >= 1,
                current@.len() >= 1,
            decreases 128 - rounds,
        {
            let reply = match self.interface.send_apdu_raw(current.as_slice()) {
                Ok(v) => v,
                Err(()) => {
                    return Err(());
                },
            };
            if reply.len() < 2 {
                return Err(());
            }
            let body = copy_range(reply.as_slice(), 0, reply.len() - 2);
            crate::tlv::append_bytes(&mut response_data, body.as_slice());
            let sw1 = reply[reply.len() - 2];
            let sw2 = reply[reply.len() - 1];
            if sw1 == 0x61 {
                let le: u8 = if sw2 == 0x00 {
                    0xFF
                } else {
                    sw2
                };
                current = build_get_response_command(le);
            } else if sw1 == 0x6C {
                if sw2 == 0x00 {
                    return Err(());
                }
                current = rebuild_with_le(apdu, sw2);
            } else {
                self.tags.absorb_tlv(response_data.as_slice());
                let mut trailer: Vec<u8> = Vec::new();
                trailer.push(sw1);
                trailer.push(sw2);
                return Ok((trailer, response_data));
            }
            rounds = rounds + 1;
        }
        Err(())
    }

    /// Clears the store — every SELECT starts a fresh tag state — and
    /// sends the SELECT command for a name.
    fn send_apdu_select(&mut self, aid: &[u8]) -> (r: Result<(Vec<u8>, Vec<u8>), ()>)
        requires
            old(self).wf(),
            aid@.len() <= 255,
        ensures
            final(self).wf(),
            final(self).settings == old(self).settings,
            final(self).icc == old(self).icc,
            final(self).ca_data == old(self).ca_data,
            r matches Ok(p) ==> {
                &&& p.0@.len() == 2
                &&& final(self)@ == tlv_put_all(Map::<u16, Seq<u8>>::empty(), p.1@)
            },
            r is Err ==> final(self)@ == Map::<u16, Seq<u8>>::empty(),
    {
        self.tags.clear();
        let cmd = build_select_command(aid);
        self.send_apdu(cmd.as_slice())
    }

    /// Reads one record.  `Some` exactly when the card answered `90 00`
    /// with data; that data has then been absorbed into the store.
    fn read_record(&mut self, short_file_identifier: u8, record_index: u8) -> (r: Option<
        Vec<u8>,
    >)
        requires
            old(self).wf(),
            short_file_identifier < 32,
        ensures
            final(self).wf(),
            final(self).settings == old(self).settings,
            final(self).icc == old(self).icc,
            final(self).ca_data == old(self).ca_data,
            r matches Some(v) ==> v@.len() > 0 && final(self)@ == tlv_put_all(old(self)@, v@),
            forall|t: u16| old(self)@.contains_key(t) ==> #[trigger] final(self)@.contains_key(t),
    {
        let cmd = build_read_record_command(short_file_identifier, record_index);
        let (trailer, data) = match self.send_apdu(cmd.as_slice()) {
            Ok(p) => p,
            Err(()) => {
                return None;
            },
        };
        proof {
            assert forall|t: u16| old(self)@.contains_key(t) implies #[trigger] self@.contains_key(
                t,
            ) by {
                crate::store::TagStore::lemma_tlv_put_all_preserves(old(self)@, data@, t);
            }
        }
        if is_success_response(&trailer) && data.len() > 0 {
            Some(data)
        } else {
            None
        }
    }

    /// SELECT `1PAY.SYS.DDF01` and walk the directory records: each
    /// record is a `70` template of `61` application templates holding
    /// the AID (`4F`), the label (`50`) and, for applications worth
    /// listing, a priority (`87`).  Applications without a priority are
    /// skipped; at least one application must remain.
    pub fn handle_select_payment_system_environment(&mut self) -> (r: Result<
        Vec<EmvApplication>,
        (),
    >)
        requires
            old(self).wf(),
        ensures
            final(self).wf(),
            final(self).settings == old(self).settings,
            final(self).icc == old(self).icc,
            final(self).ca_data == old(self).ca_data,
            r matches Ok(v) ==> v@.len() > 0,
    {
        // "1PAY.SYS.DDF01" as ASCII bytes
        let mut pse_name: Vec<u8> = Vec::new();
        pse_name.push(0x31);
        pse_name.push(0x50);
        pse_name.push(0x41);
        pse_name.push(0x59);
        pse_name.push(0x2E);
        pse_name.push(0x53);
        pse_name.push(0x59);
        pse_name.push(0x53);
        pse_name.push(0x2E);
        pse_name.push(0x44);
        pse_name.push(0x44);
        pse_name.push(0x46);
        pse_name.push(0x30);
        pse_name.push(0x31);
        let (trailer, _) = match self.send_apdu_select(pse_name.as_slice()) {
            Ok(p) => p,
            Err(()) => {
                return Err(());
            },
        };
        if !is_success_response(&trailer) {
            return Err(());
        }
        let sfi_data = match self.get_tag_value(0x88) {
            Some(v) => clone_bytes(v),
            None => {
                return Err(());
            },
        };
        if sfi_data.len() != 1 {
            return Err(());
        }
        let short_file_identifier = sfi_data[0];
        if short_file_identifier >= 32 {
            return Err(());
        }
        let mut all_applications: Vec<EmvApplication> = Vec::new();
        let mut record_index: u8 = 0x01;
        while record_index < 0xFF
            invariant
                self.wf(),
                self.settings == old(self).settings,
                self.icc == old(self).icc,
                self.ca_data == old(self).ca_data,
                short_file_identifier < 32,
            decreases 0xFF - record_index,
        {
            match self.read_record(short_file_identifier, record_index) {
                Some(data) => {
                    if data[0] != 0x70 {
                        return Err(());
                    }
                    let (tag, value, _n) = match parse_tlv(data.as_slice()) {
                        Some(p) => p,
                        None => {
                            return Err(());
                        },
                    };
                    if tag == 0x70 {
                        if !self.collect_applications(value.as_slice(), &mut all_applications) {
                            return Err(());
                        }
                    }
                },
                None => {
                    break ;
                },
            }
            record_index = record_index + 1;
        }
        if all_applications.len() == 0 {
            return Err(());
        }
        Ok(all_applications)
    }

    /// Walks one `61` template's frames for the last primitive AID
    /// (`4F`), label (`50`) and priority (`87`).
    fn collect_app_fields(buf: &[u8]) -> (r: Option<
        (Option<Vec<u8>>, Option<Vec<u8>>, Option<Vec<u8>>),
    >)
        ensures
            r is Some <==> spec_app_fields(buf@, None, None, None) is Some,
            r matches Some(f) ==> spec_app_fields(buf@, None, None, None) == Some(
                (opt_bytes_view(f.0), opt_bytes_view(f.1), opt_bytes_view(f.2)),
            ),
    {
        let mut aid: Option<Vec<u8>> = None;
        let mut label: Option<Vec<u8>> = None;
        let mut priority: Option<Vec<u8>> = None;
        let blen = buf.len();
        let mut off: usize = 0;
        proof {
            assert(buf@.skip(0) =~= buf@);
        }
        while off < blen
            invariant
                0 <= off <= blen == buf@.len(),
                spec_app_fields(buf@, None, None, None) == spec_app_fields(
                    buf@.skip(off as int),
                    opt_bytes_view(aid),
                    opt_bytes_view(label),
                    opt_bytes_view(priority),
                ),
            decreases blen - off,
        {
            let ghost pre = buf@.skip(off as int);
            proof {
                crate::tlv::lemma_tlv_parse_bounds(pre);
            }
            let (t, v, n) = match parse_tlv_at(buf, off) {
                Some(p) => p,
                None => {
                    return None;
                },
            };
            if !tag_is_constructed(t) {
                if t == 0x4F {
                    aid = Some(v);
                } else if t == 0x50 {
                    label = Some(v);
                } else if t == 0x87 {
                    priority = Some(v);
                }
            }
            proof {
                assert(pre.skip(n as int) =~= buf@.skip(off + n));
            }
            off = off + n;
        }
        proof {
            assert(buf@.skip(blen as int) =~= Seq::<u8>::empty());
        }
        Some((aid, label, priority))
    }

    /// Walks the `61` application templates inside a directory record
    /// and appends the listed applications: those with an AID, a label
    /// and a priority.  False — with the walked prefix discarded by the
    /// caller — when a frame is malformed or a template misses its AID
    /// or label.
    fn collect_applications(&self, buf: &[u8], out: &mut Vec<EmvApplication>) -> (r: bool)
        ensures
            r == (spec_collect_apps(buf@) is Some),
            r ==> {
                &&& apps_view(final(out)@) == apps_view(old(out)@) + spec_collect_apps(
                    buf@,
                )->Some_0
                &&& forall|k: int|
                    0 <= k < old(out)@.len() ==> final(out)@[k] == old(out)@[k]
            },
            final(out)@.len() >= old(out)@.len(),
    {
        let ghost base = old(out)@.len() as int;
        let blen = buf.len();
        let mut off: usize = 0;
        proof {
            assert(buf@.skip(0) =~= buf@);
            assert(out@.skip(base) =~= Seq::<EmvApplication>::empty());
            assert(apps_view(Seq::<EmvApplication>::empty()) =~= Seq::<
                (Seq<u8>, Seq<u8>, Seq<u8>),
            >::empty());
            if let Some(rest) = spec_collect_apps(buf@) {
                assert(apps_view(out@.skip(base)) + rest =~= rest);
            }
        }
        while off < blen
            invariant
                0 <= off <= blen == buf@.len(),
                base == old(out)@.len(),
                out@.len() >= old(out)@.len(),
                forall|k: int| 0 <= k < old(out)@.len() ==> out@[k] == old(out)@[k],
                match spec_collect_apps(buf@.skip(off as int)) {
                    Some(rest) => spec_collect_apps(buf@) == Some(
                        apps_view(out@.skip(base)) + rest,
                    ),
                    None => spec_collect_apps(buf@) is None,
                },
            decreases blen - off,
        {
            let ghost pre = buf@.skip(off as int);
            let ghost opre = out@;
            proof {
                crate::tlv::lemma_tlv_parse_bounds(pre);
            }
            let (tag, value, n) = match parse_tlv_at(buf, off) {
                Some(p) => p,
                None => {
                    return false;
                },
            };
            proof {
                assert(pre.skip(n as int) =~= buf@.skip(off + n));
            }
            if tag == 0x61 {
                let (aid, label, priority) = match Self::collect_app_fields(value.as_slice()) {
                    Some(f) => f,
                    None => {
                        return false;
                    },
                };
                let aid = match aid {
                    Some(v) => v,
                    None => {
                        return false;
                    },
                };
                let label = match label {
                    Some(v) => v,
                    None => {
                        return false;
                    },
                };
                if let Some(priority) = priority {
                    out.push(EmvApplication { aid, label, priority });
                    proof {
                        let m = out@.len() - 1;
                        if let Some(rest) = spec_collect_apps(buf@.skip(off + n)) {
                            assert(apps_view(out@.skip(base)) =~= apps_view(opre.skip(base))
                                + seq![
                                (out@[m].aid@, out@[m].label@, out@[m].priority@),
                            ]);
                            assert(apps_view(opre.skip(base)) + (seq![
                                (out@[m].aid@, out@[m].label@, out@[m].priority@),
                            ] + rest) =~= apps_view(out@.skip(base)) + rest);
                        }
                    }
                }
                // a template without a priority is skipped
            }
            off = off + n;
        }
        proof {
            assert(buf@.skip(blen as int) =~= Seq::<u8>::empty());
            if let Some(rest) = spec_collect_apps(Seq::<u8>::empty()) {
                assert(apps_view(out@.skip(base)) + rest =~= apps_view(out@.skip(base)));
            }
            assert(apps_view(out@) =~= apps_view(old(out)@) + apps_view(out@.skip(base)));
        }
        true
    }

    /// SELECT the chosen application.  The store is cleared first, so
    /// whatever it holds afterwards was absorbed from this response:
    /// the previous application's tag state is gone.
    pub fn handle_select_payment_application(&mut self, application: &EmvApplication) -> (r:
        Result<(), ()>)
        requires
            old(self).wf(),
        ensures
            final(self).wf(),
            final(self).settings == old(self).settings,
            final(self).icc == old(self).icc,
            final(self).ca_data == old(self).ca_data,
            application.aid@.len() <= 255 ==> exists|d: Seq<u8>|
                final(self)@ == tlv_put_all(Map::<u16, Seq<u8>>::empty(), d),
    {
        if application.aid.len() > 255 {
            return Err(());
        }
        let (trailer, _) = match self.send_apdu_select(application.aid.as_slice()) {
            Ok(p) => p,
            Err(()) => {
                proof {
                    let d = Seq::<u8>::empty();
                    assert(self@ == tlv_put_all(Map::<u16, Seq<u8>>::empty(), d));
                }
                return Err(());
            },
        };
        if !is_success_response(&trailer) {
            return Err(());
        }
        Ok(())
    }

    /// `n` random bytes under the terminal's randomness policy: drawn
    /// from entropy when `use_random` is set, zeros otherwise.
    fn fill_random(&self, n: usize) -> (r: Vec<u8>)
        ensures
            r@.len() == n,
            !self.settings.terminal.use_random ==> r@ == Seq::new(n as nat, |i: int| 0u8),
    {
        if self.settings.terminal.use_random {
            random_bytes(n)
        } else {
            zero_bytes(n)
        }
    }

    /// Applies the configured default tags, then supplies what is still
    /// missing: the transaction date (tag `9A`, today as BCD `YYMMDD`)
    /// and the unpredictable number (tag `9F37`, four bytes under the
    /// randomness policy).
    pub fn process_settings(&mut self) -> (r: Result<(), ()>)
        requires
            old(self).wf(),
        ensures
            final(self).wf(),
            final(self).settings == old(self).settings,
            final(self).icc == old(self).icc,
            final(self).ca_data == old(self).ca_data,
            r is Ok ==> final(self)@.contains_key(0x9A),
            spec_apply_defaults(old(self)@, old(self).settings.default_tags@).contains_key(0x9A)
                ==> r is Ok,
            r is Ok ==> {
                let base = spec_apply_defaults(old(self)@, old(self).settings.default_tags@);
                &&& final(self)@.contains_key(0x9F37)
                &&& forall|t: u16|
                    t != 0x9A && t != 0x9F37 ==> (#[trigger] final(self)@.contains_key(t)
                        <==> base.contains_key(t)) && (base.contains_key(t) ==> final(self)@[t]
                        == base[t])
                &&& base.contains_key(0x9A) ==> final(self)@.contains_key(0x9A)
                    && final(self)@[0x9A] == base[0x9A]
                &&& base.contains_key(0x9F37) ==> final(self)@[0x9F37] == base[0x9F37]
                &&& !old(self).settings.terminal.use_random && !base.contains_key(0x9F37)
                    ==> final(self)@[0x9F37] == Seq::new(4, |k: int| 0u8)
            },
    {
        let ghost d = self.settings.default_tags@;
        let ndefaults = self.settings.default_tags.len();
        let mut i: usize = 0;
        proof {
            assert(d.skip(0) =~= d);
        }
        while i < ndefaults
            invariant
                self.wf(),
                self.settings == old(self).settings,
                self.icc == old(self).icc,
                self.ca_data == old(self).ca_data,
                d == self.settings.default_tags@,
                0 <= i <= ndefaults == d.len(),
                spec_apply_defaults(old(self)@, d) == spec_apply_defaults(
                    self@,
                    d.skip(i as int),
                ),
            decreases ndefaults - i,
        {
            let ghost s_pre = self@;
            let tag = self.settings.default_tags[i].0;
            let value = clone_bytes(&self.settings.default_tags[i].1);
            proof {
                assert(d.skip(i as int)[0] == d[i as int]);
                assert(d.skip(i as int).skip(1) =~= d.skip(i + 1));
            }
            self.add_tag(tag, value);
            proof {
                assert(self@ == spec_put(s_pre, d[i as int].0, d[i as int].1@));
            }
            i = i + 1;
        }
        proof {
            assert(d.skip(ndefaults as int) =~= Seq::<(u16, Vec<u8>)>::empty());
            assert(spec_apply_defaults(old(self)@, d) == self@);
        }
        if self.get_tag_value(0x9A).is_none() {
            let (y, m, d) = today_utc();
            if y < 2000 || y > 2099 {
                // the date must be supplied: BCD YYMMDD cannot spell
                // this year
                return Err(());
            }
            let yy = (y - 2000) as u8;
            let mut digits: Vec<u8> = Vec::new();
            digits.push(0x30 + yy / 10);
            digits.push(0x30 + yy % 10);
            digits.push(0x30 + m / 10);
            digits.push(0x30 + m % 10);
            digits.push(0x30 + d / 10);
            digits.push(0x30 + d % 10);
            proof {
                assert(forall|j: int|
                    0 <= j < digits@.len() ==> is_ascii_digit(#[trigger] digits@[j]));
            }
            let date_bcd = match ascii_to_bcd_cn(digits.as_slice(), 3) {
                Ok(v) => v,
                Err(()) => {
                    return Err(());
                },
            };
            self.add_tag(0x9A, date_bcd);
        }
        if self.get_tag_value(0x9F37).is_none() {
            let un = self.fill_random(4);
            self.add_tag(0x9F37, un);
        }
        Ok(())
    }

    /// GET DATA for one of the `9F xx` counters the card keeps.
    pub fn handle_get_data(&mut self, tag: &[u8]) -> (r: Result<Vec<u8>, ()>)
        requires
            old(self).wf(),
            tag@.len() == 2,
            tag@[0] == 0x9F,
        ensures
            final(self).wf(),
            final(self).settings == old(self).settings,
            final(self).icc == old(self).icc,
            final(self).ca_data == old(self).ca_data,
            r matches Ok(v) ==> final(self)@ == tlv_put_all(old(self)@, v@),
    {
        let cmd = build_get_data_command(tag[0], tag[1]);
        let (trailer, data) = match self.send_apdu(cmd.as_slice()) {
            Ok(p) => p,
            Err(()) => {
                return Err(());
            },
        };
        if !is_success_response(&trailer) {
            return Err(());
        }
        Ok(data)
    }

    /// GET CHALLENGE: an unpredictable number from the ICC.
    pub fn handle_get_challenge(&mut self) -> (r: Result<Vec<u8>, ()>)
        requires
            old(self).wf(),
        ensures
            final(self).wf(),
            final(self).settings == old(self).settings,
            final(self).icc == old(self).icc,
            final(self).ca_data == old(self).ca_data,
            r matches Ok(v) ==> final(self)@ == tlv_put_all(old(self)@, v@),
    {
        let cmd = build_get_challenge_command();
        let (trailer, data) = match self.send_apdu(cmd.as_slice()) {
            Ok(p) => p,
            Err(()) => {
                return Err(());
            },
        };
        if !is_success_response(&trailer) {
            return Err(());
        }
        Ok(data)
    }

    /// VERIFY with a plaintext PIN block.  A PIN that is not one to
    /// twelve ASCII digits is rejected before anything is sent; the card
    /// answers `63 C4` for a wrong PIN, which surfaces as the error.
    pub fn handle_verify_plaintext_pin(&mut self, ascii_pin: &[u8]) -> (r: Result<(), ()>)
        requires
            old(self).wf(),
        ensures
            final(self).wf(),
            final(self).settings == old(self).settings,
            final(self).icc == old(self).icc,
            final(self).ca_data == old(self).ca_data,
            !(ascii_pin@.len() <= 12 && (forall|j: int|
                0 <= j < ascii_pin@.len() ==> is_ascii_digit(#[trigger] ascii_pin@[j]))) ==> r
                is Err,
    {
        let pin_bcd_cn = match ascii_to_bcd_cn(ascii_pin, 6) {
            Ok(v) => v,
            Err(()) => {
                return Err(());
            },
        };
        let cmd = build_verify_plaintext_pin_command(ascii_pin.len(), pin_bcd_cn.as_slice());
        let (trailer, _) = match self.send_apdu(cmd.as_slice()) {
            Ok(p) => p,
            Err(()) => {
                return Err(());
            },
        };
        if !is_success_response(&trailer) {
            return Err(());
        }
        Ok(())
    }

    /// VERIFY with an enciphered PIN block: GET CHALLENGE for the ICC
    /// unpredictable number, build the `7F`-headed block with random
    /// padding, encrypt it under the ICC PIN key, and send it.
    pub fn handle_verify_enciphered_pin(
        &mut self,
        ascii_pin: &[u8],
        icc_pin_pk_modulus: &[u8],
        icc_pin_pk_exponent: &[u8],
    ) -> (r: Result<(), ()>)
        requires
            old(self).wf(),
        ensures
            final(self).wf(),
            final(self).settings == old(self).settings,
            final(self).icc == old(self).icc,
            final(self).ca_data == old(self).ca_data,
            !(ascii_pin@.len() <= 12 && (forall|j: int|
                0 <= j < ascii_pin@.len() ==> is_ascii_digit(#[trigger] ascii_pin@[j]))) ==> r
                is Err,
            icc_pin_pk_modulus@.len() < 17 || icc_pin_pk_modulus@.len() > 255 ==> r is Err,
    {
        let pin_bcd_cn = match ascii_to_bcd_cn(ascii_pin, 6) {
            Ok(v) => v,
            Err(()) => {
                return Err(());
            },
        };
        let n = icc_pin_pk_modulus.len();
        if n < 17 || n > 255 {
            return Err(());
        }
        let icc_unpredictable_number = match self.handle_get_challenge() {
            Ok(v) => v,
            Err(()) => {
                return Err(());
            },
        };
        if icc_unpredictable_number.len() != 8 {
            return Err(());
        }
        let random_padding = self.fill_random(n - 17);
        let mut plaintext_data: Vec<u8> = Vec::new();
        plaintext_data.push(0x7F);
        plaintext_data.push(0x20 + ascii_pin.len() as u8);
        crate::tlv::append_bytes(&mut plaintext_data, pin_bcd_cn.as_slice());
        plaintext_data.push(0xFF);
        crate::tlv::append_bytes(&mut plaintext_data, icc_unpredictable_number.as_slice());
        crate::tlv::append_bytes(&mut plaintext_data, random_padding.as_slice());
        let icc_pin_pk = RsaPublicKey::new(icc_pin_pk_modulus, icc_pin_pk_exponent);
        let ciphered_pin_data = match icc_pin_pk.public_encrypt(plaintext_data.as_slice()) {
            Ok(v) => v,
            Err(()) => {
                return Err(());
            },
        };
        let cmd = build_verify_enciphered_pin_command(ciphered_pin_data.as_slice());
        let (trailer, _) = match self.send_apdu(cmd.as_slice()) {
            Ok(p) => p,
            Err(()) => {
                return Err(());
            },
        };
        if !is_success_response(&trailer) {
            return Err(());
        }
        Ok(())
    }

    /// Expands a tag list (CDOL, DDOL, the static-data tag list)
    /// against this session's store: the concatenation, in list order,
    /// of each listed tag's stored value; a one-byte list names a
    /// single tag whose value is returned whole.
    pub fn get_tag_list_tag_values(&self, tag_list: &[u8]) -> (r: Result<Vec<u8>, ()>)
        requires
            self.wf(),
        ensures
            r is Ok <==> spec_list_expansion(self@, tag_list@) is Some,
            r matches Ok(v) ==> Some(v@) == spec_list_expansion(self@, tag_list@),
    {
        expand_tag_list(&self.tags, tag_list)
    }

    /// GET PROCESSING OPTIONS, then the AFL record walk.  The response
    /// is either template `80` — its value split into tag `82` (the
    /// first two bytes) and tag `94` (the rest) — or template `77`,
    /// absorbed as TLV.  Each four-byte AFL group names a file, a record
    /// range and how many of its first successfully read records feed
    /// offline data authentication; their bytes are concatenated, in AFL
    /// order, into the returned data-authentication buffer (the inner
    /// frames of a `70` template for ordinary files, the raw record for
    /// files above 10).  On success the store holds tags `82`, `94`,
    /// `9F07`, `8C` and `9F4A`, and the ICC capabilities, usage flags
    /// and CVM rules are exactly what the final store spells.
    pub fn handle_get_processing_options(&mut self) -> (r: Result<Vec<u8>, ()>)
        requires
            old(self).wf(),
        ensures
            final(self).wf(),
            final(self).settings == old(self).settings,
            final(self).ca_data == old(self).ca_data,
            r matches Ok(v) ==> {
                &&& final(self)@.contains_key(0x82) && final(self)@[0x82].len() >= 1
                &&& final(self)@.contains_key(0x94) && final(self)@[0x94].len() % 4 == 0
                &&& spec_afl_counts_zero(final(self)@[0x94]) ==> v@.len() == 0
                &&& final(self)@.contains_key(0x9F07) && final(self)@[0x9F07].len() >= 2
                &&& final(self)@.contains_key(0x8E)
                &&& final(self)@.contains_key(0x8C)
                &&& final(self)@.contains_key(0x9F4A)
                &&& final(self).icc.capabilities == spec_capabilities_from_aip(
                    final(self)@[0x82][0],
                )
                &&& final(self).icc.usage == spec_usage_from_9f07(
                    final(self)@[0x9F07][0],
                    final(self)@[0x9F07][1],
                )
                &&& spec_bit(final(self)@[0x82][0], 4) ==> final(self)@.contains_key(0x8E)
                    && Some(final(self).icc.cvm_rules@) == spec_cvm_rules(final(self)@[0x8E])
                &&& !spec_bit(final(self)@[0x82][0], 4) ==> final(self).icc.cvm_rules@ == old(
                    self,
                ).icc.cvm_rules@
            },
    {
        let cmd = build_gpo_command();
        let (trailer, data) = match self.send_apdu(cmd.as_slice()) {
            Ok(p) => p,
            Err(()) => {
                return Err(());
            },
        };
        if !is_success_response(&trailer) {
            return Err(());
        }
        if data.len() == 0 {
            return Err(());
        }
        if data[0] == 0x80 {
            let (tag, value, _n) = match parse_tlv(data.as_slice()) {
                Some(p) => p,
                None => {
                    return Err(());
                },
            };
            if tag != 0x80 || value.len() < 2 {
                return Err(());
            }
            let aip = copy_range(value.as_slice(), 0, 2);
            let afl = copy_range(value.as_slice(), 2, value.len());
            self.add_tag(0x82, aip);
            self.add_tag(0x94, afl);
        } else if data[0] != 0x77 {
            return Err(());
        }
        let tag_94_afl = match self.get_tag_value(0x94) {
            Some(v) => clone_bytes(v),
            None => {
                return Err(());
            },
        };
        if tag_94_afl.len() % 4 != 0 {
            return Err(());
        }
        let mut data_authentication: Vec<u8> = Vec::new();
        let afl_len = tag_94_afl.len();
        let mut i: usize = 0;
        while i < afl_len
            invariant
                self.wf(),
                self.settings == old(self).settings,
                self.icc == old(self).icc,
                self.ca_data == old(self).ca_data,
                afl_len == tag_94_afl@.len(),
                afl_len % 4 == 0,
                i % 4 == 0,
                0 <= i <= afl_len,
                self@.contains_key(0x94),
                spec_afl_counts_zero(tag_94_afl@) ==> data_authentication@.len() == 0,
            decreases afl_len - i,
        {
            proof {
                assert((afl_len - i) % 4 == 0);
            }
            let short_file_identifier: u8 = tag_94_afl[i] / 8;
            let record_index_start = tag_94_afl[i + 1];
            let record_index_end = tag_94_afl[i + 2];
            let mut data_authentication_records = tag_94_afl[i + 3];
            proof {
                if spec_afl_counts_zero(tag_94_afl@) {
                    assert(4 * ((i as int) / 4) + 3 == i + 3);
                    assert(tag_94_afl@[4 * ((i as int) / 4) + 3] == 0);
                }
            }
            let mut rec: u16 = record_index_start as u16;
            while rec <= record_index_end as u16
                invariant
                    self.wf(),
                    self.settings == old(self).settings,
                    self.icc == old(self).icc,
                    self.ca_data == old(self).ca_data,
                    short_file_identifier < 32,
                    rec <= 0x100,
                    self@.contains_key(0x94),
                    spec_afl_counts_zero(tag_94_afl@) ==> data_authentication@.len() == 0
                        && data_authentication_records == 0,
                decreases record_index_end + 1 - rec,
            {
                if let Some(record) = self.read_record(short_file_identifier, rec as u8) {
                    if record[0] != 0x70 {
                        return Err(());
                    }
                    if data_authentication_records > 0 {
                        data_authentication_records = data_authentication_records - 1;
                        if short_file_identifier <= 10 {
                            let (_t70, value, _n) = match parse_tlv(record.as_slice()) {
                                Some(p) => p,
                                None => {
                                    return Err(());
                                },
                            };
                            if !crate::tlv::all_frames(value.as_slice()) {
                                return Err(());
                            }
                            crate::tlv::append_bytes(&mut data_authentication, value.as_slice());
                        } else {
                            crate::tlv::append_bytes(&mut data_authentication, record.as_slice());
                        }
                    }
                }
                rec = rec + 1;
            }
            i = i + 4;
        }
        let tag_82_aip = match self.get_tag_value(0x82) {
            Some(v) => clone_bytes(v),
            None => {
                return Err(());
            },
        };
        if tag_82_aip.len() < 1 {
            return Err(());
        }
        let auc_b1 = tag_82_aip[0];
        self.icc.capabilities = capabilities_from_aip(auc_b1);
        if get_bit(auc_b1, 4) {
            let tag_8e_cvm_list = match self.get_tag_value(0x8E) {
                Some(v) => clone_bytes(v),
                None => {
                    return Err(());
                },
            };
            let rules = match cvm_rules_from_8e(tag_8e_cvm_list.as_slice()) {
                Ok(v) => v,
                Err(()) => {
                    return Err(());
                },
            };
            self.icc.cvm_rules = rules;
        }
        let tag_9f07 = match self.get_tag_value(0x9F07) {
            Some(v) => clone_bytes(v),
            None => {
                return Err(());
            },
        };
        if tag_9f07.len() < 2 {
            return Err(());
        }
        self.icc.usage = usage_from_9f07(tag_9f07[0], tag_9f07[1]);
        if self.get_tag_value(0x8C).is_none() {
            return Err(());
        }
        if self.get_tag_value(0x9F4A).is_none() {
            return Err(());
        }
        // the store must still hold the AIP and the AFL the walk used:
        // the hash over the authentication records depends on them
        match self.get_tag_value(0x94) {
            Some(v) => {
                if !crate::rsa::bytes_eq(v.as_slice(), tag_94_afl.as_slice()) {
                    return Err(());
                }
            },
            None => {
                return Err(());
            },
        }
        if self.get_tag_value(0x8E).is_none() {
            return Err(());
        }
        Ok(data_authentication)
    }

    /// Splits a GENERATE AC template-`80` response into the stored
    /// tags: CID (`9F27`), ATC (`9F36`), the cryptogram (`9F26`) and any
    /// issuer application data (`9F10`).  A template `77` was already
    /// absorbed as TLV and leaves the store as it stands; anything else
    /// is refused.
    fn store_generate_ac_template(&mut self, data: &[u8]) -> (r: Result<(), ()>)
        requires
            old(self).wf(),
        ensures
            final(self).wf(),
            final(self).settings == old(self).settings,
            final(self).icc == old(self).icc,
            final(self).ca_data == old(self).ca_data,
            r is Ok <==> data@.len() >= 1 && (data@[0] == 0x77 || (data@[0] == 0x80
                && crate::tlv::spec_parse_tlv(data@) is Some && crate::tlv::spec_parse_tlv(
                data@,
            )->Some_0.1.len() >= 11)),
            r is Ok && data@.len() >= 1 && data@[0] == 0x80 ==> {
                let v = crate::tlv::spec_parse_tlv(data@)->Some_0.1;
                let m1 = spec_put(
                    spec_put(
                        spec_put(old(self)@, 0x9F27, v.subrange(0, 1)),
                        0x9F36,
                        v.subrange(1, 3),
                    ),
                    0x9F26,
                    v.subrange(3, 11),
                );
                final(self)@ == if v.len() > 11 {
                    spec_put(m1, 0x9F10, v.subrange(11, v.len() as int))
                } else {
                    m1
                }
            },
            r is Ok && data@.len() >= 1 && data@[0] != 0x80 ==> final(self)@ == old(self)@,
            r is Err ==> final(self)@ == old(self)@,
    {
        if data.len() == 0 {
            return Err(());
        }
        if data[0] == 0x80 {
            let (tag, value, _n) = match parse_tlv(data) {
                Some(p) => p,
                None => {
                    return Err(());
                },
            };
            if tag != 0x80 || value.len() < 11 {
                return Err(());
            }
            self.add_tag(0x9F27, copy_range(value.as_slice(), 0, 1));
            self.add_tag(0x9F36, copy_range(value.as_slice(), 1, 3));
            self.add_tag(0x9F26, copy_range(value.as_slice(), 3, 11));
            if value.len() > 11 {
                self.add_tag(0x9F10, copy_range(value.as_slice(), 11, value.len()));
            }
            Ok(())
        } else if data[0] != 0x77 {
            Err(())
        } else {
            Ok(())
        }
    }

    /// GENERATE AC: encode the TVR into tag `95`, expand the CDOL (tag
    /// `8C`) into the request data, ask for a TC, and store the response
    /// fields from a template `80`, or a template `77` absorbed as TLV.
    /// Success implies the CDOL stood in the store and expanded, within
    /// the one-byte length field, against the state that already carried
    /// the encoded TVR.
    pub fn handle_generate_ac(&mut self) -> (r: Result<(), ()>)
        requires
            old(self).wf(),
        ensures
            final(self).wf(),
            final(self).settings == old(self).settings,
            final(self).icc == old(self).icc,
            final(self).ca_data == old(self).ca_data,
            r is Ok ==> final(self)@.contains_key(0x95),
            r is Ok ==> {
                let m1 = spec_put(
                    old(self)@,
                    0x95,
                    crate::tvr::spec_tvr_bytes(old(self).settings.terminal.tvr),
                );
                &&& m1.contains_key(0x8C)
                &&& spec_list_expansion(m1, m1[0x8C]) matches Some(d) && d.len() <= 255
            },
    {
        let tag_95_tvr = self.settings.terminal.tvr.to_bytes();
        self.add_tag(0x95, tag_95_tvr);
        let tag_8c_cdol = match self.get_tag_value(0x8C) {
            Some(v) => clone_bytes(v),
            None => {
                return Err(());
            },
        };
        let cdol_data = match expand_tag_list(&self.tags, tag_8c_cdol.as_slice()) {
            Ok(v) => v,
            Err(()) => {
                return Err(());
            },
        };
        if cdol_data.len() > 255 {
            return Err(());
        }
        let cmd = build_generate_ac_command(cdol_data.as_slice());
        let ghost pre_send = self@;
        let (trailer, data) = match self.send_apdu(cmd.as_slice()) {
            Ok(p) => p,
            Err(()) => {
                return Err(());
            },
        };
        proof {
            crate::store::TagStore::lemma_tlv_put_all_preserves(pre_send, data@, 0x95);
        }
        if !is_success_response(&trailer) {
            return Err(());
        }
        self.store_generate_ac_template(data.as_slice())
    }

    /// Dynamic Data Authentication: expand the DDOL (tag `9F49`, or the
    /// fallback `9F 37 04`), INTERNAL AUTHENTICATE, store the Signed
    /// Dynamic Application Data (tag `9F4B`) from a template `80` or
    /// `77` response, recover it under the ICC key, store the ICC
    /// Dynamic Number as tag `9F4C`, and check the signature hash over
    /// the recovered data and the sent authentication data.
    pub fn handle_dynamic_data_authentication(
        &mut self,
        icc_pk_modulus: &[u8],
        icc_pk_exponent: &[u8],
    ) -> (r: Result<(), ()>)
        requires
            old(self).wf(),
        ensures
            final(self).wf(),
            final(self).settings == old(self).settings,
            final(self).icc == old(self).icc,
            final(self).ca_data == old(self).ca_data,
            r is Ok ==> final(self)@.contains_key(0x9F4C),
            r is Ok ==> {
                let ddol = if old(self)@.contains_key(0x9F49) {
                    old(self)@[0x9F49]
                } else {
                    seq![0x9Fu8, 0x37u8, 0x04u8]
                };
                spec_list_expansion(old(self)@, ddol) matches Some(d) && d.len() <= 255
            },
    {
        let ddol = match self.get_tag_value(0x9F49) {
            Some(v) => clone_bytes(v),
            None => {
                // the default DDOL: the unpredictable number alone
                let mut d: Vec<u8> = Vec::new();
                d.push(0x9F);
                d.push(0x37);
                d.push(0x04);
                proof {
                    assert(d@ =~= seq![0x9Fu8, 0x37u8, 0x04u8]);
                }
                d
            },
        };
        let auth_data = match expand_tag_list(&self.tags, ddol.as_slice()) {
            Ok(v) => v,
            Err(()) => {
                return Err(());
            },
        };
        if auth_data.len() > 255 {
            return Err(());
        }
        let cmd = build_internal_authenticate_command(auth_data.as_slice());
        let (trailer, data) = match self.send_apdu(cmd.as_slice()) {
            Ok(p) => p,
            Err(()) => {
                return Err(());
            },
        };
        if !is_success_response(&trailer) {
            return Err(());
        }
        if data.len() == 0 {
            return Err(());
        }
        if data[0] == 0x80 {
            let (tag, value, _n) = match parse_tlv(data.as_slice()) {
                Some(p) => p,
                None => {
                    return Err(());
                },
            };
            if tag != 0x80 {
                return Err(());
            }
            self.add_tag(0x9F4B, value);
        } else if data[0] != 0x77 {
            return Err(());
        }
        let tag_9f4b_signed_data = match self.get_tag_value(0x9F4B) {
            Some(v) => clone_bytes(v),
            None => {
                return Err(());
            },
        };
        let icc_pk = RsaPublicKey::new(icc_pk_modulus, icc_pk_exponent);
        let (dyn_number, hash_ok) = match verify_dynamic_signature(
            &icc_pk,
            tag_9f4b_signed_data.as_slice(),
            auth_data.as_slice(),
        ) {
            Ok(p) => p,
            Err(()) => {
                return Err(());
            },
        };
        self.add_tag(0x9F4C, dyn_number);
        if !hash_ok {
            return Err(());
        }
        Ok(())
    }

    /// Recovers the issuer public key: resolve the scheme CA key by the
    /// application's RID and the CA index (tag `8F`), then recover and
    /// check the issuer certificate (tag `90`) against the key
    /// remainder (`92`), the exponent (`9F32`) and the PAN (`5A`).  It
    /// succeeds exactly when those tags are stored, the table holds the
    /// key, and the recovered plaintext is a sound issuer certificate;
    /// the certificate's expiry is weighed against the clock, a warning
    /// only.
    pub fn get_issuer_public_key(&self, application: &EmvApplication) -> (r: Result<
        (Vec<u8>, Vec<u8>),
        (),
    >)
        requires
            self.wf(),
            application.aid@.len() >= 5,
        ensures
            ({
                let k_opt = spec_find_ca_key(
                    self.ca_data@,
                    application.aid@.subrange(0, 5),
                    self@[0x8F],
                );
                let cond = {
                    &&& self@.contains_key(0x90)
                    &&& self@.contains_key(0x92)
                    &&& self@.contains_key(0x9F32)
                    &&& self@.contains_key(0x8F)
                    &&& self@.contains_key(0x5A)
                    &&& k_opt is Some
                    &&& {
                        let k = k_opt->Some_0;
                        &&& k.0.len() <= 4096
                        &&& self@[0x90].len() <= 4096
                        &&& rsa_public_decrypt_accepts(k.0, k.1, self@[0x90])
                        &&& spec_issuer_cert_valid(
                            rsa_public_decrypt_of(k.0, k.1, self@[0x90]),
                            k.0.len() as int,
                            self@[0x92],
                            self@[0x9F32],
                            self@[0x5A],
                        )
                    }
                };
                &&& (r is Ok <==> cond)
                &&& (r matches Ok(p) ==> {
                    let k = k_opt->Some_0;
                    let cert = rsa_public_decrypt_of(k.0, k.1, self@[0x90]);
                    &&& p.0@ == cert.subrange(15, cert.len() - 21) + self@[0x92]
                    &&& p.1@ == self@[0x9F32]
                })
            }),
    {
        let tag_92_issuer_pk_remainder = match self.get_tag_value(0x92) {
            Some(v) => clone_bytes(v),
            None => {
                return Err(());
            },
        };
        let tag_9f32_issuer_pk_exponent = match self.get_tag_value(0x9F32) {
            Some(v) => clone_bytes(v),
            None => {
                return Err(());
            },
        };
        let tag_90_issuer_public_key_certificate = match self.get_tag_value(0x90) {
            Some(v) => clone_bytes(v),
            None => {
                return Err(());
            },
        };
        let tag_8f_ca_pk_index = match self.get_tag_value(0x8F) {
            Some(v) => clone_bytes(v),
            None => {
                return Err(());
            },
        };
        let tag_5a_pan = match self.get_tag_value(0x5A) {
            Some(v) => clone_bytes(v),
            None => {
                return Err(());
            },
        };
        let rid = copy_range(application.aid.as_slice(), 0, 5);
        let ca_pk = match get_ca_public_key(
            &self.ca_data,
            rid.as_slice(),
            tag_8f_ca_pk_index.as_slice(),
        ) {
            Some(k) => k,
            None => {
                return Err(());
            },
        };
        match recover_issuer_public_key(
            ca_pk,
            tag_90_issuer_public_key_certificate.as_slice(),
            tag_92_issuer_pk_remainder.as_slice(),
            tag_9f32_issuer_pk_exponent.as_slice(),
            tag_5a_pan.as_slice(),
        ) {
            Ok((modulus, exponent, expiry)) => {
                is_certificate_expired(expiry.as_slice());
                Ok((modulus, exponent))
            },
            Err(()) => Err(()),
        }
    }

    /// Recovers the ICC public key from its certificate under the
    /// issuer key, hashing in the data-authentication buffer and the
    /// expanded static-data tag list (tag `9F4A`) and checking the
    /// certificate PAN against tag `5A`.  It succeeds exactly when tags
    /// `9F4A` and `5A` are stored, the tag list expands, and the
    /// recovered plaintext is a sound ICC certificate; the certificate's
    /// expiry is weighed against the clock, a warning only.
    pub fn get_icc_public_key(
        &self,
        icc_pk_certificate: &Vec<u8>,
        icc_pk_exponent: &Vec<u8>,
        icc_pk_remainder: Option<&Vec<u8>>,
        issuer_pk_modulus: &[u8],
        issuer_pk_exponent: &[u8],
        data_authentication: &[u8],
    ) -> (r: Result<(Vec<u8>, Vec<u8>), ()>)
        requires
            self.wf(),
        ensures
            ({
                let rem = match icc_pk_remainder {
                    Some(v) => v@,
                    None => Seq::<u8>::empty(),
                };
                let cond = {
                    &&& self@.contains_key(0x9F4A)
                    &&& spec_list_expansion(self@, self@[0x9F4A]) is Some
                    &&& self@.contains_key(0x5A)
                    &&& issuer_pk_modulus@.len() <= 4096
                    &&& icc_pk_certificate@.len() <= 4096
                    &&& rsa_public_decrypt_accepts(
                        issuer_pk_modulus@,
                        issuer_pk_exponent@,
                        icc_pk_certificate@,
                    )
                    &&& spec_icc_cert_valid(
                        rsa_public_decrypt_of(
                            issuer_pk_modulus@,
                            issuer_pk_exponent@,
                            icc_pk_certificate@,
                        ),
                        issuer_pk_modulus@.len() as int,
                        rem,
                        icc_pk_exponent@,
                        data_authentication@,
                        spec_list_expansion(self@, self@[0x9F4A])->Some_0,
                        self@[0x5A],
                    )
                };
                &&& (r is Ok <==> cond)
                &&& (r matches Ok(p) ==> {
                    let cert = rsa_public_decrypt_of(
                        issuer_pk_modulus@,
                        issuer_pk_exponent@,
                        icc_pk_certificate@,
                    );
                    &&& p.0@ == spec_trim_trailing_bb(cert.subrange(21, cert.len() - 21)) + rem
                    &&& p.1@ == icc_pk_exponent@
                })
            }),
    {
        let tag_9f4a = match self.get_tag_value(0x9F4A) {
            Some(v) => clone_bytes(v),
            None => {
                return Err(());
            },
        };
        let sda_values = match expand_tag_list(&self.tags, tag_9f4a.as_slice()) {
            Ok(v) => v,
            Err(()) => {
                return Err(());
            },
        };
        let tag_5a_pan = match self.get_tag_value(0x5A) {
            Some(v) => clone_bytes(v),
            None => {
                return Err(());
            },
        };
        let no_remainder: Vec<u8> = Vec::new();
        let remainder: &Vec<u8> = match icc_pk_remainder {
            Some(v) => v,
            None => &no_remainder,
        };
        let issuer_pk = RsaPublicKey::new(issuer_pk_modulus, issuer_pk_exponent);
        match recover_icc_public_key(
            &issuer_pk,
            icc_pk_certificate.as_slice(),
            icc_pk_exponent.as_slice(),
            remainder.as_slice(),
            data_authentication,
            sda_values.as_slice(),
            tag_5a_pan.as_slice(),
        ) {
            Ok((modulus, exponent, expiry)) => {
                is_certificate_expired(expiry.as_slice());
                Ok((modulus, exponent))
            },
            Err(()) => Err(()),
        }
    }
}

} // verus!
