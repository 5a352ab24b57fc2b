//! Terminal Verification Results: five bytes of named booleans, packed
//! with the fixed bit positions of EMV Book 3 Annex C5 (bit 7 is the most
//! significant bit of a byte; unnamed bits stay zero).

use vstd::prelude::*;

verus! {

/// The named TVR booleans, one field per defined bit.
#[derive(Debug, Copy, Clone)]
pub struct TerminalVerificationResults {
    pub offline_data_authentication_was_not_performed: bool,
    pub sda_failed: bool,
    pub icc_data_missing: bool,
    pub card_appears_on_terminal_exception_file: bool,
    pub dda_failed: bool,
    pub cda_failed: bool,
    pub icc_and_terminal_have_different_application_versions: bool,
    pub expired_application: bool,
    pub application_not_yet_effective: bool,
    pub requested_service_not_allowed_for_card_product: bool,
    pub new_card: bool,
    pub cardholder_verification_was_not_successful: bool,
    pub unrecognised_cvm: bool,
    pub pin_try_limit_exceeded: bool,
    pub pin_entry_required_and_pin_pad_not_present_or_not_working: bool,
    pub pin_entry_required_pin_pad_present_but_pin_was_not_entered: bool,
    pub online_pin_entered: bool,
    pub transaction_exceeds_floor_limit: bool,
    pub lower_consecutive_offline_limit_exceeded: bool,
    pub upper_consecutive_offline_limit_exceeded: bool,
    pub transaction_selected_randomly_for_online_processing: bool,
    pub merchant_forced_transaction_online: bool,
    pub default_tdol_used: bool,
    pub issuer_authentication_failed: bool,
    pub script_processing_failed_before_final_generate_ac: bool,
    pub script_processing_failed_after_final_generate_ac: bool,
}

/// A flag's contribution: its bit weight when set, zero when clear.
pub open spec fn bit_if(b: bool, w: int) -> int {
    if b {
        w
    } else {
        0
    }
}

/// Byte 1 of the TVR.
pub open spec fn tvr_byte1(t: TerminalVerificationResults) -> int {
    bit_if(t.offline_data_authentication_was_not_performed, 0x80) + bit_if(t.sda_failed, 0x40)
        + bit_if(t.icc_data_missing, 0x20) + bit_if(t.card_appears_on_terminal_exception_file, 0x10)
        + bit_if(t.dda_failed, 0x08) + bit_if(t.cda_failed, 0x04)
}

/// Byte 2 of the TVR.
pub open spec fn tvr_byte2(t: TerminalVerificationResults) -> int {
    bit_if(t.icc_and_terminal_have_different_application_versions, 0x80) + bit_if(
        t.expired_application,
        0x40,
    ) + bit_if(t.application_not_yet_effective, 0x20) + bit_if(
        t.requested_service_not_allowed_for_card_product,
        0x10,
    ) + bit_if(t.new_card, 0x08)
}

/// Byte 3 of the TVR.
pub open spec fn tvr_byte3(t: TerminalVerificationResults) -> int {
    bit_if(t.cardholder_verification_was_not_successful, 0x80) + bit_if(t.unrecognised_cvm, 0x40)
        + bit_if(t.pin_try_limit_exceeded, 0x20) + bit_if(
        t.pin_entry_required_and_pin_pad_not_present_or_not_working,
        0x10,
    ) + bit_if(t.pin_entry_required_pin_pad_present_but_pin_was_not_entered, 0x08) + bit_if(
        t.online_pin_entered,
        0x04,
    )
}

/// Byte 4 of the TVR.
pub open spec fn tvr_byte4(t: TerminalVerificationResults) -> int {
    bit_if(t.transaction_exceeds_floor_limit, 0x80) + bit_if(
        t.lower_consecutive_offline_limit_exceeded,
        0x40,
    ) + bit_if(t.upper_consecutive_offline_limit_exceeded, 0x20) + bit_if(
        t.transaction_selected_randomly_for_online_processing,
        0x10,
    ) + bit_if(t.merchant_forced_transaction_online, 0x08)
}

/// Byte 5 of the TVR.
pub open spec fn tvr_byte5(t: TerminalVerificationResults) -> int {
    bit_if(t.default_tdol_used, 0x80) + bit_if(t.issuer_authentication_failed, 0x40) + bit_if(
        t.script_processing_failed_before_final_generate_ac,
        0x20,
    ) + bit_if(t.script_processing_failed_after_final_generate_ac, 0x10)
}

/// The five packed TVR bytes.
pub open spec fn spec_tvr_bytes(t: TerminalVerificationResults) -> Seq<u8> {
    seq![
        tvr_byte1(t) as u8,
        tvr_byte2(t) as u8,
        tvr_byte3(t) as u8,
        tvr_byte4(t) as u8,
        tvr_byte5(t) as u8,
    ]
}

impl TerminalVerificationResults {
    /// A TVR with every flag clear.
    pub fn new() -> (r: TerminalVerificationResults)
        ensures
            spec_tvr_bytes(r) == seq![0u8, 0u8, 0u8, 0u8, 0u8],
    {
        let r = TerminalVerificationResults {
            offline_data_authentication_was_not_performed: false,
            sda_failed: false,
            icc_data_missing: false,
            card_appears_on_terminal_exception_file: false,
            dda_failed: false,
            cda_failed: false,
            icc_and_terminal_have_different_application_versions: false,
            expired_application: false,
            application_not_yet_effective: false,
            requested_service_not_allowed_for_card_product: false,
            new_card: false,
            cardholder_verification_was_not_successful: false,
            unrecognised_cvm: false,
            pin_try_limit_exceeded: false,
            pin_entry_required_and_pin_pad_not_present_or_not_working: false,
            pin_entry_required_pin_pad_present_but_pin_was_not_entered: false,
            online_pin_entered: false,
            transaction_exceeds_floor_limit: false,
            lower_consecutive_offline_limit_exceeded: false,
            upper_consecutive_offline_limit_exceeded: false,
            transaction_selected_randomly_for_online_processing: false,
            merchant_forced_transaction_online: false,
            default_tdol_used: false,
            issuer_authentication_failed: false,
            script_processing_failed_before_final_generate_ac: false,
            script_processing_failed_after_final_generate_ac: false,
        };
        proof {
            assert(spec_tvr_bytes(r) =~= seq![0u8, 0u8, 0u8, 0u8, 0u8]);
        }
        r
    }

    /// Byte 1, packed.
    fn pack_byte1(&self) -> (r: u8)
        ensures
            r as int == tvr_byte1(*self),
    {
        let mut b: u8 = 0;
        b = add_flag(b, self.offline_data_authentication_was_not_performed, 0x80);
        b = add_flag(b, self.sda_failed, 0x40);
        b = add_flag(b, self.icc_data_missing, 0x20);
        b = add_flag(b, self.card_appears_on_terminal_exception_file, 0x10);
        b = add_flag(b, self.dda_failed, 0x08);
        b = add_flag(b, self.cda_failed, 0x04);
        b
    }

    /// Byte 2, packed.
    fn pack_byte2(&self) -> (r: u8)
        ensures
            r as int == tvr_byte2(*self),
    {
        let mut b: u8 = 0;
        b = add_flag(b, self.icc_and_terminal_have_different_application_versions, 0x80);
        b = add_flag(b, self.expired_application, 0x40);
        b = add_flag(b, self.application_not_yet_effective, 0x20);
        b = add_flag(b, self.requested_service_not_allowed_for_card_product, 0x10);
        b = add_flag(b, self.new_card, 0x08);
        b
    }

    /// Byte 3, packed.
    fn pack_byte3(&self) -> (r: u8)
        ensures
            r as int == tvr_byte3(*self),
    {
        let mut b: u8 = 0;
        b = add_flag(b, self.cardholder_verification_was_not_successful, 0x80);
        b = add_flag(b, self.unrecognised_cvm, 0x40);
        b = add_flag(b, self.pin_try_limit_exceeded, 0x20);
        b = add_flag(b, self.pin_entry_required_and_pin_pad_not_present_or_not_working, 0x10);
        b = add_flag(b, self.pin_entry_required_pin_pad_present_but_pin_was_not_entered, 0x08);
        b = add_flag(b, self.online_pin_entered, 0x04);
        b
    }

    /// Byte 4, packed.
    fn pack_byte4(&self) -> (r: u8)
        ensures
            r as int == tvr_byte4(*self),
    {
        let mut b: u8 = 0;
        b = add_flag(b, self.transaction_exceeds_floor_limit, 0x80);
        b = add_flag(b, self.lower_consecutive_offline_limit_exceeded, 0x40);
        b = add_flag(b, self.upper_consecutive_offline_limit_exceeded, 0x20);
        b = add_flag(b, self.transaction_selected_randomly_for_online_processing, 0x10);
        b = add_flag(b, self.merchant_forced_transaction_online, 0x08);
        b
    }

    /// Byte 5, packed.
    fn pack_byte5(&self) -> (r: u8)
        ensures
            r as int == tvr_byte5(*self),
    {
        let mut b: u8 = 0;
        b = add_flag(b, self.default_tdol_used, 0x80);
        b = add_flag(b, self.issuer_authentication_failed, 0x40);
        b = add_flag(b, self.script_processing_failed_before_final_generate_ac, 0x20);
        b = add_flag(b, self.script_processing_failed_after_final_generate_ac, 0x10);
        b
    }

    /// Packs the flags into the five TVR bytes (the value of tag `95`).
    pub fn to_bytes(&self) -> (r: Vec<u8>)
        ensures
            r@ == spec_tvr_bytes(*self),
            r@.len() == 5,
    {
        let mut out: Vec<u8> = Vec::new();
        out.push(self.pack_byte1());
        out.push(self.pack_byte2());
        out.push(self.pack_byte3());
        out.push(self.pack_byte4());
        out.push(self.pack_byte5());
        proof {
            assert(out@ =~= spec_tvr_bytes(*self));
        }
        out
    }
}

/// Adds a flag's bit weight to a byte being packed.
fn add_flag(acc: u8, b: bool, w: u8) -> (r: u8)
    requires
        acc + w <= 255,
    ensures
        r == acc + bit_if(b, w as int),
{
    if b {
        acc + w
    } else {
        acc
    }
}

/// The TVR bits are independent: each defined bit of the packed bytes
/// reads back exactly its own flag, so setting one flag sets only its own
/// defined bit and clears nothing else.
pub proof fn lemma_tvr_bit_independence(t: TerminalVerificationResults)
    ensures
        ((tvr_byte1(t) / 0x80) % 2 == 1) == t.offline_data_authentication_was_not_performed,
        ((tvr_byte1(t) / 0x40) % 2 == 1) == t.sda_failed,
        ((tvr_byte1(t) / 0x20) % 2 == 1) == t.icc_data_missing,
        ((tvr_byte1(t) / 0x10) % 2 == 1) == t.card_appears_on_terminal_exception_file,
        ((tvr_byte1(t) / 0x08) % 2 == 1) == t.dda_failed,
        ((tvr_byte1(t) / 0x04) % 2 == 1) == t.cda_failed,
        tvr_byte1(t) % 0x04 == 0,
        ((tvr_byte2(t) / 0x80) % 2 == 1) == t.icc_and_terminal_have_different_application_versions,
        ((tvr_byte2(t) / 0x40) % 2 == 1) == t.expired_application,
        ((tvr_byte2(t) / 0x20) % 2 == 1) == t.application_not_yet_effective,
        ((tvr_byte2(t) / 0x10) % 2 == 1) == t.requested_service_not_allowed_for_card_product,
        ((tvr_byte2(t) / 0x08) % 2 == 1) == t.new_card,
        tvr_byte2(t) % 0x08 == 0,
        ((tvr_byte3(t) / 0x80) % 2 == 1) == t.cardholder_verification_was_not_successful,
        ((tvr_byte3(t) / 0x40) % 2 == 1) == t.unrecognised_cvm,
        ((tvr_byte3(t) / 0x20) % 2 == 1) == t.pin_try_limit_exceeded,
        ((tvr_byte3(t) / 0x10) % 2 == 1)
            == t.pin_entry_required_and_pin_pad_not_present_or_not_working,
        ((tvr_byte3(t) / 0x08) % 2 == 1)
            == t.pin_entry_required_pin_pad_present_but_pin_was_not_entered,
        ((tvr_byte3(t) / 0x04) % 2 == 1) == t.online_pin_entered,
        tvr_byte3(t) % 0x04 == 0,
        ((tvr_byte4(t) / 0x80) % 2 == 1) == t.transaction_exceeds_floor_limit,
        ((tvr_byte4(t) / 0x40) % 2 == 1) == t.lower_consecutive_offline_limit_exceeded,
        ((tvr_byte4(t) / 0x20) % 2 == 1) == t.upper_consecutive_offline_limit_exceeded,
        ((tvr_byte4(t) / 0x10) % 2 == 1) == t.transaction_selected_randomly_for_online_processing,
        ((tvr_byte4(t) / 0x08) % 2 == 1) == t.merchant_forced_transaction_online,
        tvr_byte4(t) % 0x08 == 0,
        ((tvr_byte5(t) / 0x80) % 2 == 1) == t.default_tdol_used,
        ((tvr_byte5(t) / 0x40) % 2 == 1) == t.issuer_authentication_failed,
        ((tvr_byte5(t) / 0x20) % 2 == 1) == t.script_processing_failed_before_final_generate_ac,
        ((tvr_byte5(t) / 0x10) % 2 == 1) == t.script_processing_failed_after_final_generate_ac,
        tvr_byte5(t) % 0x10 == 0,
{
}

} // verus!
