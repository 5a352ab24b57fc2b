//! The card-side state derived from card data: the ICC capabilities read
//! from tag `82` (the Application Interchange Profile), the usage flags
//! read from tag `9F07`, and the cardholder-verification rules read from
//! tag `8E` (the CVM List).

use vstd::prelude::*;

verus! {

/// A cardholder verification method code (low six bits of the CVM code
/// byte).
#[derive(Debug, Copy, Clone, PartialEq, Eq, Structural)]
pub enum CvmCode {
    FailCvmProcessing,
    PlaintextPin,
    EncipheredPinOnline,
    PlaintextPinAndSignature,
    EncipheredPinOffline,
    EncipheredPinOfflineAndSignature,
    Signature,
    NoCvm,
}

/// The method code a `CvmCode` stands for.
pub open spec fn spec_cvm_code_byte(c: CvmCode) -> u8 {
    match c {
        CvmCode::FailCvmProcessing => 0x00,
        CvmCode::PlaintextPin => 0x01,
        CvmCode::EncipheredPinOnline => 0x02,
        CvmCode::PlaintextPinAndSignature => 0x03,
        CvmCode::EncipheredPinOffline => 0x04,
        CvmCode::EncipheredPinOfflineAndSignature => 0x05,
        CvmCode::Signature => 0x1E,
        CvmCode::NoCvm => 0x1F,
    }
}

/// The `CvmCode` a method-code byte spells, if any.
pub open spec fn spec_cvm_code(b: u8) -> Option<CvmCode> {
    if b == 0x00 {
        Some(CvmCode::FailCvmProcessing)
    } else if b == 0x01 {
        Some(CvmCode::PlaintextPin)
    } else if b == 0x02 {
        Some(CvmCode::EncipheredPinOnline)
    } else if b == 0x03 {
        Some(CvmCode::PlaintextPinAndSignature)
    } else if b == 0x04 {
        Some(CvmCode::EncipheredPinOffline)
    } else if b == 0x05 {
        Some(CvmCode::EncipheredPinOfflineAndSignature)
    } else if b == 0x1E {
        Some(CvmCode::Signature)
    } else if b == 0x1F {
        Some(CvmCode::NoCvm)
    } else {
        None
    }
}

impl CvmCode {
    /// The method-code byte of this code.
    pub fn to_byte(&self) -> (r: u8)
        ensures
            r == spec_cvm_code_byte(*self),
    {
        match self {
            CvmCode::FailCvmProcessing => 0x00,
            CvmCode::PlaintextPin => 0x01,
            CvmCode::EncipheredPinOnline => 0x02,
            CvmCode::PlaintextPinAndSignature => 0x03,
            CvmCode::EncipheredPinOffline => 0x04,
            CvmCode::EncipheredPinOfflineAndSignature => 0x05,
            CvmCode::Signature => 0x1E,
            CvmCode::NoCvm => 0x1F,
        }
    }

    /// Reads a method-code byte; fails on a code this system does not
    /// know.
    pub fn from_byte(b: u8) -> (r: Result<CvmCode, ()>)
        ensures
            r is Ok <==> spec_cvm_code(b) is Some,
            r matches Ok(c) ==> spec_cvm_code(b) == Some(c),
    {
        match b {
            0x00 => Ok(CvmCode::FailCvmProcessing),
            0x01 => Ok(CvmCode::PlaintextPin),
            0x02 => Ok(CvmCode::EncipheredPinOnline),
            0x03 => Ok(CvmCode::PlaintextPinAndSignature),
            0x04 => Ok(CvmCode::EncipheredPinOffline),
            0x05 => Ok(CvmCode::EncipheredPinOfflineAndSignature),
            0x1E => Ok(CvmCode::Signature),
            0x1F => Ok(CvmCode::NoCvm),
            _ => Err(()),
        }
    }
}

/// A cardholder verification condition code.
#[derive(Debug, Copy, Clone, PartialEq, Eq, Structural)]
pub enum CvmConditionCode {
    Always,
    UnattendedCash,
    NotCashNorPurchaseWithCashback,
    CvmSupported,
    ManualCash,
    PurchaseWithCashback,
    IccCurrencyUnderX,
    IccCurrencyOverX,
    IccCurrencyUnderY,
    IccCurrencyOverY,
}

/// The byte a condition code stands for.
pub open spec fn spec_cvm_condition_byte(c: CvmConditionCode) -> u8 {
    match c {
        CvmConditionCode::Always => 0x00,
        CvmConditionCode::UnattendedCash => 0x01,
        CvmConditionCode::NotCashNorPurchaseWithCashback => 0x02,
        CvmConditionCode::CvmSupported => 0x03,
        CvmConditionCode::ManualCash => 0x04,
        CvmConditionCode::PurchaseWithCashback => 0x05,
        CvmConditionCode::IccCurrencyUnderX => 0x06,
        CvmConditionCode::IccCurrencyOverX => 0x07,
        CvmConditionCode::IccCurrencyUnderY => 0x08,
        CvmConditionCode::IccCurrencyOverY => 0x09,
    }
}

/// The condition code a byte spells, if any.
pub open spec fn spec_cvm_condition(b: u8) -> Option<CvmConditionCode> {
    if b == 0x00 {
        Some(CvmConditionCode::Always)
    } else if b == 0x01 {
        Some(CvmConditionCode::UnattendedCash)
    } else if b == 0x02 {
        Some(CvmConditionCode::NotCashNorPurchaseWithCashback)
    } else if b == 0x03 {
        Some(CvmConditionCode::CvmSupported)
    } else if b == 0x04 {
        Some(CvmConditionCode::ManualCash)
    } else if b == 0x05 {
        Some(CvmConditionCode::PurchaseWithCashback)
    } else if b == 0x06 {
        Some(CvmConditionCode::IccCurrencyUnderX)
    } else if b == 0x07 {
        Some(CvmConditionCode::IccCurrencyOverX)
    } else if b == 0x08 {
        Some(CvmConditionCode::IccCurrencyUnderY)
    } else if b == 0x09 {
        Some(CvmConditionCode::IccCurrencyOverY)
    } else {
        None
    }
}

impl CvmConditionCode {
    /// The byte of this condition code.
    pub fn to_byte(&self) -> (r: u8)
        ensures
            r == spec_cvm_condition_byte(*self),
    {
        match self {
            CvmConditionCode::Always => 0x00,
            CvmConditionCode::UnattendedCash => 0x01,
            CvmConditionCode::NotCashNorPurchaseWithCashback => 0x02,
            CvmConditionCode::CvmSupported => 0x03,
            CvmConditionCode::ManualCash => 0x04,
            CvmConditionCode::PurchaseWithCashback => 0x05,
            CvmConditionCode::IccCurrencyUnderX => 0x06,
            CvmConditionCode::IccCurrencyOverX => 0x07,
            CvmConditionCode::IccCurrencyUnderY => 0x08,
            CvmConditionCode::IccCurrencyOverY => 0x09,
        }
    }

    /// Reads a condition byte; fails on one this system does not know.
    pub fn from_byte(b: u8) -> (r: Result<CvmConditionCode, ()>)
        ensures
            r is Ok <==> spec_cvm_condition(b) is Some,
            r matches Ok(c) ==> spec_cvm_condition(b) == Some(c),
    {
        match b {
            0x00 => Ok(CvmConditionCode::Always),
            0x01 => Ok(CvmConditionCode::UnattendedCash),
            0x02 => Ok(CvmConditionCode::NotCashNorPurchaseWithCashback),
            0x03 => Ok(CvmConditionCode::CvmSupported),
            0x04 => Ok(CvmConditionCode::ManualCash),
            0x05 => Ok(CvmConditionCode::PurchaseWithCashback),
            0x06 => Ok(CvmConditionCode::IccCurrencyUnderX),
            0x07 => Ok(CvmConditionCode::IccCurrencyOverX),
            0x08 => Ok(CvmConditionCode::IccCurrencyUnderY),
            0x09 => Ok(CvmConditionCode::IccCurrencyOverY),
            _ => Err(()),
        }
    }
}

/// One rule of the CVM List: the two amounts, the fail flag (bit 6 of the
/// code byte clear), the method and the condition.
#[derive(Debug, Copy, Clone, PartialEq, Eq, Structural)]
pub struct CvmRule {
    pub amount_x: u32,
    pub amount_y: u32,
    pub fail_if_unsuccessful: bool,
    pub code: CvmCode,
    pub condition: CvmConditionCode,
}

/// The three bytes of tag `9F34` (CVM Results) for an applied rule:
/// the code byte (with bit 6 set when a failed rule lets the next one
/// apply), the condition byte, and the result byte — unknown for a
/// signature, successful otherwise, failed when the rule is an `Err`.
pub open spec fn spec_9f34_value(rule: Result<CvmRule, CvmRule>) -> Seq<u8> {
    let ru = match rule {
        Ok(r) => r,
        Err(r) => r,
    };
    let code_byte: u8 = if ru.fail_if_unsuccessful {
        spec_cvm_code_byte(ru.code)
    } else {
        (spec_cvm_code_byte(ru.code) + 0x40) as u8
    };
    let result_byte: u8 = match rule {
        Ok(r) => if r.code is Signature {
            0x00
        } else {
            0x02
        },
        Err(_) => 0x01,
    };
    seq![code_byte, spec_cvm_condition_byte(ru.condition), result_byte]
}

impl CvmRule {
    /// Encodes an applied rule (`Ok` when it succeeded, `Err` when it
    /// failed) as the value of tag `9F34`.
    pub fn into_9f34_value(rule: Result<CvmRule, CvmRule>) -> (r: Vec<u8>)
        ensures
            r@ == spec_9f34_value(rule),
            r@.len() == 3,
    {
        let rule_unwrapped = match rule {
            Ok(r) => r,
            Err(r) => r,
        };
        let mut c: u8 = rule_unwrapped.code.to_byte();
        if !rule_unwrapped.fail_if_unsuccessful {
            c = c + 0x40;
        }
        let result: u8 = match rule {
            Ok(r) => match r.code {
                CvmCode::Signature => 0x00,
                _ => 0x02,
            },
            Err(_) => 0x01,
        };
        let mut value: Vec<u8> = Vec::new();
        value.push(c);
        value.push(rule_unwrapped.condition.to_byte());
        value.push(result);
        proof {
            assert(value@ =~= spec_9f34_value(rule));
        }
        value
    }
}

/// What the ICC says it supports, read from tag `82` (AIP).
#[derive(Debug, Copy, Clone)]
pub struct Capabilities {
    pub sda: bool,
    pub dda: bool,
    pub cda: bool,
    pub plaintext_pin: bool,
    pub enciphered_pin: bool,
    pub terminal_risk_management: bool,
    pub issuer_authentication: bool,
}

/// Bit `i` (0 the least significant) of byte `b`.
pub open spec fn spec_bit(b: u8, i: int) -> bool {
    ((b as int) / pow2_small(i)) % 2 == 1
}

/// Two to a small power, written out so that specs stay linear.
pub open spec fn pow2_small(i: int) -> int {
    if i == 0 {
        1
    } else if i == 1 {
        2
    } else if i == 2 {
        4
    } else if i == 3 {
        8
    } else if i == 4 {
        16
    } else if i == 5 {
        32
    } else if i == 6 {
        64
    } else {
        128
    }
}

/// Reads bit `i` of `b` in executable code.
pub fn get_bit(b: u8, i: usize) -> (r: bool)
    requires
        i < 8,
    ensures
        r == spec_bit(b, i as int),
{
    let w: u8 = if i == 0 {
        1
    } else if i == 1 {
        2
    } else if i == 2 {
        4
    } else if i == 3 {
        8
    } else if i == 4 {
        16
    } else if i == 5 {
        32
    } else if i == 6 {
        64
    } else {
        128
    };
    (b / w) % 2 == 1
}

/// The capability flags spelled by the first AIP byte.  Bit 4 (cardholder
/// verification supported) gates the CVM List and is returned separately
/// by the session; PIN capabilities stay terminal-side.
pub open spec fn spec_capabilities_from_aip(b0: u8) -> Capabilities {
    Capabilities {
        sda: spec_bit(b0, 6),
        dda: spec_bit(b0, 5),
        cda: spec_bit(b0, 0),
        plaintext_pin: false,
        enciphered_pin: false,
        terminal_risk_management: spec_bit(b0, 3),
        issuer_authentication: spec_bit(b0, 2),
    }
}

/// Decodes the first AIP byte into capability flags.
pub fn capabilities_from_aip(b0: u8) -> (r: Capabilities)
    ensures
        r == spec_capabilities_from_aip(b0),
{
    Capabilities {
        sda: get_bit(b0, 6),
        dda: get_bit(b0, 5),
        cda: get_bit(b0, 0),
        plaintext_pin: false,
        enciphered_pin: false,
        terminal_risk_management: get_bit(b0, 3),
        issuer_authentication: get_bit(b0, 2),
    }
}

/// Where the application may be used, read from tag `9F07` (two bytes).
#[derive(Debug, Copy, Clone)]
pub struct UsageControl {
    pub domestic_cash_transactions: bool,
    pub international_cash_transactions: bool,
    pub domestic_goods: bool,
    pub international_goods: bool,
    pub domestic_services: bool,
    pub international_services: bool,
    pub atms: bool,
    pub terminals_other_than_atms: bool,
    pub domestic_cashback: bool,
    pub international_cashback: bool,
}

/// The usage flags spelled by the two bytes of tag `9F07`.
pub open spec fn spec_usage_from_9f07(b0: u8, b1: u8) -> UsageControl {
    UsageControl {
        domestic_cash_transactions: spec_bit(b0, 7),
        international_cash_transactions: spec_bit(b0, 6),
        domestic_goods: spec_bit(b0, 5),
        international_goods: spec_bit(b0, 4),
        domestic_services: spec_bit(b0, 3),
        international_services: spec_bit(b0, 2),
        atms: spec_bit(b0, 1),
        terminals_other_than_atms: spec_bit(b0, 0),
        domestic_cashback: spec_bit(b1, 7),
        international_cashback: spec_bit(b1, 6),
    }
}

/// Decodes the two bytes of tag `9F07` into usage flags.
pub fn usage_from_9f07(b0: u8, b1: u8) -> (r: UsageControl)
    ensures
        r == spec_usage_from_9f07(b0, b1),
{
    UsageControl {
        domestic_cash_transactions: get_bit(b0, 7),
        international_cash_transactions: get_bit(b0, 6),
        domestic_goods: get_bit(b0, 5),
        international_goods: get_bit(b0, 4),
        domestic_services: get_bit(b0, 3),
        international_services: get_bit(b0, 2),
        atms: get_bit(b0, 1),
        terminals_other_than_atms: get_bit(b0, 0),
        domestic_cashback: get_bit(b1, 7),
        international_cashback: get_bit(b1, 6),
    }
}

/// The card-side state a session accumulates.
#[derive(Debug)]
pub struct Icc {
    pub capabilities: Capabilities,
    pub usage: UsageControl,
    pub cvm_rules: Vec<CvmRule>,
}

/// A fresh ICC record: every capability and usage flag off, no rules.
pub open spec fn spec_icc_initial(r: Icc) -> bool {
    &&& !r.capabilities.sda
    &&& !r.capabilities.dda
    &&& !r.capabilities.cda
    &&& !r.capabilities.plaintext_pin
    &&& !r.capabilities.enciphered_pin
    &&& !r.capabilities.terminal_risk_management
    &&& !r.capabilities.issuer_authentication
    &&& !r.usage.domestic_cash_transactions
    &&& !r.usage.international_cash_transactions
    &&& !r.usage.domestic_goods
    &&& !r.usage.international_goods
    &&& !r.usage.domestic_services
    &&& !r.usage.international_services
    &&& !r.usage.atms
    &&& !r.usage.terminals_other_than_atms
    &&& !r.usage.domestic_cashback
    &&& !r.usage.international_cashback
    &&& r.cvm_rules@ == Seq::<CvmRule>::empty()
}

impl Icc {
    /// A fresh ICC record: everything off, no rules.
    pub fn new() -> (r: Icc)
        ensures
            spec_icc_initial(r),
    {
        Icc {
            capabilities: Capabilities {
                sda: false,
                dda: false,
                cda: false,
                plaintext_pin: false,
                enciphered_pin: false,
                terminal_risk_management: false,
                issuer_authentication: false,
            },
            usage: UsageControl {
                domestic_cash_transactions: false,
                international_cash_transactions: false,
                domestic_goods: false,
                international_goods: false,
                domestic_services: false,
                international_services: false,
                atms: false,
                terminals_other_than_atms: false,
                domestic_cashback: false,
                international_cashback: false,
            },
            cvm_rules: Vec::new(),
        }
    }
}

/// A four-byte packed-BCD amount as a number, when all eight nibbles are
/// decimal digits.
pub open spec fn spec_bcd_amount(b: Seq<u8>) -> Option<int> {
    if b.len() == 4 && (forall|i: int| 0 <= i < 4 ==> #[trigger] (b[i] / 16) <= 9 && b[i] % 16
        <= 9) {
        Some(
            (b[0] / 16) * 10000000 + (b[0] % 16) * 1000000 + (b[1] / 16) * 100000 + (b[1] % 16)
                * 10000 + (b[2] / 16) * 1000 + (b[2] % 16) * 100 + (b[3] / 16) * 10 + (b[3] % 16),
        )
    } else {
        None
    }
}

/// Reads a four-byte packed-BCD amount; fails on a nibble that is not a
/// decimal digit.
pub fn bcd_amount(b: &[u8]) -> (r: Result<u32, ()>)
    requires
        b@.len() == 4,
    ensures
        r is Ok <==> spec_bcd_amount(b@) is Some,
        r matches Ok(v) ==> Some(v as int) == spec_bcd_amount(b@),
{
    let mut i: usize = 0;
    while i < 4
        invariant
            0 <= i <= 4,
            b@.len() == 4,
            forall|j: int| 0 <= j < i ==> #[trigger] (b@[j] / 16) <= 9 && b@[j] % 16 <= 9,
        decreases 4 - i,
    {
        if b[i] / 16 > 9 || b[i] % 16 > 9 {
            return Err(());
        }
        i = i + 1;
    }
    let v: u32 = (b[0] / 16) as u32 * 10000000 + (b[0] % 16) as u32 * 1000000 + (b[1]
        / 16) as u32 * 100000 + (b[1] % 16) as u32 * 10000 + (b[2] / 16) as u32 * 1000 + (b[2]
        % 16) as u32 * 100 + (b[3] / 16) as u32 * 10 + (b[3] % 16) as u32;
    Ok(v)
}

/// The rules spelled by the `(code, condition)` pairs of a CVM List, with
/// the amounts already read.  Bit 7 of the code byte is reserved and
/// dropped; bit 6 clear means the transaction fails when the rule does.
pub open spec fn spec_cvm_pairs(x: u32, y: u32, b: Seq<u8>) -> Option<Seq<CvmRule>>
    decreases b.len(),
{
    if b.len() == 0 {
        Some(Seq::empty())
    } else if b.len() == 1 {
        None
    } else {
        match (spec_cvm_code(b[0] % 64), spec_cvm_condition(b[1])) {
            (Some(code), Some(condition)) => match spec_cvm_pairs(x, y, b.skip(2)) {
                Some(r) => Some(
                    seq![
                        CvmRule {
                            amount_x: x,
                            amount_y: y,
                            fail_if_unsuccessful: !spec_bit(b[0], 6),
                            code,
                            condition,
                        },
                    ] + r,
                ),
                None => None,
            },
            _ => None,
        }
    }
}

/// The rules spelled by a whole CVM List (tag `8E`): amount X, amount Y,
/// then the rule pairs.
pub open spec fn spec_cvm_rules(b: Seq<u8>) -> Option<Seq<CvmRule>> {
    if b.len() < 8 {
        None
    } else {
        match (spec_bcd_amount(b.subrange(0, 4)), spec_bcd_amount(b.subrange(4, 8))) {
            (Some(x), Some(y)) => spec_cvm_pairs(x as u32, y as u32, b.skip(8)),
            _ => None,
        }
    }
}

/// Decodes a CVM List: the two BCD amounts, then one rule per
/// `(code, condition)` pair.  Fails on a short list, a bad amount nibble,
/// an odd pair area, or a code or condition this system does not know.
pub fn cvm_rules_from_8e(b: &[u8]) -> (r: Result<Vec<CvmRule>, ()>)
    ensures
        r is Ok <==> spec_cvm_rules(b@) is Some,
        r matches Ok(v) ==> Some(v@) == spec_cvm_rules(b@),
{
    if b.len() < 8 {
        return Err(());
    }
    let blen = b.len();
    let x = match bcd_amount(crate::tlv::copy_range(b, 0, 4).as_slice()) {
        Ok(v) => v,
        Err(()) => {
            return Err(());
        },
    };
    let y = match bcd_amount(crate::tlv::copy_range(b, 4, 8).as_slice()) {
        Ok(v) => v,
        Err(()) => {
            return Err(());
        },
    };
    let mut out: Vec<CvmRule> = Vec::new();
    let mut i: usize = 8;
    proof {
        assert(Some(x as int) == spec_bcd_amount(b@.subrange(0, 4)));
        assert(Some(y as int) == spec_bcd_amount(b@.subrange(4, 8)));
        if let Some(rest) = spec_cvm_pairs(x, y, b@.skip(8)) {
            assert(Seq::<CvmRule>::empty() + rest =~= rest);
        }
    }
    while i < blen
        invariant
            8 <= i <= blen == b@.len(),
            Some(x as int) == spec_bcd_amount(b@.subrange(0, 4)),
            Some(y as int) == spec_bcd_amount(b@.subrange(4, 8)),
            match spec_cvm_pairs(x, y, b@.skip(i as int)) {
                Some(rest) => spec_cvm_pairs(x, y, b@.skip(8)) == Some(out@ + rest),
                None => spec_cvm_pairs(x, y, b@.skip(8)) is None,
            },
        decreases blen - i,
    {
        let ghost pre = b@.skip(i as int);
        let ghost opre = out@;
        if blen - i == 1 {
            return Err(());
        }
        let code_byte = b[i];
        let cond_byte = b[i + 1];
        proof {
            assert(pre[0] == b@[i as int]);
            assert(pre[1] == b@[i + 1]);
            assert(pre.skip(2) =~= b@.skip(i + 2));
        }
        let code = match CvmCode::from_byte(code_byte % 64) {
            Ok(c) => c,
            Err(()) => {
                return Err(());
            },
        };
        let condition = match CvmConditionCode::from_byte(cond_byte) {
            Ok(c) => c,
            Err(()) => {
                return Err(());
            },
        };
        let fail_if_unsuccessful = !get_bit(code_byte, 6);
        out.push(
            CvmRule { amount_x: x, amount_y: y, fail_if_unsuccessful, code, condition },
        );
        i = i + 2;
        proof {
            if let Some(rest) = spec_cvm_pairs(x, y, b@.skip(i as int)) {
                assert(opre + (seq![out@[opre.len() as int]] + rest) =~= out@ + rest);
            }
        }
    }
    proof {
        assert(b@.skip(blen as int) =~= Seq::<u8>::empty());
        assert(out@ + Seq::<CvmRule>::empty() =~= out@);
        assert(b@.subrange(0, 4) =~= b@.subrange(0, 4));
    }
    Ok(out)
}

} // verus!
