//! PEAK PCAN-Basic: channel names, bit-rate registers, status errors and the
//! message layout the driver reads and writes. Loading the driver and calling it
//! is done by the application.
use vstd::prelude::*;
use crate::bus::{as_received, CanFrame, FrameView};
use crate::error::MotorError;
use crate::text::{
    chars_of, dec_text, find_char, first_index_of, has_prefix, hex_text, int_error_message,
    int_error_text, lower_seq, parse_uint, parse_uint_chars, push_dec, push_hex, slice_range,
    digit_of, digits_value, lower, radix_text_reads_back, upper,
    starts_with, to_ascii_lower, to_ascii_upper, trim, trim_chars, upper_seq, chars_eq, IntErrorKind,
    is_ws, lemma_trim_plain,
};

verus! {

/// Handle of the first PCAN-USB channel.
pub const PCAN_USBBUS1: u16 = 0x51;

/// `msg_type` bit that marks a 29-bit identifier.
pub const PCAN_MESSAGE_EXTENDED: u8 = 0x02;

/// `msg_type` of a frame with an 11-bit identifier.
pub const PCAN_MESSAGE_STANDARD: u8 = 0x00;

/// The BTR0/BTR1 register pair for each supported bit rate.
pub open spec fn btr_of(bitrate: int) -> Option<u16> {
    if bitrate == 1_000_000 {
        Some(0x0014u16)
    } else if bitrate == 800_000 {
        Some(0x0016u16)
    } else if bitrate == 500_000 {
        Some(0x001Cu16)
    } else if bitrate == 250_000 {
        Some(0x011Cu16)
    } else if bitrate == 125_000 {
        Some(0x031Cu16)
    } else if bitrate == 100_000 {
        Some(0x432Fu16)
    } else if bitrate == 95_238 {
        Some(0xC34Eu16)
    } else if bitrate == 83_333 {
        Some(0x852Bu16)
    } else if bitrate == 50_000 {
        Some(0x472Fu16)
    } else if bitrate == 47_619 {
        Some(0x1414u16)
    } else if bitrate == 33_333 {
        Some(0x8B2Fu16)
    } else if bitrate == 20_000 {
        Some(0x532Fu16)
    } else if bitrate == 10_000 {
        Some(0x672Fu16)
    } else if bitrate == 5_000 {
        Some(0x7F7Fu16)
    } else {
        None
    }
}

/// The bit rate a BTR0/BTR1 pair sets on an SJA1000-style controller clocked at
/// 16 MHz (as PCAN-USB's is): a time quantum lasts `2 * (BRP + 1) / 16 MHz`, with
/// BRP in BTR0's low six bits, and a bit lasts `1 + (TSEG1 + 1) + (TSEG2 + 1)`
/// quanta, with TSEG1 in BTR1's low four bits and TSEG2 in its next three; rounded
/// down to whole bits per second.
pub open spec fn btr_bitrate(v: u16) -> int {
    let brp: int = (v as int / 256) % 64;
    let tseg1: int = v as int % 16;
    let tseg2: int = (v as int / 16) % 8;
    8_000_000int / ((brp + 1) * (tseg1 + tseg2 + 3))
}

/// The bit rate of a register pair, from its three fields.
proof fn lemma_btr_parts(v: u16, brp: int, tseg1: int, tseg2: int)
    requires
        (v as int / 256) % 64 == brp,
        v as int % 16 == tseg1,
        (v as int / 16) % 8 == tseg2,
    ensures
        btr_bitrate(v) == 8_000_000int / ((brp + 1) * (tseg1 + tseg2 + 3)),
{
}

/// Every supported bit rate selects a register pair that sets exactly that bit rate,
/// so no two supported bit rates share a register pair.
pub proof fn btr_sets_its_bitrate(bitrate: int, other: int)
    ensures
        btr_of(bitrate) matches Some(v) ==> btr_bitrate(v) == bitrate,
        btr_of(bitrate) is Some && btr_of(bitrate) == btr_of(other) ==> bitrate == other,
{
    lemma_btr_parts(0x0014, 0, 4, 1);
    assert(8_000_000int / ((0int + 1) * (4int + 1int + 3)) == 1000000) by (nonlinear_arith);
    lemma_btr_parts(0x0016, 0, 6, 1);
    assert(8_000_000int / ((0int + 1) * (6int + 1int + 3)) == 800000) by (nonlinear_arith);
    lemma_btr_parts(0x001C, 0, 12, 1);
    assert(8_000_000int / ((0int + 1) * (12int + 1int + 3)) == 500000) by (nonlinear_arith);
    lemma_btr_parts(0x011C, 1, 12, 1);
    assert(8_000_000int / ((1int + 1) * (12int + 1int + 3)) == 250000) by (nonlinear_arith);
    lemma_btr_parts(0x031C, 3, 12, 1);
    assert(8_000_000int / ((3int + 1) * (12int + 1int + 3)) == 125000) by (nonlinear_arith);
    lemma_btr_parts(0x432F, 3, 15, 2);
    assert(8_000_000int / ((3int + 1) * (15int + 2int + 3)) == 100000) by (nonlinear_arith);
    lemma_btr_parts(0xC34E, 3, 14, 4);
    assert(8_000_000int / ((3int + 1) * (14int + 4int + 3)) == 95238) by (nonlinear_arith);
    lemma_btr_parts(0x852B, 5, 11, 2);
    assert(8_000_000int / ((5int + 1) * (11int + 2int + 3)) == 83333) by (nonlinear_arith);
    lemma_btr_parts(0x472F, 7, 15, 2);
    assert(8_000_000int / ((7int + 1) * (15int + 2int + 3)) == 50000) by (nonlinear_arith);
    lemma_btr_parts(0x1414, 20, 4, 1);
    assert(8_000_000int / ((20int + 1) * (4int + 1int + 3)) == 47619) by (nonlinear_arith);
    lemma_btr_parts(0x8B2F, 11, 15, 2);
    assert(8_000_000int / ((11int + 1) * (15int + 2int + 3)) == 33333) by (nonlinear_arith);
    lemma_btr_parts(0x532F, 19, 15, 2);
    assert(8_000_000int / ((19int + 1) * (15int + 2int + 3)) == 20000) by (nonlinear_arith);
    lemma_btr_parts(0x672F, 39, 15, 2);
    assert(8_000_000int / ((39int + 1) * (15int + 2int + 3)) == 10000) by (nonlinear_arith);
    lemma_btr_parts(0x7F7F, 63, 15, 7);
    assert(8_000_000int / ((63int + 1) * (15int + 7int + 3)) == 5000) by (nonlinear_arith);
}

/// The BTR0/BTR1 value PCAN-Basic expects for `bitrate`, if it is supported.
pub fn bitrate_to_btr0btr1(bitrate: u32) -> (r: Option<u16>)
    ensures
        r == btr_of(bitrate as int),
{
    match bitrate {
        1_000_000 => Some(0x0014),
        800_000 => Some(0x0016),
        500_000 => Some(0x001C),
        250_000 => Some(0x011C),
        125_000 => Some(0x031C),
        100_000 => Some(0x432F),
        95_238 => Some(0xC34E),
        83_333 => Some(0x852B),
        50_000 => Some(0x472F),
        47_619 => Some(0x1414),
        33_333 => Some(0x8B2F),
        20_000 => Some(0x532F),
        10_000 => Some(0x672F),
        5_000 => Some(0x7F7F),
        _ => None,
    }
}

/// The text of an "invalid ... in channel" error: what was read, the channel as given, and why.
pub open spec fn channel_part_error(what: Seq<char>, input: Seq<char>, k: IntErrorKind) -> Seq<char> {
    "invalid "@ + what + " in channel '"@ + input + "': "@ + int_error_text(k)
}

pub open spec fn unsupported_bitrate_text(bitrate: nat) -> Seq<char> {
    "unsupported bitrate "@ + dec_text(bitrate)
        + ", expected one of [1000000,800000,500000,250000,125000,100000,50000,20000,10000,5000]"@
}

pub open spec fn unsupported_channel_text(input: Seq<char>) -> Seq<char> {
    "unsupported channel '"@ + input + "', use can0/canN/PCAN_USBBUS1/0x51 and optional '@bitrate'"@
}

/// The channel name part of a channel string (before any `@`), trimmed.
pub open spec fn channel_name_part(input: Seq<char>) -> Seq<char> {
    let t = trim(input);
    match first_index_of(t, '@') {
        Some(i) => trim(t.subrange(0, i)),
        None => t,
    }
}

/// The bit rate a channel string asks for: 1 Mbit/s when it has no `@`.
pub open spec fn channel_bitrate(input: Seq<char>) -> Result<int, Seq<char>> {
    let t = trim(input);
    match first_index_of(t, '@') {
        Some(i) => match parse_uint(trim(t.subrange(i + 1, t.len() as int)), 10, u32::MAX as int) {
            Ok(b) => Ok(b),
            Err(k) => Err(channel_part_error("bitrate"@, input, k)),
        },
        None => Ok(1_000_000),
    }
}

/// `PCAN_USBBUS1 + offset`, unless it does not fit a handle.
pub open spec fn offset_handle(offset: int) -> Result<u16, Seq<char>> {
    if PCAN_USBBUS1 + offset > u16::MAX {
        Err("channel index overflow"@)
    } else {
        Ok((PCAN_USBBUS1 + offset) as u16)
    }
}

/// The PCAN handle a channel name stands for: `can0` (any case), `canN`,
/// `PCAN_USBBUSn` (any case, `n` from 1), `0x..` in hexadecimal, or a decimal handle.
pub open spec fn channel_handle(input: Seq<char>, chan: Seq<char>) -> Result<u16, Seq<char>> {
    if lower_seq(chan) == "can0"@ {
        Ok(PCAN_USBBUS1)
    } else if has_prefix(chan, "can"@) {
        match parse_uint(chan.subrange(3, chan.len() as int), 10, u16::MAX as int) {
            Err(k) => Err(channel_part_error("can index"@, input, k)),
            Ok(idx) => offset_handle(idx),
        }
    } else if has_prefix(upper_seq(chan), "PCAN_USBBUS"@) {
        match parse_uint(upper_seq(chan).subrange(11, chan.len() as int), 10, u16::MAX as int) {
            Err(k) => Err(channel_part_error("PCAN_USBBUS"@, input, k)),
            Ok(n) => if n == 0 {
                Err("PCAN_USBBUS index must start from 1"@)
            } else {
                offset_handle(n - 1)
            },
        }
    } else if has_prefix(chan, "0x"@) {
        match parse_uint(chan.subrange(2, chan.len() as int), 16, u16::MAX as int) {
            Err(k) => Err(channel_part_error("hex handle"@, input, k)),
            Ok(h) => Ok(h as u16),
        }
    } else {
        match parse_uint(chan, 10, u16::MAX as int) {
            Ok(h) => Ok(h as u16),
            Err(_) => Err(unsupported_channel_text(input)),
        }
    }
}

/// `canN` and `PCAN_USBBUS(N+1)` name the same PCAN channel.
pub proof fn can_alias_matches_usbbus(input: Seq<char>, other: Seq<char>, n: nat)
    requires
        n < u16::MAX,
    ensures
        channel_handle(input, "can"@ + dec_text(n)) == channel_handle(
            other,
            "PCAN_USBBUS"@ + dec_text(n + 1),
        ),
{
    reveal_strlit("can0");
    reveal_strlit("can");
    reveal_strlit("PCAN_USBBUS");
    let d = dec_text(n);
    let e = dec_text(n + 1);
    radix_text_reads_back(n, 10, u16::MAX as int);
    radix_text_reads_back((n + 1) as nat, 10, u16::MAX as int);
    assert(parse_uint(d, 10, u16::MAX as int) == Ok::<int, IntErrorKind>(n as int));
    assert(parse_uint(e, 10, u16::MAX as int) == Ok::<int, IntErrorKind>(n + 1int));
    let a = "can"@ + d;
    let b = "PCAN_USBBUS"@ + e;
    assert(lower_seq(a) =~= a) by {
        assert forall|i: int| 0 <= i < a.len() implies lower(a[i]) == a[i] by {
            if i >= 3 {
                assert(a[i] == d[i - 3]);
            }
        }
    }
    assert(a.subrange(0, 3) =~= "can"@);
    assert(a.subrange(3, a.len() as int) =~= d);
    if lower_seq(a) == "can0"@ {
        assert(d =~= a.subrange(3, 4));
        assert(d =~= seq!['0']);
        assert(digits_value(seq!['0'], 10, u16::MAX as int) == Ok::<int, IntErrorKind>(0)) by {
            let z = seq!['0'];
            assert(z.drop_last() =~= Seq::<char>::empty());
            assert(digits_value(z.drop_last(), 10, u16::MAX as int) == Ok::<int, IntErrorKind>(0));
            assert(z.last() == '0');
            assert(digit_of('0', 10) == Some(0nat));
        }
        assert(n == 0);
    }
    assert(b.len() >= 12);
    assert(lower_seq(b).len() == b.len() && "can0"@.len() == 4);
    assert(lower_seq(b) != "can0"@);
    assert(b[0] == 'P');
    assert(!has_prefix(b, "can"@)) by {
        if has_prefix(b, "can"@) {
            assert(b.subrange(0, 3)[0] == 'c');
        }
    }
    assert(upper_seq(b) =~= b) by {
        assert forall|i: int| 0 <= i < b.len() implies upper(b[i]) == b[i] by {
            if i >= 11 {
                assert(b[i] == e[i - 11]);
            }
        }
    }
    assert(b.subrange(0, 11) =~= "PCAN_USBBUS"@);
    assert(b.subrange(11, b.len() as int) =~= e);
}

/// The handle that `canN` names.
proof fn lemma_can_handle(input: Seq<char>, n: nat)
    requires
        n <= u16::MAX,
    ensures
        channel_handle(input, "can"@ + dec_text(n)) == offset_handle(n as int),
        forall|k: int|
            0 <= k < ("can"@ + dec_text(n)).len() ==> !is_ws(#[trigger] ("can"@ + dec_text(n))[k])
                && ("can"@ + dec_text(n))[k] != '@',
{
    reveal_strlit("can0");
    reveal_strlit("can");
    let d = dec_text(n);
    radix_text_reads_back(n, 10, u16::MAX as int);
    assert(parse_uint(d, 10, u16::MAX as int) == Ok::<int, IntErrorKind>(n as int));
    let a = "can"@ + d;
    assert forall|k: int| 0 <= k < a.len() implies !is_ws(#[trigger] a[k]) && a[k] != '@' by {
        if k >= 3 {
            assert(a[k] == d[k - 3]);
        }
    }
    assert(lower_seq(a) =~= a) by {
        assert forall|i: int| 0 <= i < a.len() implies lower(a[i]) == a[i] by {
            if i >= 3 {
                assert(a[i] == d[i - 3]);
            }
        }
    }
    assert(a.subrange(0, 3) =~= "can"@);
    assert(a.subrange(3, a.len() as int) =~= d);
    if lower_seq(a) == "can0"@ {
        assert(d =~= a.subrange(3, 4));
        assert(d =~= seq!['0']);
        assert(digits_value(seq!['0'], 10, u16::MAX as int) == Ok::<int, IntErrorKind>(0)) by {
            let z = seq!['0'];
            assert(z.drop_last() =~= Seq::<char>::empty());
            assert(digits_value(z.drop_last(), 10, u16::MAX as int) == Ok::<int, IntErrorKind>(0));
            assert(z.last() == '0');
            assert(digit_of('0', 10) == Some(0nat));
        }
        assert(n == 0);
    }
}

/// `PCAN_USBBUSn` has neither white space nor `@` in it.
proof fn lemma_usbbus_plain(n: nat)
    ensures
        forall|k: int|
            0 <= k < ("PCAN_USBBUS"@ + dec_text(n)).len() ==> !is_ws(
                #[trigger] ("PCAN_USBBUS"@ + dec_text(n))[k],
            ) && ("PCAN_USBBUS"@ + dec_text(n))[k] != '@',
{
    reveal_strlit("PCAN_USBBUS");
    let d = dec_text(n);
    radix_text_reads_back(n, 10, n as int);
    let b = "PCAN_USBBUS"@ + d;
    assert forall|k: int| 0 <= k < b.len() implies !is_ws(#[trigger] b[k]) && b[k] != '@' by {
        if k >= 11 {
            assert(b[k] == d[k - 11]);
        }
    }
}

/// A channel name without `@` selects 1 Mbit/s and is its own name part.
proof fn lemma_no_rate(name: Seq<char>)
    requires
        forall|k: int| 0 <= k < name.len() ==> !is_ws(#[trigger] name[k]) && name[k] != '@',
    ensures
        channel_name_part(name) == name,
        channel_bitrate(name) == Ok::<int, Seq<char>>(1_000_000),
{
    lemma_trim_plain(name);
    assert(!(exists|i: int| 0 <= i < name.len() && name[i] == '@'));
}

/// A channel name, `@` and a decimal bit rate, with no white space in them.
proof fn lemma_with_rate(name: Seq<char>, rate: nat)
    requires
        rate <= u32::MAX,
        forall|k: int| 0 <= k < name.len() ==> !is_ws(#[trigger] name[k]) && name[k] != '@',
    ensures
        channel_name_part(name + "@"@ + dec_text(rate)) == name,
        channel_bitrate(name + "@"@ + dec_text(rate)) == Ok::<int, Seq<char>>(rate as int),
{
    reveal_strlit("@");
    let e = dec_text(rate);
    radix_text_reads_back(rate, 10, u32::MAX as int);
    assert(parse_uint(e, 10, u32::MAX as int) == Ok::<int, IntErrorKind>(rate as int));
    let s = name + "@"@ + e;
    let m = name.len() as int;
    assert(s[m] == '@');
    assert forall|k: int| 0 <= k < s.len() implies !is_ws(#[trigger] s[k]) by {
        if k < m {
            assert(s[k] == name[k]);
        } else if k > m {
            assert(s[k] == e[k - m - 1]);
        }
    }
    assert forall|k: int| 0 <= k < e.len() implies !is_ws(#[trigger] e[k]) by {
        assert(e[k] == s[m + 1 + k]);
    }
    lemma_trim_plain(s);
    lemma_trim_plain(name);
    lemma_trim_plain(e);
    assert(exists|i: int| 0 <= i < s.len() && s[i] == '@');
    let i = choose|i: int| 0 <= i < s.len() && s[i] == '@' && forall|k: int| 0 <= k < i ==> s[k] != '@';
    assert(forall|k: int| 0 <= k < m ==> s[k] == name[k]);
    assert(i == m) by {
        if i < m {
            assert(s[i] == name[i]);
        } else if i > m {
            assert(s[m] != '@');
        }
    }
    assert(first_index_of(s, '@') == Some(m));
    assert(s.subrange(0, m) =~= name);
    assert(s.subrange(m + 1, s.len() as int) =~= e);
}

/// `canN` selects handle `PCAN_USBBUS1 + N` at 1 Mbit/s (BTR0/BTR1 `0x0014`);
/// `canN@bitrate` selects the same handle with that bit rate's BTR0/BTR1 value; and
/// `PCAN_USBBUS(N+1)@bitrate` selects the same as `canN@bitrate`.
pub proof fn can_channel_selects(n: nat, bitrate: nat)
    requires
        PCAN_USBBUS1 + n <= u16::MAX,
        bitrate <= u32::MAX,
        btr_of(bitrate as int) is Some,
    ensures
        channel_spec("can"@ + dec_text(n)) == Ok::<(u16, u16), Seq<char>>(
            ((PCAN_USBBUS1 + n) as u16, 0x0014u16),
        ),
        channel_spec("can"@ + dec_text(n) + "@"@ + dec_text(bitrate)) == Ok::<(u16, u16), Seq<char>>(
            ((PCAN_USBBUS1 + n) as u16, btr_of(bitrate as int).unwrap()),
        ),
        channel_spec("PCAN_USBBUS"@ + dec_text(n + 1) + "@"@ + dec_text(bitrate)) == channel_spec(
            "can"@ + dec_text(n) + "@"@ + dec_text(bitrate),
        ),
{
    let a = "can"@ + dec_text(n);
    let b = "PCAN_USBBUS"@ + dec_text(n + 1);
    let e = dec_text(bitrate);
    let sa = a + "@"@ + e;
    let sb = b + "@"@ + e;
    let btr = btr_of(bitrate as int).unwrap();
    assert(btr_of(1_000_000) == Some(0x0014u16));
    assert(offset_handle(n as int) == Ok::<u16, Seq<char>>((PCAN_USBBUS1 + n) as u16));
    assert(channel_spec(a) == Ok::<(u16, u16), Seq<char>>(((PCAN_USBBUS1 + n) as u16, 0x0014u16))) by {
        lemma_can_handle(a, n);
        lemma_no_rate(a);
    }
    assert(channel_spec(sa) == Ok::<(u16, u16), Seq<char>>(((PCAN_USBBUS1 + n) as u16, btr))) by {
        lemma_can_handle(sa, n);
        lemma_with_rate(a, bitrate);
    }
    assert(channel_spec(sb) == channel_spec(sa)) by {
        lemma_can_handle(sa, n);
        lemma_with_rate(a, bitrate);
        lemma_usbbus_plain(n + 1);
        lemma_with_rate(b, bitrate);
        can_alias_matches_usbbus(sa, sb, n);
    }
}

/// What a channel string such as `can1@500000` selects: the PCAN handle and the
/// BTR0/BTR1 value, or the text of the error.
pub open spec fn channel_spec(input: Seq<char>) -> Result<(u16, u16), Seq<char>> {
    match channel_bitrate(input) {
        Err(m) => Err(m),
        Ok(b) => match btr_of(b) {
            None => Err(unsupported_bitrate_text(b as nat)),
            Some(btr) => match channel_handle(input, channel_name_part(input)) {
                Err(m) => Err(m),
                Ok(h) => Ok((h, btr)),
            },
        },
    }
}

fn part_error(what: &str, input: &str, k: IntErrorKind) -> (e: MotorError)
    ensures
        e matches MotorError::InvalidArgument(m) && m@ == channel_part_error(what@, input@, k),
{
    let mut m = String::from_str("invalid ");
    m.append(what);
    m.append(" in channel '");
    m.append(input);
    m.append("': ");
    let t = int_error_message(k);
    m.append(t.as_str());
    MotorError::InvalidArgument(m)
}

fn handle_from_offset(offset: u64) -> (r: Result<u16, MotorError>)
    requires
        offset <= u16::MAX,
    ensures
        match offset_handle(offset as int) {
            Ok(h) => r matches Ok(x) && x == h,
            Err(m) => r matches Err(MotorError::InvalidArgument(e)) && e@ == m,
        },
{
    if offset > (u16::MAX - PCAN_USBBUS1) as u64 {
        Err(MotorError::InvalidArgument(String::from_str("channel index overflow")))
    } else {
        Ok(PCAN_USBBUS1 + offset as u16)
    }
}

/// Parses a PCAN channel string: the channel name (`can0`, `canN`, `PCAN_USBBUSn`,
/// `0x51`, `81`) and an optional `@bitrate`; white space around either part is ignored.
pub fn parse_channel_and_bitrate(input: &str) -> (r: Result<(u16, u16), MotorError>)
    ensures
        match channel_spec(input@) {
            Ok(v) => r matches Ok(x) && x == v,
            Err(m) => r matches Err(MotorError::InvalidArgument(e)) && e@ == m,
        },
{
    let all = chars_of(input);
    let t = trim_chars(all.as_slice());
    let at = find_char(t.as_slice(), '@');
    let bitrate: u32;
    let chan: Vec<char>;
    match at {
        Some(i) => {
            assert(i < t.len());
            chan = trim_chars(slice_range(t.as_slice(), 0, i).as_slice());
            let raw = trim_chars(slice_range(t.as_slice(), i + 1, t.len()).as_slice());
            match parse_uint_chars(raw.as_slice(), 10, u32::MAX as u64) {
                Ok(b) => {
                    bitrate = b as u32;
                },
                Err(k) => {
                    return Err(part_error("bitrate", input, k));
                },
            }
        },
        None => {
            chan = t;
            bitrate = 1_000_000;
        },
    }
    assert(chan@ == channel_name_part(input@));
    assert(channel_bitrate(input@) == Ok::<int, Seq<char>>(bitrate as int));
    let btr = match bitrate_to_btr0btr1(bitrate) {
        Some(b) => b,
        None => {
            let mut m = String::from_str("unsupported bitrate ");
            push_dec(&mut m, bitrate as u64);
            m.append(
                ", expected one of [1000000,800000,500000,250000,125000,100000,50000,20000,10000,5000]",
            );
            return Err(MotorError::InvalidArgument(m));
        },
    };
    match channel_handle_of(input, chan.as_slice()) {
        Ok(h) => Ok((h, btr)),
        Err(e) => Err(e),
    }
}

fn channel_handle_of(input: &str, chan: &[char]) -> (r: Result<u16, MotorError>)
    ensures
        match channel_handle(input@, chan@) {
            Ok(h) => r matches Ok(x) && x == h,
            Err(m) => r matches Err(MotorError::InvalidArgument(e)) && e@ == m,
        },
{
    let lowered = to_ascii_lower(chan);
    let can0 = chars_of("can0");
    if chars_eq(lowered.as_slice(), can0.as_slice()) {
        return Ok(PCAN_USBBUS1);
    }
    let can = chars_of("can");
    if starts_with(chan, can.as_slice()) {
        proof {
            reveal_strlit("can");
        }
        let rest = slice_range(chan, 3, chan.len());
        return match parse_uint_chars(rest.as_slice(), 10, u16::MAX as u64) {
            Err(k) => Err(part_error("can index", input, k)),
            Ok(idx) => handle_from_offset(idx),
        };
    }
    let up = to_ascii_upper(chan);
    let usbbus = chars_of("PCAN_USBBUS");
    if starts_with(up.as_slice(), usbbus.as_slice()) {
        proof {
            reveal_strlit("PCAN_USBBUS");
        }
        let rest = slice_range(up.as_slice(), 11, up.len());
        return match parse_uint_chars(rest.as_slice(), 10, u16::MAX as u64) {
            Err(k) => Err(part_error("PCAN_USBBUS", input, k)),
            Ok(n) => {
                if n == 0 {
                    Err(
                        MotorError::InvalidArgument(
                            String::from_str("PCAN_USBBUS index must start from 1"),
                        ),
                    )
                } else {
                    handle_from_offset(n - 1)
                }
            },
        };
    }
    let hex = chars_of("0x");
    if starts_with(chan, hex.as_slice()) {
        proof {
            reveal_strlit("0x");
        }
        let rest = slice_range(chan, 2, chan.len());
        return match parse_uint_chars(rest.as_slice(), 16, u16::MAX as u64) {
            Err(k) => Err(part_error("hex handle", input, k)),
            Ok(h) => Ok(h as u16),
        };
    }
    match parse_uint_chars(chan, 10, u16::MAX as u64) {
        Ok(h) => Ok(h as u16),
        Err(_) => {
            let mut m = String::from_str("unsupported channel '");
            m.append(input);
            m.append("', use can0/canN/PCAN_USBBUS1/0x51 and optional '@bitrate'");
            Err(MotorError::InvalidArgument(m))
        },
    }
}

/// The error for a PCAN-Basic call that returned `status`: `prefix`, then the status in hex.
pub open spec fn pcan_status_text(prefix: Seq<char>, status: u32) -> Seq<char> {
    prefix + ": PCAN status=0x"@ + hex_text(status as nat, 8)
}

pub fn pcan_status_to_error(prefix: &str, status: u32) -> (e: MotorError)
    ensures
        e matches MotorError::Io(m) && m@ == pcan_status_text(prefix@, status),
{
    let mut m = String::from_str(prefix);
    m.append(": PCAN status=0x");
    push_hex(&mut m, status as u64, 8);
    MotorError::Io(m)
}

/// The message record PCAN-Basic reads and writes (`TPCANMsg`).
#[derive(Clone, Copy, Debug)]
pub struct PcanMessage {
    pub id: u32,
    pub msg_type: u8,
    pub len: u8,
    pub data: [u8; 8],
}

/// How many times a failed PCAN read or write reopens the channel before giving up.
pub const RECONNECT_MAX_ATTEMPTS: usize = 3;

/// The pause after the `attempt`-th failed reopening (from 0): 20, 100, then 300 ms;
/// `None` past the last attempt.
pub fn reconnect_backoff_ms(attempt: usize) -> (r: Option<u64>)
    ensures
        r == (if attempt == 0 {
            Some(20u64)
        } else if attempt == 1 {
            Some(100u64)
        } else if attempt == 2 {
            Some(300u64)
        } else {
            None
        }),
{
    if attempt == 0 {
        Some(20)
    } else if attempt == 1 {
        Some(100)
    } else if attempt == 2 {
        Some(300)
    } else {
        None
    }
}

/// A PCAN message's content.
pub struct PcanView {
    pub id: u32,
    pub msg_type: u8,
    pub len: u8,
    pub data: Seq<u8>,
}

impl View for PcanMessage {
    type V = PcanView;

    open spec fn view(&self) -> PcanView {
        PcanView { id: self.id, msg_type: self.msg_type, len: self.len, data: self.data@ }
    }
}

/// The PCAN message for a frame of at most eight bytes.
pub open spec fn pcan_message(frame: FrameView) -> PcanView {
    PcanView {
        id: frame.arbitration_id,
        msg_type: if frame.is_extended {
            PCAN_MESSAGE_EXTENDED
        } else {
            PCAN_MESSAGE_STANDARD
        },
        len: frame.dlc,
        data: frame.data,
    }
}

/// The received frame a PCAN message stands for; lengths above eight count as eight.
pub open spec fn pcan_received(msg: PcanView) -> FrameView {
    FrameView {
        arbitration_id: msg.id,
        data: msg.data,
        dlc: if msg.len <= 8 {
            msg.len
        } else {
            8u8
        },
        is_extended: msg.msg_type & PCAN_MESSAGE_EXTENDED != 0,
        is_rx: true,
    }
}

pub open spec fn invalid_dlc_text(dlc: u8) -> Seq<char> {
    "invalid DLC "@ + dec_text(dlc as nat) + ", expected <= 8"@
}

/// The PCAN message that sends `frame`; frames claiming more than eight bytes are refused.
pub fn pcan_message_of(frame: CanFrame) -> (r: Result<PcanMessage, MotorError>)
    ensures
        frame.dlc <= 8 ==> (r matches Ok(m) && m@ == pcan_message(frame@)),
        frame.dlc > 8 ==> (r matches Err(MotorError::InvalidArgument(e)) && e@ == invalid_dlc_text(
            frame.dlc,
        )),
{
    if frame.dlc > 8 {
        let mut m = String::from_str("invalid DLC ");
        push_dec(&mut m, frame.dlc as u64);
        m.append(", expected <= 8");
        return Err(MotorError::InvalidArgument(m));
    }
    Ok(
        PcanMessage {
            id: frame.arbitration_id,
            msg_type: if frame.is_extended {
                PCAN_MESSAGE_EXTENDED
            } else {
                PCAN_MESSAGE_STANDARD
            },
            len: frame.dlc,
            data: frame.data,
        },
    )
}

/// The received frame a PCAN message stands for; lengths above eight count as eight.
pub fn frame_of_pcan_message(msg: PcanMessage) -> (f: CanFrame)
    ensures
        f@ == pcan_received(msg@),
{
    CanFrame {
        arbitration_id: msg.id,
        data: msg.data,
        dlc: if msg.len <= 8 {
            msg.len
        } else {
            8
        },
        is_extended: (msg.msg_type & PCAN_MESSAGE_EXTENDED) != 0,
        is_rx: true,
    }
}

/// A frame sent through PCAN and read back is the same frame, now received: for
/// frames of at most eight bytes, standard or extended.
pub proof fn pcan_round_trip(frame: FrameView)
    requires
        frame.dlc <= 8,
    ensures
        pcan_received(pcan_message(frame)) == as_received(frame),
{
    assert(0x02u8 & 0x02u8 != 0 && 0x00u8 & 0x02u8 == 0) by (bit_vector);
}

} // verus!
