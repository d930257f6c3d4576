//! Which numbers the parser can count.
//!
//! The `json` crate keeps the decimal exponent of a number in an `i16`. It
//! guards the count upwards, for digits before the decimal point that the
//! mantissa has no room for, but not downwards, for the digits of a
//! fraction: a fraction that takes the exponent below the least `i16` must
//! not reach the parser.
//!
//! This module follows a text byte by byte, as far as is needed to know
//! where its strings and its numbers are and what the exponent of each
//! number comes to. It keeps to the parser's own rules:
//!
//! - a string runs from a quote to the next quote that no backslash stands
//!   before, and no number begins inside it;
//! - a number begins with a digit; after a leading zero only a decimal point
//!   or an exponent goes on with it;
//! - a digit joins the mantissa while the mantissa stays within `u64`; a
//!   digit before the point that does not fit raises the exponent by one, a
//!   digit of the fraction that does not fit is dropped, and one that fits
//!   lowers the exponent by one;
//! - an exponent is an `e`, a sign if there is one, and digits.
//!
//! As long as the parser finds no fault with a text, it stands where this
//! scan stands. It may find fault where the scan goes on; whether it gets as
//! far as a given number is therefore for the parser to say, not for this
//! module.

use crate::text::is_digit;
use vstd::prelude::*;

verus! {

/// Where in a text the scan stands.
#[derive(Clone, Copy)]
pub enum Mode {
    /// Between tokens.
    Outside,
    /// Inside a string.
    Text,
    /// Inside a string, after a backslash.
    Escape,
    /// After the zero that a number begins with.
    Zero,
    /// Among the digits before the decimal point.
    Whole,
    /// After the decimal point, before the first digit of the fraction.
    Point,
    /// Among the digits of the fraction.
    Fraction,
    /// After the `e` of an exponent.
    ExponentSign,
    /// After the sign of an exponent.
    ExponentFirst,
    /// Among the digits of an exponent.
    Exponent,
    /// In or behind a number whose fraction cannot be counted.
    Lost,
}

/// The state of a scan: where it stands and, in a number, the mantissa and
/// the decimal exponent read so far and the place of its first digit.
#[derive(Clone, Copy)]
pub struct Scan {
    pub mode: Mode,
    pub num: u64,
    pub e: i32,
    pub start: usize,
}

/// The least exponent that can be counted.
pub const LEAST: i32 = -32768;

/// The greatest exponent that can be counted.
pub const GREATEST: i32 = 32767;

/// Whether `byte` begins an exponent.
pub open spec fn is_e(byte: u8) -> bool {
    byte == 0x65 || byte == 0x45
}

/// Whether `byte` is the sign of an exponent.
pub open spec fn is_sign(byte: u8) -> bool {
    byte == 0x2b || byte == 0x2d
}

/// Whether the mantissa has room for one more digit.
pub open spec fn fits(num: u64, byte: u8) -> bool {
    num * 10 + (byte - 0x30) <= u64::MAX
}

/// The mantissa with one more digit.
pub open spec fn grown(num: u64, byte: u8) -> u64 {
    (num * 10 + (byte - 0x30)) as u64
}

/// The state in the given mode, all else as in `s`.
pub open spec fn moved(s: Scan, mode: Mode) -> Scan {
    Scan { mode, num: s.num, e: s.e, start: s.start }
}

/// What the byte at `at` begins where no token is open: a string, a number,
/// or nothing.
pub open spec fn begun(byte: u8, at: usize) -> Scan {
    if byte == 0x22 {
        Scan { mode: Mode::Text, num: 0, e: 0, start: at }
    } else if byte == 0x30 {
        Scan { mode: Mode::Zero, num: 0, e: 0, start: at }
    } else if is_digit(byte) {
        Scan { mode: Mode::Whole, num: (byte - 0x30) as u64, e: 0, start: at }
    } else {
        Scan { mode: Mode::Outside, num: 0, e: 0, start: at }
    }
}

/// A digit before the decimal point: it goes into the mantissa while that
/// has room, and raises the exponent by one when it has none. Where the
/// exponent cannot be raised the number ends.
pub open spec fn whole_digit(s: Scan, byte: u8, at: usize) -> Scan {
    if fits(s.num, byte) {
        Scan { mode: Mode::Whole, num: grown(s.num, byte), e: s.e, start: s.start }
    } else if s.e < GREATEST {
        Scan { mode: Mode::Whole, num: s.num, e: (s.e + 1) as i32, start: s.start }
    } else {
        begun(byte, at)
    }
}

/// A digit of the fraction: it goes into the mantissa and lowers the
/// exponent by one while the mantissa has room, and is dropped when it has
/// none. Where the exponent cannot be lowered the number is lost.
pub open spec fn fraction_digit(s: Scan, byte: u8) -> Scan {
    if !fits(s.num, byte) {
        moved(s, Mode::Fraction)
    } else if s.e > LEAST {
        Scan { mode: Mode::Fraction, num: grown(s.num, byte), e: (s.e - 1) as i32, start: s.start }
    } else {
        moved(s, Mode::Lost)
    }
}

/// The state after the byte at `at`.
pub open spec fn step(s: Scan, byte: u8, at: usize) -> Scan {
    match s.mode {
        Mode::Lost => s,
        Mode::Outside => begun(byte, at),
        Mode::Text => if byte == 0x22 {
            moved(s, Mode::Outside)
        } else if byte == 0x5c {
            moved(s, Mode::Escape)
        } else {
            s
        },
        Mode::Escape => moved(s, Mode::Text),
        Mode::Zero => if byte == 0x2e {
            moved(s, Mode::Point)
        } else if is_e(byte) {
            moved(s, Mode::ExponentSign)
        } else {
            begun(byte, at)
        },
        Mode::Whole => if is_digit(byte) {
            whole_digit(s, byte, at)
        } else if byte == 0x2e {
            moved(s, Mode::Point)
        } else if is_e(byte) {
            moved(s, Mode::ExponentSign)
        } else {
            begun(byte, at)
        },
        Mode::Point => if is_digit(byte) {
            fraction_digit(s, byte)
        } else {
            begun(byte, at)
        },
        Mode::Fraction => if is_digit(byte) {
            fraction_digit(s, byte)
        } else if is_e(byte) {
            moved(s, Mode::ExponentSign)
        } else {
            begun(byte, at)
        },
        Mode::ExponentSign => if is_sign(byte) {
            moved(s, Mode::ExponentFirst)
        } else if is_digit(byte) {
            moved(s, Mode::Exponent)
        } else {
            begun(byte, at)
        },
        Mode::ExponentFirst => if is_digit(byte) {
            moved(s, Mode::Exponent)
        } else {
            begun(byte, at)
        },
        Mode::Exponent => if is_digit(byte) {
            s
        } else {
            begun(byte, at)
        },
    }
}

/// The state before the first byte.
pub open spec fn initial() -> Scan {
    Scan { mode: Mode::Outside, num: 0, e: 0, start: 0 }
}

/// The state after the first `k` bytes.
pub open spec fn scanned(bytes: Seq<u8>, k: nat) -> Scan
    decreases k,
{
    if k == 0 {
        initial()
    } else {
        step(scanned(bytes, (k - 1) as nat), bytes[k - 1], (k - 1) as usize)
    }
}

/// Where the first number begins whose fraction cannot be counted, if there
/// is one.
pub open spec fn uncountable(bytes: Seq<u8>) -> Option<usize> {
    let end = scanned(bytes, bytes.len());
    if end.mode is Lost {
        Some(end.start)
    } else {
        None
    }
}

/// Whether the scan stands in a number.
pub open spec fn in_number(mode: Mode) -> bool {
    !(mode is Outside || mode is Text || mode is Escape)
}

/// A number that the scan stands in began with a digit before the place
/// where the scan stands, and was not lost by then.
pub open spec fn anchored(bytes: Seq<u8>, k: nat) -> bool {
    let s = scanned(bytes, k);
    in_number(s.mode) ==> {
        &&& s.start < k
        &&& is_digit(bytes[s.start as int])
        &&& !(scanned(bytes, (s.start + 1) as nat).mode is Lost)
    }
}

/// The scan of a text is the scan of each of its beginnings.
pub proof fn lemma_scan_of_prefix(bytes: Seq<u8>, m: nat, k: nat)
    requires
        k <= m <= bytes.len(),
    ensures
        scanned(bytes.take(m as int), k) == scanned(bytes, k),
    decreases k,
{
    if k > 0 {
        lemma_scan_of_prefix(bytes, m, (k - 1) as nat);
    }
}

/// Every number that the scan comes to stand in is anchored.
pub proof fn lemma_anchored(bytes: Seq<u8>, k: nat)
    requires
        k <= bytes.len() <= usize::MAX,
    ensures
        anchored(bytes, k),
    decreases k,
{
    if k > 0 {
        lemma_anchored(bytes, (k - 1) as nat);
    }
}

/// The text up to the first digit of a number that cannot be counted holds
/// no such number.
pub proof fn lemma_countable_before(bytes: Seq<u8>)
    requires
        bytes.len() <= usize::MAX,
    ensures
        uncountable(bytes) matches Some(start) ==> {
            &&& start < bytes.len()
            &&& is_digit(bytes[start as int])
            &&& uncountable(bytes.take(start + 1)) is None
        },
{
    if let Some(start) = uncountable(bytes) {
        lemma_anchored(bytes, bytes.len());
        lemma_scan_of_prefix(bytes, (start + 1) as nat, (start + 1) as nat);
    }
}

/// Moves the scan over one byte.
pub fn advance(s: Scan, byte: u8, at: usize) -> (r: Scan)
    ensures
        r == step(s, byte, at),
{
    let digit = 0x30 <= byte && byte <= 0x39;
    let e = byte == 0x65 || byte == 0x45;
    let fresh = if byte == 0x22 {
        Scan { mode: Mode::Text, num: 0, e: 0, start: at }
    } else if byte == 0x30 {
        Scan { mode: Mode::Zero, num: 0, e: 0, start: at }
    } else if digit {
        Scan { mode: Mode::Whole, num: (byte - 0x30) as u64, e: 0, start: at }
    } else {
        Scan { mode: Mode::Outside, num: 0, e: 0, start: at }
    };
    let room = digit && s.num <= (u64::MAX - (byte - 0x30) as u64) / 10;
    match s.mode {
        Mode::Lost => s,
        Mode::Outside => fresh,
        Mode::Text => if byte == 0x22 {
            Scan { mode: Mode::Outside, num: s.num, e: s.e, start: s.start }
        } else if byte == 0x5c {
            Scan { mode: Mode::Escape, num: s.num, e: s.e, start: s.start }
        } else {
            s
        },
        Mode::Escape => Scan { mode: Mode::Text, num: s.num, e: s.e, start: s.start },
        Mode::Zero => if byte == 0x2e {
            Scan { mode: Mode::Point, num: s.num, e: s.e, start: s.start }
        } else if e {
            Scan { mode: Mode::ExponentSign, num: s.num, e: s.e, start: s.start }
        } else {
            fresh
        },
        Mode::Whole => if digit {
            if room {
                Scan { mode: Mode::Whole, num: s.num * 10 + (byte - 0x30) as u64, e: s.e, start: s.start }
            } else if s.e < GREATEST {
                Scan { mode: Mode::Whole, num: s.num, e: s.e + 1, start: s.start }
            } else {
                fresh
            }
        } else if byte == 0x2e {
            Scan { mode: Mode::Point, num: s.num, e: s.e, start: s.start }
        } else if e {
            Scan { mode: Mode::ExponentSign, num: s.num, e: s.e, start: s.start }
        } else {
            fresh
        },
        Mode::Point | Mode::Fraction => if digit {
            if !room {
                Scan { mode: Mode::Fraction, num: s.num, e: s.e, start: s.start }
            } else if s.e > LEAST {
                Scan { mode: Mode::Fraction, num: s.num * 10 + (byte - 0x30) as u64, e: s.e - 1, start: s.start }
            } else {
                Scan { mode: Mode::Lost, num: s.num, e: s.e, start: s.start }
            }
        } else if e && matches!(s.mode, Mode::Fraction) {
            Scan { mode: Mode::ExponentSign, num: s.num, e: s.e, start: s.start }
        } else {
            fresh
        },
        Mode::ExponentSign => if byte == 0x2b || byte == 0x2d {
            Scan { mode: Mode::ExponentFirst, num: s.num, e: s.e, start: s.start }
        } else if digit {
            Scan { mode: Mode::Exponent, num: s.num, e: s.e, start: s.start }
        } else {
            fresh
        },
        Mode::ExponentFirst => if digit {
            Scan { mode: Mode::Exponent, num: s.num, e: s.e, start: s.start }
        } else {
            fresh
        },
        Mode::Exponent => if digit {
            s
        } else {
            fresh
        },
    }
}

/// Finds the first number of a text whose fraction cannot be counted, and
/// tells where it begins.
pub fn first_uncountable(bytes: &[u8]) -> (r: Option<usize>)
    ensures
        r == uncountable(bytes@),
        r matches Some(start) ==> {
            &&& start < bytes@.len()
            &&& is_digit(bytes@[start as int])
            &&& uncountable(bytes@.take(start + 1)) is None
        },
{
    let mut s = Scan { mode: Mode::Outside, num: 0, e: 0, start: 0 };
    let mut i: usize = 0;
    while i < bytes.len()
        invariant
            i <= bytes.len(),
            s == scanned(bytes@, i as nat),
        decreases bytes.len() - i,
    {
        s = advance(s, bytes[i], i);
        i += 1;
    }
    proof {
        lemma_countable_before(bytes@);
    }
    match s.mode {
        Mode::Lost => Some(s.start),
        _ => None,
    }
}

} // verus!
