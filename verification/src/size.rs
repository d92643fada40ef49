//! Size thresholds: texts such as `500k` or `2GB`, resolved to a number of
//! bytes and compared with the size of a file.
//!
//! A threshold is one or more decimal digits followed by at most two word
//! characters that name the unit. Within ASCII the digits are `0` to `9`, and
//! the word characters are the digits, the letters `a` to `z` and `A` to `Z`,
//! and `_`. Beyond ASCII, a character is a digit or a word character where
//! the pattern library counts it to its class `\d` or `\w`. No such character
//! makes a threshold: a magnitude has to be written in `0` to `9`, and every
//! unit is spelled in ASCII. They decide only which fault is reported.
//!
//! The units: none, `b` or `B` count bytes; `k`, `kb`, `Kb`, `KB` count
//! units of 2^10 bytes; the `m`, `g` and `t` families, spelled alike, all
//! count units of 2^20 bytes. Only these spellings are units: `K` alone or
//! `kB` is none. That `g` and `t` weigh no more than `m` is deliberate: `2g`
//! and `2m` are one threshold, and rules may be written against that.
//!
//! The magnitude has to be written in `0` to `9` and to fit in 64 bits. The
//! resolved threshold is the exact product of magnitude and unit, held in 128
//! bits: no threshold that can be written wraps around.
//!
//! A file passes only if it is strictly larger than the threshold.

use crate::pattern::{compile, found_in, matched_texts, pattern_texts};
use crate::text::{all_digits, chars_of, is_digit, is_digit_char};
use regex::Regex;
use vstd::prelude::*;

verus! {

/// Why a threshold text could not be resolved.
#[derive(Debug, PartialEq, Eq)]
pub enum SizeError {
    /// The text is not digits followed by at most two word characters.
    Malformed,
    /// The digits do not write a number of 64 bits: one of them is not of `0`
    /// to `9`, or the number is too large.
    Magnitude,
    /// The suffix, held here, is not the spelling of any unit.
    UnknownUnit(String),
}

/// What a `SizeError` says, with the unit as a sequence of characters.
pub enum SizeFault {
    Malformed,
    Magnitude,
    UnknownUnit(Seq<char>),
}

impl View for SizeError {
    type V = SizeFault;

    open spec fn view(&self) -> SizeFault {
        match self {
            SizeError::Malformed => SizeFault::Malformed,
            SizeError::Magnitude => SizeFault::Magnitude,
            SizeError::UnknownUnit(unit) => SizeFault::UnknownUnit(unit@),
        }
    }
}

/// The class of digits, as the pattern library writes it.
pub const DIGIT_CLASS: &'static str = "\\d";

/// The class of word characters, as the pattern library writes it.
pub const WORD_CLASS: &'static str = "\\w";

/// Whether `c` is an ASCII character.
pub open spec fn is_plain(c: char) -> bool {
    c <= '\x7f'
}

/// Whether `c` is a character of the class written `class`: whether that
/// pattern is found in the text that holds `c` alone.
pub open spec fn class_holds(class: Seq<char>, c: char) -> bool {
    pattern_texts(class) matches Some(texts) && texts.contains(seq![c])
}

/// Whether `c` counts as a digit: within ASCII, one of `0` to `9`; beyond, a
/// character of `DIGIT_CLASS`.
pub open spec fn is_numeral(c: char) -> bool {
    if is_plain(c) {
        is_digit(c)
    } else {
        class_holds(DIGIT_CLASS@, c)
    }
}

/// Whether `c` is a word character: within ASCII, a digit, a letter of `a` to
/// `z` or `A` to `Z`, or `_`; beyond, a character of `WORD_CLASS`.
pub open spec fn is_word(c: char) -> bool {
    if is_plain(c) {
        is_digit(c) || ('a' <= c <= 'z') || ('A' <= c <= 'Z') || c == '_'
    } else {
        class_holds(WORD_CLASS@, c)
    }
}

/// The number of digits that `text` starts with.
pub open spec fn digit_run(text: Seq<char>) -> nat
    decreases text.len(),
{
    if text.len() > 0 && is_numeral(text[0]) {
        1 + digit_run(text.skip(1))
    } else {
        0
    }
}

/// The number that the digits `digits`, of `0` to `9`, write in base ten.
pub open spec fn decimal(digits: Seq<char>) -> nat
    decreases digits.len(),
{
    if digits.len() == 0 {
        0
    } else {
        10 * decimal(digits.drop_last()) + (digits.last() as nat - '0' as nat) as nat
    }
}

/// Whether every character of `text` is a word character.
pub open spec fn all_words(text: Seq<char>) -> bool {
    forall|i: int| 0 <= i < text.len() ==> is_word(#[trigger] text[i])
}

/// Bytes in a unit of the `k` family.
pub const KIBI: u128 = 1024;

/// Bytes in a unit of the `m`, `g` and `t` families.
pub const MEBI: u128 = 1_048_576;

/// The number of bytes in one unit spelled `unit`, if it is a unit.
pub open spec fn unit_bytes(unit: Seq<char>) -> Option<nat> {
    if unit =~= seq![] || unit =~= seq!['b'] || unit =~= seq!['B'] {
        Some(1)
    } else if unit =~= seq!['k'] || unit =~= seq!['k', 'b'] || unit =~= seq!['K', 'b'] || unit
        =~= seq!['K', 'B'] {
        Some(KIBI as nat)
    } else if unit =~= seq!['m'] || unit =~= seq!['m', 'b'] || unit =~= seq!['M', 'b'] || unit
        =~= seq!['M', 'B'] {
        Some(MEBI as nat)
    } else if unit =~= seq!['g'] || unit =~= seq!['g', 'b'] || unit =~= seq!['G', 'b'] || unit
        =~= seq!['G', 'B'] {
        Some(MEBI as nat)
    } else if unit =~= seq!['t'] || unit =~= seq!['t', 'b'] || unit =~= seq!['T', 'b'] || unit
        =~= seq!['T', 'B'] {
        Some(MEBI as nat)
    } else {
        None
    }
}

/// The digits that `text` starts with.
pub open spec fn magnitude_text(text: Seq<char>) -> Seq<char> {
    text.take(digit_run(text) as int)
}

/// What follows the leading digits of `text`.
pub open spec fn unit_text(text: Seq<char>) -> Seq<char> {
    text.skip(digit_run(text) as int)
}

/// Whether `text` is digits followed by at most two word characters.
pub open spec fn well_formed(text: Seq<char>) -> bool {
    &&& digit_run(text) >= 1
    &&& unit_text(text).len() <= 2
    &&& all_words(unit_text(text))
}

/// The number of bytes that the threshold `text` stands for, or why it stands
/// for none. The faults are looked for in the order of the variants.
pub open spec fn threshold(text: Seq<char>) -> Result<nat, SizeFault> {
    if !well_formed(text) {
        Err(SizeFault::Malformed)
    } else if !all_digits(magnitude_text(text)) || decimal(magnitude_text(text)) > u64::MAX {
        Err(SizeFault::Magnitude)
    } else {
        match unit_bytes(unit_text(text)) {
            None => Err(SizeFault::UnknownUnit(unit_text(text))),
            Some(bytes) => Ok(decimal(magnitude_text(text)) * bytes),
        }
    }
}

/// Whether a file of `file_size` bytes is larger than the threshold `text`
/// asks for. A file of exactly the threshold is not.
pub open spec fn exceeds(file_size: u64, text: Seq<char>) -> Result<bool, SizeFault> {
    match threshold(text) {
        Ok(bytes) => Ok(file_size > bytes),
        Err(fault) => Err(fault),
    }
}

/// Whether the error `e` reports the fault `fault`.
pub open spec fn reports<T>(r: Result<T, SizeError>, fault: SizeFault) -> bool {
    r matches Err(e) && e@ == fault
}

proof fn lemma_digit_run(text: Seq<char>, n: int)
    requires
        0 <= n <= text.len(),
        forall|i: int| 0 <= i < n ==> is_numeral(#[trigger] text[i]),
        n < text.len() ==> !is_numeral(text[n]),
    ensures
        digit_run(text) == n,
    decreases n,
{
    if n > 0 {
        let rest = text.skip(1);
        assert(forall|i: int| 0 <= i < n - 1 ==> is_numeral(#[trigger] rest[i]));
        lemma_digit_run(rest, n - 1);
    }
}

/// The number of bytes in one unit whose spelling is the last `len` characters of
/// `text`, `len` being at most two.
fn unit_of(text: &Vec<char>, start: usize, len: usize) -> (bytes: Option<u128>)
    requires
        start + len == text@.len() <= usize::MAX,
        len <= 2,
    ensures
        match unit_bytes(text@.skip(start as int)) {
            Some(n) => bytes matches Some(b) && b == n,
            None => bytes is None,
        },
{
    let ghost unit = text@.skip(start as int);
    if len == 0 {
        Some(1)
    } else if len == 1 {
        let c = text[start];
        assert(unit =~= seq![c] && unit[0] == c);
        if c == 'b' || c == 'B' {
            Some(1)
        } else if c == 'k' {
            Some(KIBI)
        } else if c == 'm' || c == 'g' || c == 't' {
            Some(MEBI)
        } else {
            None
        }
    } else {
        let c = text[start];
        let d = text[start + 1];
        let both = (d == 'b' && (c == 'k' || c == 'K' || c == 'm' || c == 'M' || c == 'g' || c
            == 'G' || c == 't' || c == 'T')) || (d == 'B' && (c == 'K' || c == 'M' || c == 'G'
            || c == 'T'));
        if !both {
            None
        } else if c == 'k' || c == 'K' {
            Some(KIBI)
        } else {
            Some(MEBI)
        }
    }
}

/// Whether `c` is an ASCII character.
fn is_plain_char(c: char) -> (r: bool)
    ensures
        r == is_plain(c),
{
    c <= '\x7f'
}

/// Whether `class` is found in the text that holds the character at `at` of
/// `text` alone.
fn held_at(class: &Regex, text: &str, at: usize) -> (r: bool)
    requires
        at < text@.len() <= usize::MAX,
    ensures
        r == matched_texts(*class).contains(seq![text@[at as int]]),
{
    let one = text.substring_char(at, at + 1);
    assert(one@ =~= seq![text@[at as int]]);
    found_in(class, one)
}

/// Why no matcher could be made.
#[derive(Clone, Copy, Debug, PartialEq, Eq, Structural)]
pub enum MatcherError {
    /// `DIGIT_CLASS` could not be compiled.
    DigitClass,
    /// `WORD_CLASS` could not be compiled.
    WordClass,
}

/// Compares the size of a file with the threshold that a rule sets. It holds
/// the two classes of characters, compiled, for the characters beyond ASCII.
pub struct SizeMatcher {
    digit: Regex,
    word: Regex,
}

impl SizeMatcher {
    /// The matcher holds `DIGIT_CLASS` and `WORD_CLASS`, compiled.
    #[verifier::type_invariant]
    spec fn holds_classes(self) -> bool {
        &&& pattern_texts(DIGIT_CLASS@) == Some(matched_texts(self.digit))
        &&& pattern_texts(WORD_CLASS@) == Some(matched_texts(self.word))
    }

    /// A matcher, if the two classes can be compiled. Thresholds are not
    /// looked at here: each is resolved when it is compared, so that a
    /// threshold that cannot be resolved fails the one comparison it is used in.
    pub fn new() -> (r: Result<SizeMatcher, MatcherError>)
        ensures
            match r {
                Ok(_) => pattern_texts(DIGIT_CLASS@) is Some && pattern_texts(WORD_CLASS@) is Some,
                Err(MatcherError::DigitClass) => pattern_texts(DIGIT_CLASS@) is None,
                Err(MatcherError::WordClass) => pattern_texts(DIGIT_CLASS@) is Some
                    && pattern_texts(WORD_CLASS@) is None,
            },
    {
        match compile(DIGIT_CLASS) {
            Err(_) => Err(MatcherError::DigitClass),
            Ok(digit) => match compile(WORD_CLASS) {
                Err(_) => Err(MatcherError::WordClass),
                Ok(word) => Ok(SizeMatcher { digit, word }),
            },
        }
    }

    /// Whether the character at `at` of `text` counts as a digit.
    fn numeral_at(&self, text: &str, chars: &Vec<char>, at: usize) -> (r: bool)
        requires
            chars@ == text@,
            at < chars@.len(),
        ensures
            r == is_numeral(text@[at as int]),
    {
        let len: usize = chars.len();
        let c = chars[at];
        if is_plain_char(c) {
            is_digit_char(c)
        } else {
            proof {
                use_type_invariant(self);
            }
            held_at(&self.digit, text, at)
        }
    }

    /// Whether the character at `at` of `text` is a word character.
    fn word_at(&self, text: &str, chars: &Vec<char>, at: usize) -> (r: bool)
        requires
            chars@ == text@,
            at < chars@.len(),
        ensures
            r == is_word(text@[at as int]),
    {
        let len: usize = chars.len();
        let c = chars[at];
        if is_plain_char(c) {
            is_digit_char(c) || ('a' <= c && c <= 'z') || ('A' <= c && c <= 'Z') || c == '_'
        } else {
            proof {
                use_type_invariant(self);
            }
            held_at(&self.word, text, at)
        }
    }

    /// Resolves the threshold `text` to a number of bytes.
    pub fn parse_threshold(&self, text: &str) -> (r: Result<u128, SizeError>)
        ensures
            match threshold(text@) {
                Ok(bytes) => r matches Ok(b) && b == bytes,
                Err(fault) => reports(r, fault),
            },
    {
        let chars = chars_of(text);
        let len: usize = chars.len();
        let mut digits: usize = 0;
        let mut value: u64 = 0;
        let mut plain: bool = true;
        let mut fits: bool = true;
        while digits < len && self.numeral_at(text, &chars, digits)
            invariant
                chars@ == text@,
                len == text@.len(),
                digits <= len,
                forall|i: int| 0 <= i < digits ==> is_numeral(#[trigger] text@[i]),
                plain <==> all_digits(text@.take(digits as int)),
                plain && fits ==> value == decimal(text@.take(digits as int)),
                plain && !fits ==> decimal(text@.take(digits as int)) > u64::MAX,
            decreases len - digits,
        {
            let c = chars[digits];
            proof {
                let shorter = text@.take(digits as int);
                let longer = text@.take(digits + 1);
                assert(longer.drop_last() =~= shorter);
                assert(longer.last() == c);
                assert(all_digits(longer) <==> all_digits(shorter) && is_digit(c)) by {
                    if all_digits(longer) {
                        assert forall|i: int| 0 <= i < shorter.len() implies is_digit(
                            #[trigger] shorter[i],
                        ) by {
                            assert(shorter[i] == longer[i]);
                        }
                        assert(longer[digits as int] == c);
                    }
                    if all_digits(shorter) && is_digit(c) {
                        assert forall|i: int| 0 <= i < longer.len() implies is_digit(
                            #[trigger] longer[i],
                        ) by {
                            if i < digits {
                                assert(longer[i] == shorter[i]);
                            }
                        }
                    }
                }
            }
            if !is_digit_char(c) {
                plain = false;
            } else if plain && fits {
                let digit: u64 = c as u64 - '0' as u64;
                if value > (u64::MAX - digit) / 10 {
                    fits = false;
                } else {
                    value = value * 10 + digit;
                }
            }
            digits = digits + 1;
        }
        proof {
            lemma_digit_run(text@, digits as int);
        }
        if digits == 0 || len - digits > 2 {
            return Err(SizeError::Malformed);
        }
        let mut at: usize = digits;
        while at < len
            invariant
                chars@ == text@,
                digits <= at <= len,
                len == text@.len(),
                digits == digit_run(text@),
                forall|i: int| digits <= i < at ==> is_word(#[trigger] text@[i]),
            decreases len - at,
        {
            if !self.word_at(text, &chars, at) {
                proof {
                    let unit = unit_text(text@);
                    assert(unit[at - digits] == text@[at as int]);
                }
                return Err(SizeError::Malformed);
            }
            at = at + 1;
        }
        proof {
            let unit = unit_text(text@);
            assert forall|i: int| 0 <= i < unit.len() implies is_word(#[trigger] unit[i]) by {
                assert(unit[i] == text@[digits + i]);
            }
        }
        if !plain || !fits {
            return Err(SizeError::Magnitude);
        }
        match unit_of(&chars, digits, len - digits) {
            None => Err(SizeError::UnknownUnit(text.substring_char(digits, len).to_owned())),
            Some(bytes) => {
                assert(value as nat * (bytes as nat) <= u64::MAX as nat * MEBI)
                    by (nonlinear_arith)
                    requires
                        value <= u64::MAX,
                        bytes <= MEBI,
                ;
                Ok(value as u128 * bytes)
            },
        }
    }

    /// Whether a file of `file_size` bytes is strictly larger than the threshold
    /// `comparison`. The name notwithstanding, a file of exactly the threshold
    /// is not.
    pub fn is_gteq(&self, file_size: u64, comparison: &str) -> (r: Result<bool, SizeError>)
        ensures
            match exceeds(file_size, comparison@) {
                Ok(passes) => r == Ok::<bool, SizeError>(passes),
                Err(fault) => reports(r, fault),
            },
    {
        match self.parse_threshold(comparison) {
            Ok(bytes) => Ok(file_size as u128 > bytes),
            Err(e) => Err(e),
        }
    }
}

/// A text made of digits and of a unit that does not start with a digit is
/// read as it was made: its magnitude is written by the digits and its unit is
/// the rest, whatever stands there.
pub proof fn law_threshold_of_parts(digits: Seq<char>, unit: Seq<char>)
    requires
        digits.len() >= 1,
        all_digits(digits),
        unit.len() > 0 ==> !is_numeral(unit[0]),
    ensures
        magnitude_text(digits + unit) == digits,
        unit_text(digits + unit) == unit,
        threshold(digits + unit) == if unit.len() > 2 || !all_words(unit) {
            Err::<nat, SizeFault>(SizeFault::Malformed)
        } else if decimal(digits) > u64::MAX {
            Err(SizeFault::Magnitude)
        } else {
            match unit_bytes(unit) {
                None => Err(SizeFault::UnknownUnit(unit)),
                Some(bytes) => Ok(decimal(digits) * bytes),
            }
        },
{
    let text = digits + unit;
    assert forall|i: int| 0 <= i < digits.len() implies is_numeral(#[trigger] text[i]) by {
        assert(text[i] == digits[i]);
    }
    if unit.len() > 0 {
        assert(text[digits.len() as int] == unit[0]);
    }
    lemma_digit_run(text, digits.len() as int);
    assert(text.take(digits.len() as int) =~= digits);
}

} // verus!
