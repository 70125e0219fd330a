//! Features of the spam classifier: the tokens that a message is reduced
//! to, how numbers and alphanumeric words are abstracted into shape codes,
//! and the helpers that normalise token text.

use vstd::prelude::*;
use vstd::string::{StrSliceExecFns, StringSliceAdditionalSpecFns};
use vstd::utf8::encode_utf8;
use crate::external::{alphabetic, char_lower, cure_text, cured_text, is_alphabetic, lowercase_char};
use crate::text::push_str;

verus! {

/// Characters of a word that a token keeps at most.
pub const MAX_TOKEN_LENGTH: usize = 16;

/// A feature of a message.
#[derive(Debug)]
pub enum Token {
    Word { value: String },
    Number { code: [u8; 2] },
    Alphanumeric { code: [u8; 4] },
    UnicodeCategory { value: String },
    Sender { value: String },
    Asn { number: [u8; 4] },
    Url { value: String },
    Email { value: String },
    Hostname { value: String },
    Attachment { value: String },
    MimeType { value: String },
    HtmlImage { src: String },
    HtmlAnchor { href: String },
}

/// The class of a character in an alphanumeric word.
#[derive(Clone, Copy, PartialEq, Eq, Structural)]
pub enum CharType {
    Upper,
    Lower,
    Digit,
    Other,
}

/// The class of a character.
pub open spec fn char_type(c: char) -> CharType {
    if 'A' <= c <= 'Z' {
        CharType::Upper
    } else if 'a' <= c <= 'z' {
        CharType::Lower
    } else if '0' <= c <= '9' {
        CharType::Digit
    } else {
        CharType::Other
    }
}

impl CharType {
    /// The class of a character.
    pub fn from_char(c: char) -> (r: CharType)
        ensures
            r == char_type(c),
    {
        if 'A' <= c && c <= 'Z' {
            CharType::Upper
        } else if 'a' <= c && c <= 'z' {
            CharType::Lower
        } else if '0' <= c && c <= '9' {
            CharType::Digit
        } else {
            CharType::Other
        }
    }
}

/// The number of ASCII digits in a byte string.
pub open spec fn digit_bytes(b: Seq<u8>) -> nat
    decreases b.len(),
{
    if b.len() == 0 {
        0
    } else {
        digit_bytes(b.drop_last()) + (if 48 <= b.last() <= 57 {
            1nat
        } else {
            0nat
        })
    }
}

/// The shape code of a number: its sign and kind (`F`/`I` negative float or
/// integer, `f`/`i` otherwise) and its count of digits, at most 255.
pub open spec fn number_code(is_float: bool, num: Seq<char>, bytes: Seq<u8>) -> [u8; 2] {
    let kind = if num.len() > 0 && num[0] == '-' {
        if is_float {
            70u8
        } else {
            73u8
        }
    } else if is_float {
        102u8
    } else {
        105u8
    };
    let n = digit_bytes(bytes);
    [kind, if n < 255 { n as u8 } else { 255u8 }]
}

impl Token {
    /// The code of the token kind.
    pub open spec fn kind_code(&self) -> u16 {
        match *self {
            Token::Word { .. } => 0,
            Token::Number { .. } => 1,
            Token::Alphanumeric { .. } => 2,
            Token::UnicodeCategory { .. } => 3,
            Token::Sender { .. } => 4,
            Token::Asn { .. } => 5,
            Token::Url { .. } => 6,
            Token::Email { .. } => 7,
            Token::Hostname { .. } => 8,
            Token::Attachment { .. } => 9,
            Token::MimeType { .. } => 10,
            Token::HtmlImage { .. } => 11,
            Token::HtmlAnchor { .. } => 12,
        }
    }

    /// The bytes of the token's value.
    pub open spec fn value_bytes(&self) -> Seq<u8> {
        match *self {
            Token::Word { value } => encode_utf8(value@),
            Token::Number { code } => code@,
            Token::Alphanumeric { code } => code@,
            Token::UnicodeCategory { value } => encode_utf8(value@),
            Token::Sender { value } => encode_utf8(value@),
            Token::Asn { number } => number@,
            Token::Url { value } => encode_utf8(value@),
            Token::Email { value } => encode_utf8(value@),
            Token::Hostname { value } => encode_utf8(value@),
            Token::Attachment { value } => encode_utf8(value@),
            Token::MimeType { value } => encode_utf8(value@),
            Token::HtmlImage { src } => encode_utf8(src@),
            Token::HtmlAnchor { href } => encode_utf8(href@),
        }
    }

    /// A copy of the token.
    pub fn clone_token(&self) -> (r: Token)
        ensures
            r == *self,
    {
        match self {
            Token::Word { value } => Token::Word { value: value.clone() },
            Token::Number { code } => Token::Number { code: *code },
            Token::Alphanumeric { code } => Token::Alphanumeric { code: *code },
            Token::UnicodeCategory { value } => Token::UnicodeCategory { value: value.clone() },
            Token::Sender { value } => Token::Sender { value: value.clone() },
            Token::Asn { number } => Token::Asn { number: *number },
            Token::Url { value } => Token::Url { value: value.clone() },
            Token::Email { value } => Token::Email { value: value.clone() },
            Token::Hostname { value } => Token::Hostname { value: value.clone() },
            Token::Attachment { value } => Token::Attachment { value: value.clone() },
            Token::MimeType { value } => Token::MimeType { value: value.clone() },
            Token::HtmlImage { src } => Token::HtmlImage { src: src.clone() },
            Token::HtmlAnchor { href } => Token::HtmlAnchor { href: href.clone() },
        }
    }

    /// The code of the token kind, which keeps features of different kinds apart.
    pub fn prefix(&self) -> (r: u16)
        ensures
            r == self.kind_code(),
    {
        match self {
            Token::Word { .. } => 0,
            Token::Number { .. } => 1,
            Token::Alphanumeric { .. } => 2,
            Token::UnicodeCategory { .. } => 3,
            Token::Sender { .. } => 4,
            Token::Asn { .. } => 5,
            Token::Url { .. } => 6,
            Token::Email { .. } => 7,
            Token::Hostname { .. } => 8,
            Token::Attachment { .. } => 9,
            Token::MimeType { .. } => 10,
            Token::HtmlImage { .. } => 11,
            Token::HtmlAnchor { .. } => 12,
        }
    }

    /// The bytes of the token's value.
    pub fn value(&self) -> (r: &[u8])
        ensures
            r@ == self.value_bytes(),
    {
        match self {
            Token::Word { value } => value.as_str().as_bytes(),
            Token::Number { code } => code.as_slice(),
            Token::Alphanumeric { code } => code.as_slice(),
            Token::UnicodeCategory { value } => value.as_str().as_bytes(),
            Token::Sender { value } => value.as_str().as_bytes(),
            Token::Asn { number } => number.as_slice(),
            Token::Url { value } => value.as_str().as_bytes(),
            Token::Email { value } => value.as_str().as_bytes(),
            Token::Hostname { value } => value.as_str().as_bytes(),
            Token::Attachment { value } => value.as_str().as_bytes(),
            Token::MimeType { value } => value.as_str().as_bytes(),
            Token::HtmlImage { src } => src.as_str().as_bytes(),
            Token::HtmlAnchor { href } => href.as_str().as_bytes(),
        }
    }

    /// The token of a number: its shape code.
    pub fn from_number(is_float: bool, num: &str) -> (r: Token)
        ensures
            r == (Token::Number { code: number_code(is_float, num@, num.spec_bytes()) }),
    {
        let negative = num.unicode_len() > 0 && num.get_char(0) == '-';
        let kind: u8 = if negative {
            if is_float {
                70u8
            } else {
                73u8
            }
        } else if is_float {
            102u8
        } else {
            105u8
        };
        let bytes = num.as_bytes();
        let mut n: usize = 0;
        let mut i: usize = 0;
        while i < bytes.len()
            invariant
                i <= bytes@.len(),
                n == digit_bytes(bytes@.take(i as int)),
                n <= i,
            decreases bytes.len() - i,
        {
            assert(bytes@.take(i + 1).drop_last() =~= bytes@.take(i as int));
            if 48u8 <= bytes[i] && bytes[i] <= 57u8 {
                n = n + 1;
            }
            i = i + 1;
        }
        assert(bytes@.take(bytes@.len() as int) =~= bytes@);
        let count: u8 = if n < 255 {
            n as u8
        } else {
            255u8
        };
        let code = [kind, count];
        assert(code@ =~= number_code(is_float, num@, num.spec_bytes())@);
        Token::Number { code }
    }
}

/// A text in lower case, one character at a time.
pub open spec fn lower_chars(s: Seq<char>) -> Seq<char>
    decreases s.len(),
{
    if s.len() == 0 {
        Seq::empty()
    } else {
        lower_chars(s.drop_last()) + char_lower(s.last())
    }
}

/// A prefix followed by a value in lower case.
pub fn lower_prefix(prefix: &str, value: &str) -> (r: String)
    ensures
        r@ == prefix@ + lower_chars(value@),
{
    let mut result = String::from_str(prefix);
    let n = value.unicode_len();
    let mut i: usize = 0;
    while i < n
        invariant
            n == value@.len(),
            i <= n,
            result@ == prefix@ + lower_chars(value@.take(i as int)),
        decreases n - i,
    {
        let ch = value.get_char(i);
        assert(value@.take(i + 1).drop_last() =~= value@.take(i as int));
        let lower = lowercase_char(ch);
        push_str(&mut result, lower.as_str());
        assert(result@ =~= prefix@ + lower_chars(value@.take(i + 1)));
        i = i + 1;
    }
    assert(value@.take(n as int) =~= value@);
    result
}

/// The part of a word that a token keeps: the whole word when its UTF-8
/// form fits in `max_len` bytes; else its first `max_len` characters, or,
/// when it has no more than `max_len` characters, all but the last.
pub open spec fn truncated(word: Seq<char>, bytes_len: nat, max_len: nat) -> Seq<char> {
    if bytes_len <= max_len {
        word
    } else if word.len() > max_len {
        word.take(max_len as int)
    } else if word.len() > 0 {
        word.take(word.len() - 1)
    } else {
        word
    }
}

/// The part of a word that a token keeps (see [`truncated`]).
pub fn truncate_word(word: &str, max_len: usize) -> (r: &str)
    ensures
        r@ == truncated(word@, (word.spec_bytes().len() as usize) as nat, max_len as nat),
{
    if word.len() <= max_len {
        word
    } else {
        let n = word.unicode_len();
        if n > max_len {
            word.substring_char(0, max_len)
        } else if n > 0 {
            word.substring_char(0, n - 1)
        } else {
            word
        }
    }
}

/// Whether a character is a hexadecimal digit.
pub open spec fn is_hex_char(c: char) -> bool {
    ('a' <= c <= 'f') || ('A' <= c <= 'F') || ('0' <= c <= '9')
}

/// The number of characters of a text of a class.
pub open spec fn count_type(s: Seq<char>, t: CharType) -> nat
    decreases s.len(),
{
    if s.len() == 0 {
        0
    } else {
        count_type(s.drop_last(), t) + (if char_type(s.last()) == t {
            1nat
        } else {
            0nat
        })
    }
}

/// The number of places where two neighbouring characters differ in class.
pub open spec fn class_changes(s: Seq<char>) -> nat
    decreases s.len(),
{
    if s.len() <= 1 {
        0
    } else {
        class_changes(s.drop_last()) + (if char_type(s.last()) != char_type(s[s.len() - 2]) {
            1nat
        } else {
            0nat
        })
    }
}

/// The alphabetic characters of a text, each in lower case.
pub open spec fn lower_alphabetic(s: Seq<char>) -> Seq<char>
    decreases s.len(),
{
    if s.len() == 0 {
        Seq::empty()
    } else {
        lower_alphabetic(s.drop_last()) + (if alphabetic(s.last()) {
            char_lower(s.last())
        } else {
            Seq::empty()
        })
    }
}

/// The alphabetic characters of a text.
pub open spec fn only_alphabetic(s: Seq<char>) -> Seq<char>
    decreases s.len(),
{
    if s.len() == 0 {
        Seq::empty()
    } else {
        only_alphabetic(s.drop_last()) + (if alphabetic(s.last()) {
            seq![s.last()]
        } else {
            Seq::empty()
        })
    }
}

/// At most the first [`MAX_TOKEN_LENGTH`] characters of a text.
pub open spec fn capped(s: Seq<char>) -> Seq<char> {
    if s.len() <= MAX_TOKEN_LENGTH {
        s
    } else {
        s.take(MAX_TOKEN_LENGTH as int)
    }
}

/// The composition code of a word by the classes it has: `U`, `L`, `D`
/// for one of upper case, lower case, digits; `A`, `H`, `M` for upper and
/// lower, upper and digits, lower and digits; `X` for all three; `E` for none.
pub open spec fn composition_code(upper: bool, lower: bool, digit: bool) -> u8 {
    if upper && !lower && !digit {
        85u8
    } else if !upper && lower && !digit {
        76u8
    } else if !upper && !lower && digit {
        68u8
    } else if upper && lower && !digit {
        65u8
    } else if upper && !lower && digit {
        72u8
    } else if !upper && lower && digit {
        77u8
    } else if upper && lower && digit {
        88u8
    } else {
        69u8
    }
}

/// The length bucket of a word of `len` characters.
pub open spec fn length_code(len: nat) -> u8 {
    if len == 1 {
        49u8
    } else if len == 2 {
        50u8
    } else if len == 3 {
        51u8
    } else if len == 4 {
        52u8
    } else if 5 <= len <= 6 {
        53u8
    } else if 7 <= len <= 8 {
        54u8
    } else if 9 <= len <= 12 {
        55u8
    } else if 13 <= len <= 16 {
        56u8
    } else if 17 <= len <= 32 {
        57u8
    } else {
        90u8
    }
}

/// The dominance code of a word: `B`alanced up to 50, `P`artial up to 75,
/// `D`ominant up to 99, else `O`ne class only; the dominance is the share,
/// in percent, of the most frequent class among the word's characters (an
/// empty word counts as one character).
pub open spec fn ratio_code(max_count: nat, len: nat) -> u8 {
    let d = (max_count * 100) / (if len < 1 { 1 } else { len });
    if d <= 50 {
        66u8
    } else if d <= 75 {
        80u8
    } else if d <= 99 {
        68u8
    } else {
        79u8
    }
}

/// The alternation code of a word of `len` characters with `changes`
/// class changes: the share of changes among the `len - 1` neighbouring
/// pairs, up to 0.1, 0.3, 0.5, 0.7 or above; a word of one character, whose
/// share is undefined, gets the last code.
pub open spec fn run_code(changes: nat, len: nat) -> u8 {
    if len <= 1 {
        52u8
    } else if 10 * changes <= len - 1 {
        48u8
    } else if 10 * changes <= 3 * (len - 1) {
        49u8
    } else if 2 * changes <= len - 1 {
        50u8
    } else if 10 * changes <= 7 * (len - 1) {
        51u8
    } else {
        52u8
    }
}

/// The largest of three counts.
pub open spec fn max3(a: nat, b: nat, c: nat) -> nat {
    let m = if a > b { a } else { b };
    if m > c { m } else { c }
}

/// The shape code of an alphanumeric word that is neither hexadecimal nor
/// a word with a single digit.
pub open spec fn shape_code(s: Seq<char>) -> [u8; 4] {
    let u = count_type(s, CharType::Upper);
    let l = count_type(s, CharType::Lower);
    let d = count_type(s, CharType::Digit);
    [
        composition_code(u > 0, l > 0, d > 0),
        length_code(s.len()),
        ratio_code(max3(u, l, d), s.len()),
        run_code(class_changes(s), s.len()),
    ]
}

/// Whether `t` is the token of the alphanumeric word `s`, whose UTF-8 form
/// has `byte_len` bytes: a hexadecimal word becomes a `X` number with its
/// length; a word with a character outside ASCII becomes the alphabetic
/// characters of its cured form (or, where it cannot be cured, of its lower
/// case form); an ASCII word of more than three characters with a single
/// digit becomes its alphabetic characters in lower case (each word at most
/// [`MAX_TOKEN_LENGTH`] characters); any other word becomes its shape code.
pub open spec fn is_alphanumeric_token(t: Token, s: Seq<char>, byte_len: usize) -> bool {
    if forall|i: int| 0 <= i < s.len() ==> is_hex_char(#[trigger] s[i]) {
        t == Token::Number { code: [88u8, if byte_len < 255 { byte_len as u8 } else { 255u8 }] }
    } else if exists|i: int| 0 <= i < s.len() && (#[trigger] s[i] as u32) >= 128 {
        t is Word && t->Word_value@ == capped(
            match cured_text(s) {
                Some(c) => only_alphabetic(c),
                None => lower_alphabetic(s),
            },
        )
    } else if byte_len > 3 && count_type(s, CharType::Digit) == 1 {
        t is Word && t->Word_value@ == capped(lower_alphabetic(s))
    } else {
        t == Token::Alphanumeric { code: shape_code(s) }
    }
}

fn lower_alphabetic_of(s: &str) -> (r: String)
    ensures
        r@ == lower_alphabetic(s@),
{
    let mut out = String::new();
    let n = s.unicode_len();
    let mut i: usize = 0;
    while i < n
        invariant
            n == s@.len(),
            i <= n,
            out@ == lower_alphabetic(s@.take(i as int)),
        decreases n - i,
    {
        let ch = s.get_char(i);
        assert(s@.take(i + 1).drop_last() =~= s@.take(i as int));
        if is_alphabetic(ch) {
            let lower = lowercase_char(ch);
            push_str(&mut out, lower.as_str());
        }
        proof {
            reveal_strlit("");
        }
        assert(out@ =~= lower_alphabetic(s@.take(i + 1)));
        i = i + 1;
    }
    assert(s@.take(n as int) =~= s@);
    out
}

fn alphabetic_of(s: &str) -> (r: String)
    ensures
        r@ == only_alphabetic(s@),
{
    let mut out = String::new();
    let n = s.unicode_len();
    let mut i: usize = 0;
    while i < n
        invariant
            n == s@.len(),
            i <= n,
            out@ == only_alphabetic(s@.take(i as int)),
        decreases n - i,
    {
        let ch = s.get_char(i);
        assert(s@.take(i + 1).drop_last() =~= s@.take(i as int));
        if is_alphabetic(ch) {
            crate::text::push_char(&mut out, ch);
        }
        assert(out@ =~= only_alphabetic(s@.take(i + 1)));
        i = i + 1;
    }
    assert(s@.take(n as int) =~= s@);
    out
}

fn cap_word(s: &str) -> (r: String)
    ensures
        r@ == capped(s@),
{
    let n = s.unicode_len();
    if n <= MAX_TOKEN_LENGTH {
        String::from_str(s)
    } else {
        String::from_str(s.substring_char(0, MAX_TOKEN_LENGTH))
    }
}

/// The counts of upper case, lower case and digit characters of a word,
/// and its class changes.
fn class_counts(s: &str) -> (r: (usize, usize, usize, usize))
    ensures
        r.0 == count_type(s@, CharType::Upper),
        r.1 == count_type(s@, CharType::Lower),
        r.2 == count_type(s@, CharType::Digit),
        r.3 == class_changes(s@),
        r.0 <= s@.len() && r.1 <= s@.len() && r.2 <= s@.len() && r.3 <= s@.len(),
{
    let n = s.unicode_len();
    let mut upper: usize = 0;
    let mut lower: usize = 0;
    let mut digit: usize = 0;
    let mut changes: usize = 0;
    let mut prev = CharType::Other;
    let mut i: usize = 0;
    while i < n
        invariant
            n == s@.len(),
            i <= n,
            upper == count_type(s@.take(i as int), CharType::Upper),
            lower == count_type(s@.take(i as int), CharType::Lower),
            digit == count_type(s@.take(i as int), CharType::Digit),
            changes == class_changes(s@.take(i as int)),
            upper <= i,
            lower <= i,
            digit <= i,
            changes <= i,
            i > 0 ==> prev == char_type(s@[i - 1]),
        decreases n - i,
    {
        let ch = s.get_char(i);
        let t = CharType::from_char(ch);
        assert(s@.take(i + 1).drop_last() =~= s@.take(i as int));
        assert(s@.take(i + 1).last() == ch);
        if i > 0 {
            assert(s@.take(i + 1)[i - 1] == s@[i - 1]);
        }
        match t {
            CharType::Upper => upper = upper + 1,
            CharType::Lower => lower = lower + 1,
            CharType::Digit => digit = digit + 1,
            CharType::Other => {},
        }
        if i > 0 && t != prev {
            changes = changes + 1;
        }
        prev = t;
        i = i + 1;
    }
    assert(s@.take(n as int) =~= s@);
    (upper, lower, digit, changes)
}

impl Token {
    /// The token of an alphanumeric word (see [`is_alphanumeric_token`]).
    pub fn from_alphanumeric(s: &str) -> (r: Token)
        ensures
            is_alphanumeric_token(r, s@, (s.spec_bytes().len() as usize)),
    {
        let n = s.unicode_len();
        let mut is_hex = true;
        let mut is_ascii = true;
        let mut i: usize = 0;
        while i < n
            invariant
                n == s@.len(),
                i <= n,
                is_hex == forall|j: int| 0 <= j < i ==> is_hex_char(#[trigger] s@[j]),
                is_ascii == forall|j: int| 0 <= j < i ==> (#[trigger] s@[j] as u32) < 128,
            decreases n - i,
        {
            let ch = s.get_char(i);
            if ('a' <= ch && ch <= 'f') || ('A' <= ch && ch <= 'F') || ('0' <= ch && ch <= '9') {
            } else {
                is_ascii = is_ascii && (ch as u32) < 128;
                is_hex = false;
            }
            i = i + 1;
        }
        let byte_len = s.len();
        if is_hex {
            let count: u8 = if byte_len < 255 {
                byte_len as u8
            } else {
                255u8
            };
            return Token::Number { code: [88u8, count] };
        }
        assert(!forall|j: int| 0 <= j < s@.len() ==> is_hex_char(#[trigger] s@[j]));
        if !is_ascii {
            let word = match cure_text(s) {
                Some(cured) => alphabetic_of(cured.as_str()),
                None => lower_alphabetic_of(s),
            };
            return Token::Word { value: cap_word(word.as_str()) };
        }
        let (upper, lower, digit, changes) = class_counts(s);
        if byte_len > 3 && digit == 1 {
            let word = lower_alphabetic_of(s);
            return Token::Word { value: cap_word(word.as_str()) };
        }
        let composition: u8 = if upper > 0 && lower == 0 && digit == 0 {
            85u8
        } else if upper == 0 && lower > 0 && digit == 0 {
            76u8
        } else if upper == 0 && lower == 0 && digit > 0 {
            68u8
        } else if upper > 0 && lower > 0 && digit == 0 {
            65u8
        } else if upper > 0 && lower == 0 && digit > 0 {
            72u8
        } else if upper == 0 && lower > 0 && digit > 0 {
            77u8
        } else if upper > 0 && lower > 0 && digit > 0 {
            88u8
        } else {
            69u8
        };
        let len = n;
        let len_code: u8 = if len == 1 {
            49u8
        } else if len == 2 {
            50u8
        } else if len == 3 {
            51u8
        } else if len == 4 {
            52u8
        } else if 5 <= len && len <= 6 {
            53u8
        } else if 7 <= len && len <= 8 {
            54u8
        } else if 9 <= len && len <= 12 {
            55u8
        } else if 13 <= len && len <= 16 {
            56u8
        } else if 17 <= len && len <= 32 {
            57u8
        } else {
            90u8
        };
        let m1 = if upper > lower {
            upper
        } else {
            lower
        };
        let max_count = if m1 > digit {
            m1
        } else {
            digit
        };
        let divisor: u128 = if len < 1 {
            1
        } else {
            len as u128
        };
        assert(divisor > 0);
        let dominance: u128 = (max_count as u128 * 100) / divisor;
        let ratio: u8 = if dominance <= 50 {
            66u8
        } else if dominance <= 75 {
            80u8
        } else if dominance <= 99 {
            68u8
        } else {
            79u8
        };
        let run: u8 = if len <= 1 {
            52u8
        } else {
            let pairs = (len - 1) as u128;
            let c = changes as u128;
            if 10 * c <= pairs {
                48u8
            } else if 10 * c <= 3 * pairs {
                49u8
            } else if 2 * c <= pairs {
                50u8
            } else if 10 * c <= 7 * pairs {
                51u8
            } else {
                52u8
            }
        };
        let code = [composition, len_code, ratio, run];
        assert(code@ =~= shape_code(s@)@);
        Token::Alphanumeric { code }
    }
}


proof fn lemma_count_uniform(s: Seq<char>, c: CharType)
    requires
        forall|i: int| 0 <= i < s.len() ==> char_type(#[trigger] s[i]) == c,
    ensures
        forall|t: CharType| #[trigger] count_type(s, t) == if t == c { s.len() } else { 0 },
    decreases s.len(),
{
    if s.len() > 0 {
        let p = s.drop_last();
        assert forall|i: int| 0 <= i < p.len() implies char_type(#[trigger] p[i]) == c by {
            assert(p[i] == s[i]);
        }
        lemma_count_uniform(p, c);
        assert(char_type(s[s.len() - 1]) == c);
        assert forall|t: CharType| #[trigger] count_type(s, t) == if t == c { s.len() } else { 0 } by {
            assert(count_type(p, t) == if t == c { p.len() } else { 0 });
        }
    }
}

/// A word that is not hexadecimal and is made of upper-case ASCII letters
/// only becomes a shape token whose composition is `U`; one made of
/// lower-case ASCII letters only becomes one whose composition is `L`; in
/// both, one class makes up the whole word, so the dominance is `O`.
pub proof fn lemma_single_case_composition(s: Seq<char>, byte_len: usize, t: Token)
    requires
        is_alphanumeric_token(t, s, byte_len),
        exists|i: int| 0 <= i < s.len() && !is_hex_char(#[trigger] s[i]),
    ensures
        (forall|i: int| 0 <= i < s.len() ==> 'A' <= #[trigger] s[i] <= 'Z') ==> (t matches Token::Alphanumeric { code } && code[0] == 'U' as u8 && code[2] == 'O' as u8),
        (forall|i: int| 0 <= i < s.len() ==> 'a' <= #[trigger] s[i] <= 'z') ==> (t matches Token::Alphanumeric { code } && code[0] == 'L' as u8 && code[2] == 'O' as u8),
{
    let k = choose|i: int| 0 <= i < s.len() && !is_hex_char(#[trigger] s[i]);
    assert(!is_hex_char(s[k]));
    let n: nat = s.len();
    assert((n * 100) / n == 100) by (nonlinear_arith)
        requires
            n > 0,
    ;
    assert(max3(n, 0, 0) == n && max3(0, n, 0) == n);
    if forall|i: int| 0 <= i < s.len() ==> 'A' <= #[trigger] s[i] <= 'Z' {
        assert forall|i: int| 0 <= i < s.len() implies char_type(#[trigger] s[i]) == CharType::Upper by {
            assert('A' <= s[i] <= 'Z');
        }
        lemma_count_uniform(s, CharType::Upper);
        assert(count_type(s, CharType::Upper) == s.len());
        assert(count_type(s, CharType::Lower) == 0);
        assert(count_type(s, CharType::Digit) == 0);
        assert(!exists|i: int| 0 <= i < s.len() && (#[trigger] s[i] as u32) >= 128) by {
            assert forall|i: int| 0 <= i < s.len() implies (#[trigger] s[i] as u32) < 128 by {
                assert('A' <= s[i] <= 'Z');
            }
        }
    }
    if forall|i: int| 0 <= i < s.len() ==> 'a' <= #[trigger] s[i] <= 'z' {
        assert forall|i: int| 0 <= i < s.len() implies char_type(#[trigger] s[i]) == CharType::Lower by {
            assert('a' <= s[i] <= 'z');
        }
        lemma_count_uniform(s, CharType::Lower);
        assert(count_type(s, CharType::Upper) == 0);
        assert(count_type(s, CharType::Lower) == s.len());
        assert(count_type(s, CharType::Digit) == 0);
        assert(!exists|i: int| 0 <= i < s.len() && (#[trigger] s[i] as u32) >= 128) by {
            assert forall|i: int| 0 <= i < s.len() implies (#[trigger] s[i] as u32) < 128 by {
                assert('a' <= s[i] <= 'z');
            }
        }
    }
}

/// The composition letter names the classes of characters a word has:
/// `U`, `L`, `D` for upper case, lower case or digits alone; `A` for upper
/// and lower case, `H` for upper case and digits, `M` for lower case and
/// digits, `X` for all three and `E` for none; distinct sets of classes get
/// distinct letters.
pub proof fn lemma_composition_letters(upper: bool, lower: bool, digit: bool)
    ensures
        composition_code(upper, lower, digit) == 'U' as u8 <==> (upper && !lower && !digit),
        composition_code(upper, lower, digit) == 'L' as u8 <==> (!upper && lower && !digit),
        composition_code(upper, lower, digit) == 'D' as u8 <==> (!upper && !lower && digit),
        composition_code(upper, lower, digit) == 'A' as u8 <==> (upper && lower && !digit),
        composition_code(upper, lower, digit) == 'H' as u8 <==> (upper && !lower && digit),
        composition_code(upper, lower, digit) == 'M' as u8 <==> (!upper && lower && digit),
        composition_code(upper, lower, digit) == 'X' as u8 <==> (upper && lower && digit),
        composition_code(upper, lower, digit) == 'E' as u8 <==> (!upper && !lower && !digit),
{
}

/// The dominance letter of a word of `len` characters whose most frequent
/// class has `max_count` of them: `B` while that class is under 51 percent
/// of the word, `P` from 51 to under 76 percent, `D` from 76 to under 100
/// percent, and `O` when it is the whole word.
pub proof fn lemma_ratio_thresholds(max_count: nat, len: nat)
    requires
        1 <= len,
        max_count <= len,
    ensures
        ratio_code(max_count, len) == 'B' as u8 <==> 100 * max_count < 51 * len,
        ratio_code(max_count, len) == 'P' as u8 <==> 51 * len <= 100 * max_count < 76 * len,
        ratio_code(max_count, len) == 'D' as u8 <==> 76 * len <= 100 * max_count < 100 * len,
        ratio_code(max_count, len) == 'O' as u8 <==> max_count == len,
{
    let x = max_count * 100;
    let d = x / len;
    assert(d * len <= x < (d + 1) * len) by (nonlinear_arith)
        requires
            len >= 1,
            d == x / len,
    ;
    assert(d <= 50 <==> x < 51 * len) by (nonlinear_arith)
        requires
            d * len <= x < (d + 1) * len,
            len >= 1,
    ;
    assert(d <= 75 <==> x < 76 * len) by (nonlinear_arith)
        requires
            d * len <= x < (d + 1) * len,
            len >= 1,
    ;
    assert(d <= 99 <==> x < 100 * len) by (nonlinear_arith)
        requires
            d * len <= x < (d + 1) * len,
            len >= 1,
    ;
}

/// The length bucket never decreases as a word grows, and words of one to
/// four characters each get the digit of their length.
pub proof fn lemma_length_code_monotone(a: nat, b: nat)
    requires
        1 <= a <= b,
    ensures
        length_code(a) <= length_code(b),
        a <= 4 ==> length_code(a) == 48 + a,
{
}

/// An upper-case word and a lower-case word (neither hexadecimal) never
/// get the same token.
pub proof fn lemma_case_tells_tokens_apart(
    upper: Seq<char>,
    upper_len: usize,
    t_upper: Token,
    lower: Seq<char>,
    lower_len: usize,
    t_lower: Token,
)
    requires
        is_alphanumeric_token(t_upper, upper, upper_len),
        is_alphanumeric_token(t_lower, lower, lower_len),
        exists|i: int| 0 <= i < upper.len() && !is_hex_char(#[trigger] upper[i]),
        exists|i: int| 0 <= i < lower.len() && !is_hex_char(#[trigger] lower[i]),
        forall|i: int| 0 <= i < upper.len() ==> 'A' <= #[trigger] upper[i] <= 'Z',
        forall|i: int| 0 <= i < lower.len() ==> 'a' <= #[trigger] lower[i] <= 'z',
    ensures
        t_upper != t_lower,
{
    lemma_single_case_composition(upper, upper_len, t_upper);
    lemma_single_case_composition(lower, lower_len, t_lower);
}

} // verus!
