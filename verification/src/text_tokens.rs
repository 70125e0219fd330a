//! Classifier tokens of the text of a message: what each kind of text token
//! (word, number, link, symbol) adds to the bag, and what a text part adds,
//! with the images and links of its HTML.

use vstd::prelude::*;
use vstd::string::{StrSliceExecFns, StringSliceAdditionalSpecFns};
use vstd::utf8::encode_utf8;
use crate::external::{
    category_abbr, category_abbreviation, cure_text, cured_text, is_single_script, is_uppercase, lowercase, nfc_chars,
    nfc_of, nfkc_chars, nfkc_of, single_script, to_lowercase, uppercase,
};
use crate::spam::{is_alphanumeric_token, number_code, truncate_word, truncated, Token, MAX_TOKEN_LENGTH};
use crate::text::str_eq;
use crate::tokens::{
    apply_ops, bumped, lemma_apply_ops_concat, merged_missing, path_pieces, pieces_ops, source_tokens, sources_ops, text_key,
    text_token, token_key, TokenSources, Tokens,
};

verus! {

/// A token of a text, as the text tokenizer gives it. A word comes with
/// what the word stemmer of its text makes of it in lower case.
pub enum TextToken {
    Alphabetic { word: String, stems: Vec<String> },
    Alphanumeric(String),
    Integer(String),
    Float(String),
    UrlNoHost(String),
    IpAddr,
    Punctuation(char),
    Other(char),
    Email,
    Url,
    UrlNoScheme,
    Space,
}

/// An addition to the bag: a key and whether only where missing.
pub type TokenOp = ((u16, Seq<u8>), bool);

/// The key of a word token of `w`, cut to the token length.
pub open spec fn word_key(w: Seq<char>) -> (u16, Seq<u8>) {
    text_key(0, truncated(w, (encode_utf8(w).len() as usize) as nat, MAX_TOKEN_LENGTH as nat))
}

/// A word token of each stem, cut to the token length.
pub open spec fn stems_ops(stems: Seq<String>) -> Seq<TokenOp>
    decreases stems.len(),
{
    if stems.len() == 0 {
        Seq::empty()
    } else {
        stems_ops(stems.drop_last()).push((word_key(stems.last()@), false))
    }
}

/// Whether a word holds a non-ASCII character whose NFC and NFKC forms
/// differ (a compatibility character that can pass for another).
pub open spec fn has_confusable(w: Seq<char>) -> bool {
    exists|i: int| 0 <= i < w.len() && (w[i] as u32) >= 128 && nfc_chars(#[trigger] w[i]) != nfkc_chars(w[i])
}

/// How many characters of a word are upper case.
pub open spec fn upper_count(w: Seq<char>) -> nat
    decreases w.len(),
{
    if w.len() == 0 {
        0
    } else {
        upper_count(w.drop_last()) + if uppercase(w.last()) { 1nat } else { 0nat }
    }
}

/// The additions for a word: where it mixes scripts or holds a confusable
/// character and can be cured, its cured form (cut to the token length
/// where the word is longer than that); else a word token of each stem.
/// In a body, a word of more than three bytes that is all upper case adds
/// `_allcaps`.
pub open spec fn alphabetic_ops(word: Seq<char>, stems: Seq<String>, is_body: bool) -> Seq<TokenOp> {
    let n = encode_utf8(word).len() as usize;
    let main = if (!single_script(word) || has_confusable(word)) && cured_text(word) is Some {
        let c = cured_text(word)->Some_0;
        if n > MAX_TOKEN_LENGTH {
            seq![(word_key(c), false)]
        } else {
            seq![(text_key(0, c), false)]
        }
    } else {
        stems_ops(stems)
    };
    if is_body && n == upper_count(word) && n > 3 {
        main.push((text_key(0, "_allcaps"@), false))
    } else {
        main
    }
}

/// The key of the token of an alphanumeric word.
pub open spec fn alnum_key(s: Seq<char>, byte_len: usize) -> (u16, Seq<u8>) {
    token_key(choose|t: Token| is_alphanumeric_token(t, s, byte_len))
}

/// The token of an alphanumeric word has one key.
proof fn lemma_alnum_key(t: Token, s: Seq<char>, byte_len: usize)
    requires
        is_alphanumeric_token(t, s, byte_len),
    ensures
        token_key(t) == alnum_key(s, byte_len),
{
    let c = choose|t: Token| is_alphanumeric_token(t, s, byte_len);
    assert(is_alphanumeric_token(c, s, byte_len));
}

/// Whether a general category is punctuation or a space separator, which
/// add nothing.
pub open spec fn is_quiet_category(a: Seq<char>) -> bool {
    a == "Pe"@ || a == "Pc"@ || a == "Pd"@ || a == "Pf"@ || a == "Pi"@ || a == "Ps"@ || a == "Po"@ || a == "Zs"@
}

/// The additions for a symbol: its general category, unless punctuation
/// or a space separator.
pub open spec fn symbol_ops(c: char) -> Seq<TokenOp> {
    if is_quiet_category(category_abbr(c)) {
        Seq::empty()
    } else {
        seq![(text_key(3, category_abbr(c)), false)]
    }
}

/// The additions for a token of a text.
pub open spec fn type_ops(t: TextToken, is_body: bool) -> Seq<TokenOp> {
    match t {
        TextToken::Alphabetic { word, stems } => alphabetic_ops(word@, stems@, is_body),
        TextToken::Alphanumeric(w) => seq![(alnum_key(w@, (encode_utf8(w@).len() as usize)), false)],
        TextToken::UrlNoHost(u) => pieces_ops(path_pieces(lowercase(u@))),
        TextToken::Punctuation(c) => symbol_ops(c),
        TextToken::Other(c) => symbol_ops(c),
        TextToken::Integer(w) => seq![(token_key(Token::Number { code: number_code(false, w@, encode_utf8(w@)) }), false)],
        TextToken::Float(w) => seq![(token_key(Token::Number { code: number_code(true, w@, encode_utf8(w@)) }), false)],
        TextToken::IpAddr => seq![(text_key(6, "!ip"@), false)],
        _ => Seq::empty(),
    }
}

/// One addition, applied.
proof fn lemma_one_op(c: spec_fn((u16, Seq<u8>)) -> nat, op: TokenOp)
    ensures
        apply_ops(c, seq![op]) == bumped(c, op.0, op.1),
{
    reveal_with_fuel(apply_ops, 2);
    assert(seq![op].drop_last() =~= Seq::<TokenOp>::empty());
}

/// Whether a word holds a confusable character.
fn word_has_confusable(word: &str) -> (r: bool)
    ensures
        r == has_confusable(word@),
{
    let n = word.unicode_len();
    let mut i: usize = 0;
    while i < n
        invariant
            n == word@.len(),
            i <= n,
            forall|j: int| 0 <= j < i ==> !((word@[j] as u32) >= 128 && nfc_chars(#[trigger] word@[j]) != nfkc_chars(word@[j])),
        decreases n - i,
    {
        let ch = word.get_char(i);
        if (ch as u32) >= 128 {
            let a = nfc_of(ch);
            let b = nfkc_of(ch);
            if !str_eq(a.as_str(), b.as_str()) {
                assert(nfc_chars(word@[i as int]) != nfkc_chars(word@[i as int]));
                return true;
            }
        }
        i = i + 1;
    }
    false
}

/// How many characters of a word are upper case.
fn count_upper(word: &str) -> (r: usize)
    ensures
        r == upper_count(word@),
{
    let n = word.unicode_len();
    let mut k: usize = 0;
    let mut i: usize = 0;
    while i < n
        invariant
            n == word@.len(),
            i <= n,
            k <= i,
            k == upper_count(word@.take(i as int)),
        decreases n - i,
    {
        assert(word@.take(i + 1).drop_last() =~= word@.take(i as int));
        if is_uppercase(word.get_char(i)) {
            k = k + 1;
        }
        i = i + 1;
    }
    assert(word@.take(n as int) =~= word@);
    k
}

impl Tokens {
    /// Adds a word token of each stem.
    fn insert_stems(&mut self, stems: &Vec<String>)
        requires
            old(self).wf(),
        ensures
            final(self).wf(),
            final(self).counts() == apply_ops(old(self).counts(), stems_ops(stems@)),
    {
        let ghost c0 = self.counts();
        let mut i: usize = 0;
        while i < stems.len()
            invariant
                i <= stems@.len(),
                self.wf(),
                self.counts() == apply_ops(c0, stems_ops(stems@.take(i as int))),
            decreases stems.len() - i,
        {
            assert(stems@.take(i + 1).drop_last() =~= stems@.take(i as int));
            let ghost prev = stems_ops(stems@.take(i as int));
            let ghost op = (word_key(stems@[i as int]@), false);
            assert(stems_ops(stems@.take(i + 1)) == prev.push(op));
            assert(prev.push(op).drop_last() =~= prev);
            let cut = truncate_word(stems[i].as_str(), MAX_TOKEN_LENGTH);
            self.insert(text_token(0, String::from_str(cut)));
            assert(self.counts() == apply_ops(c0, prev.push(op)));
            i = i + 1;
        }
        assert(stems@.take(stems@.len() as int) =~= stems@);
    }

    /// Adds the tokens of a word (see [`alphabetic_ops`]).
    fn insert_alphabetic(&mut self, word: &str, stems: &Vec<String>, is_body: bool)
        requires
            old(self).wf(),
        ensures
            final(self).wf(),
            final(self).counts() == apply_ops(old(self).counts(), alphabetic_ops(word@, stems@, is_body)),
    {
        let ghost c0 = self.counts();
        let n = word.len();
        let suspicious = !is_single_script(word) || word_has_confusable(word);
        let cured = if suspicious { cure_text(word) } else { None };
        assert(n == encode_utf8(word@).len() as usize);
        assert(suspicious == (!single_script(word@) || has_confusable(word@)));
        assert(cured is Some <==> (suspicious && cured_text(word@) is Some));
        let ghost main: Seq<TokenOp>;
        match cured {
            Some(c) => {
                if n > MAX_TOKEN_LENGTH {
                    let cut = truncate_word(c.as_str(), MAX_TOKEN_LENGTH);
                    self.insert(text_token(0, String::from_str(cut)));
                    proof {
                        main = seq![(word_key(c@), false)];
                    }
                } else {
                    self.insert(text_token(0, c));
                    proof {
                        main = seq![(text_key(0, cured_text(word@)->Some_0), false)];
                    }
                }
                proof {
                    lemma_one_op(c0, main[0]);
                }
            },
            None => {
                self.insert_stems(stems);
                proof {
                    main = stems_ops(stems@);
                }
            },
        }
        assert(self.counts() == apply_ops(c0, main));
        assert(main == (if (!single_script(word@) || has_confusable(word@)) && cured_text(word@) is Some {
            let c = cured_text(word@)->Some_0;
            if (encode_utf8(word@).len() as usize) > MAX_TOKEN_LENGTH {
                seq![(word_key(c), false)]
            } else {
                seq![(text_key(0, c), false)]
            }
        } else {
            stems_ops(stems@)
        }));
        if is_body && n > 3 && n == count_upper(word) {
            let ghost c1 = self.counts();
            self.insert(text_token(0, String::from_str("_allcaps")));
            proof {
                lemma_one_op(c1, (text_key(0, "_allcaps"@), false));
                lemma_apply_ops_concat(c0, main, seq![(text_key(0, "_allcaps"@), false)]);
                assert(main + seq![(text_key(0, "_allcaps"@), false)] =~= main.push((text_key(0, "_allcaps"@), false)));
            }
        }
    }

    /// Adds the tokens of a token of a text (see [`type_ops`]).
    pub fn insert_type(&mut self, token: &TextToken, is_body: bool)
        requires
            old(self).wf(),
        ensures
            final(self).wf(),
            final(self).counts() == apply_ops(old(self).counts(), type_ops(*token, is_body)),
    {
        let ghost c0 = self.counts();
        match token {
            TextToken::Alphabetic { word, stems } => self.insert_alphabetic(word.as_str(), stems, is_body),
            TextToken::Alphanumeric(w) => {
                let t = Token::from_alphanumeric(w.as_str());
                proof {
                    lemma_alnum_key(t, w@, (encode_utf8(w@).len() as usize));
                    lemma_one_op(c0, (token_key(t), false));
                }
                self.insert(t);
            },
            TextToken::UrlNoHost(u) => {
                let lower = to_lowercase(u.as_str());
                self.insert_url_path(lower.as_str());
            },
            TextToken::Punctuation(c) | TextToken::Other(c) => {
                let a = category_abbreviation(*c);
                let quiet = str_eq(a, "Pe") || str_eq(a, "Pc") || str_eq(a, "Pd") || str_eq(a, "Pf") || str_eq(a, "Pi")
                    || str_eq(a, "Ps") || str_eq(a, "Po") || str_eq(a, "Zs");
                if !quiet {
                    self.insert(text_token(3, String::from_str(a)));
                    proof {
                        lemma_one_op(c0, (text_key(3, category_abbr(*c)), false));
                    }
                }
            },
            TextToken::Integer(w) => {
                let t = Token::from_number(false, w.as_str());
                proof {
                    lemma_one_op(c0, (token_key(t), false));
                }
                self.insert(t);
            },
            TextToken::Float(w) => {
                let t = Token::from_number(true, w.as_str());
                proof {
                    lemma_one_op(c0, (token_key(t), false));
                }
                self.insert(t);
            },
            TextToken::IpAddr => {
                self.insert(text_token(6, String::from_str("!ip")));
                proof {
                    lemma_one_op(c0, (text_key(6, "!ip"@), false));
                }
            },
            _ => {},
        }
    }
}


/// The additions for the tokens of a text, in order.
pub open spec fn seq_ops(tokens: Seq<TextToken>, is_body: bool) -> Seq<TokenOp>
    decreases tokens.len(),
{
    if tokens.len() == 0 {
        Seq::empty()
    } else {
        seq_ops(tokens.drop_last(), is_body) + type_ops(tokens.last(), is_body)
    }
}

/// Whether a text holds a word.
pub open spec fn has_word(tokens: Seq<TextToken>) -> bool {
    exists|i: int| 0 <= i < tokens.len() && (#[trigger] tokens[i]) is Alphabetic
}

/// In a body without words, a `_null` word.
pub open spec fn null_ops(tokens: Seq<TextToken>, is_body: bool) -> Seq<TokenOp> {
    if is_body && !has_word(tokens) {
        seq![(text_key(0, "_null"@), false)]
    } else {
        Seq::empty()
    }
}

/// The name of an HTML attribute that the classifier reads.
#[derive(Clone, Copy, Debug, PartialEq, Eq, Structural)]
pub enum HtmlAttrName {
    Alt,
    Title,
    Src,
    Href,
    Other,
}

/// An attribute of an HTML start tag, with the text tokens of its value.
pub struct HtmlAttribute {
    pub name: HtmlAttrName,
    pub value: Option<String>,
    pub tokens: Vec<TextToken>,
}

/// The name of an HTML tag that the classifier reads.
#[derive(Clone, Copy, Debug, PartialEq, Eq, Structural)]
pub enum HtmlTagName {
    A,
    Img,
    Other,
}

/// An HTML start tag and its attributes.
pub struct HtmlStartTag {
    pub name: HtmlTagName,
    pub attributes: Vec<HtmlAttribute>,
}

/// A text part of a message: its text and tokens, and for HTML its start
/// tags.
pub enum TextPart {
    Plain { text_body: String, tokens: Vec<TextToken> },
    Html { text_body: String, tokens: Vec<TextToken>, html_tokens: Vec<HtmlStartTag> },
    NoText,
}

/// Position of the first `c` in `s`, or -1 when `s` holds none.
pub open spec fn first_index_of(s: Seq<char>, c: char) -> int
    decreases s.len(),
{
    if s.len() == 0 {
        -1
    } else if first_index_of(s.drop_last(), c) >= 0 {
        first_index_of(s.drop_last(), c)
    } else if s.last() == c {
        s.len() - 1
    } else {
        -1
    }
}

/// What precedes the first `:` of a value (its scheme), or nothing where it
/// holds none.
pub open spec fn scheme_of(v: Seq<char>) -> Seq<char> {
    let i = first_index_of(v, ':');
    if i < 0 {
        Seq::empty()
    } else {
        v.take(i)
    }
}

/// The additions for an attribute of a link or image: the words of its
/// alternative text or title, the scheme of its source (image) or target
/// (anchor).
pub open spec fn attr_ops(a: HtmlAttribute, is_body: bool) -> Seq<TokenOp> {
    match a.value {
        Some(v) => match a.name {
            HtmlAttrName::Alt | HtmlAttrName::Title => seq_ops(a.tokens@, is_body),
            HtmlAttrName::Src => seq![(text_key(11, scheme_of(v@)), false)],
            HtmlAttrName::Href => seq![(text_key(12, scheme_of(v@)), false)],
            HtmlAttrName::Other => Seq::empty(),
        },
        None => Seq::empty(),
    }
}

/// The additions for attributes, in order.
pub open spec fn attrs_ops(attrs: Seq<HtmlAttribute>, is_body: bool) -> Seq<TokenOp>
    decreases attrs.len(),
{
    if attrs.len() == 0 {
        Seq::empty()
    } else {
        attrs_ops(attrs.drop_last(), is_body) + attr_ops(attrs.last(), is_body)
    }
}

/// The additions for start tags: those of links and images, in order.
pub open spec fn tags_ops(tags: Seq<HtmlStartTag>, is_body: bool) -> Seq<TokenOp>
    decreases tags.len(),
{
    if tags.len() == 0 {
        Seq::empty()
    } else {
        let t = tags.last();
        tags_ops(tags.drop_last(), is_body) + if t.name == HtmlTagName::Other {
            Seq::<TokenOp>::empty()
        } else {
            attrs_ops(t.attributes@, is_body)
        }
    }
}

/// The additions for a text part: its tokens, `_null` in a body without
/// words, and in an HTML body the words and schemes of its links and
/// images.
pub open spec fn part_ops(p: TextPart, is_body: bool) -> Seq<TokenOp> {
    match p {
        TextPart::Plain { tokens, .. } => seq_ops(tokens@, is_body) + null_ops(tokens@, is_body),
        TextPart::Html { tokens, html_tokens, .. } => seq_ops(tokens@, is_body) + if is_body {
            null_ops(tokens@, is_body) + tags_ops(html_tokens@, is_body)
        } else {
            Seq::<TokenOp>::empty()
        },
        TextPart::NoText => Seq::empty(),
    }
}

/// The scheme of a value: what precedes its first `:`, or nothing.
fn scheme(v: &str) -> (r: String)
    ensures
        r@ == scheme_of(v@),
{
    let n = v.unicode_len();
    let mut i: usize = 0;
    while i < n
        invariant
            n == v@.len(),
            i <= n,
            first_index_of(v@.take(i as int), ':') == -1,
        decreases n - i,
    {
        assert(v@.take(i + 1).drop_last() =~= v@.take(i as int));
        if v.get_char(i) == ':' {
            proof {
                lemma_first_index_extends(v@, i as int);
            }
            return String::from_str(v.substring_char(0, i));
        }
        i = i + 1;
    }
    assert(v@.take(n as int) =~= v@);
    String::new()
}

/// A first occurrence found in a prefix stays the first in the whole.
proof fn lemma_first_index_extends(s: Seq<char>, i: int)
    requires
        0 <= i < s.len(),
        first_index_of(s.take(i), ':') == -1,
        s[i] == ':',
    ensures
        first_index_of(s, ':') == i,
    decreases s.len(),
{
    assert(s.take(i + 1).drop_last() =~= s.take(i));
    if s.len() > i + 1 {
        assert(s.drop_last().take(i) =~= s.take(i));
        lemma_first_index_extends(s.drop_last(), i);
    }
}

impl Tokens {
    /// Adds the tokens of a text (see [`seq_ops`]).
    pub fn insert_types(&mut self, tokens: &Vec<TextToken>, is_body: bool)
        requires
            old(self).wf(),
        ensures
            final(self).wf(),
            final(self).counts() == apply_ops(old(self).counts(), seq_ops(tokens@, is_body)),
    {
        let ghost c0 = self.counts();
        let mut i: usize = 0;
        while i < tokens.len()
            invariant
                i <= tokens@.len(),
                self.wf(),
                self.counts() == apply_ops(c0, seq_ops(tokens@.take(i as int), is_body)),
            decreases tokens.len() - i,
        {
            assert(tokens@.take(i + 1).drop_last() =~= tokens@.take(i as int));
            let ghost c1 = self.counts();
            self.insert_type(&tokens[i], is_body);
            proof {
                lemma_apply_ops_concat(c0, seq_ops(tokens@.take(i as int), is_body), type_ops(tokens@[i as int], is_body));
            }
            i = i + 1;
        }
        assert(tokens@.take(tokens@.len() as int) =~= tokens@);
    }

    /// Adds the tokens of an attribute (see [`attr_ops`]).
    fn insert_attr(&mut self, a: &HtmlAttribute, is_body: bool)
        requires
            old(self).wf(),
        ensures
            final(self).wf(),
            final(self).counts() == apply_ops(old(self).counts(), attr_ops(*a, is_body)),
    {
        let ghost c0 = self.counts();
        match &a.value {
            Some(v) => match a.name {
                HtmlAttrName::Alt | HtmlAttrName::Title => self.insert_types(&a.tokens, is_body),
                HtmlAttrName::Src => {
                    self.insert(Token::HtmlImage { src: scheme(v.as_str()) });
                    proof {
                        lemma_one_op(c0, (text_key(11, scheme_of(v@)), false));
                    }
                },
                HtmlAttrName::Href => {
                    self.insert(Token::HtmlAnchor { href: scheme(v.as_str()) });
                    proof {
                        lemma_one_op(c0, (text_key(12, scheme_of(v@)), false));
                    }
                },
                HtmlAttrName::Other => {},
            },
            None => {},
        }
    }

    /// Adds the tokens of the links and images among start tags (see
    /// [`tags_ops`]).
    fn insert_tags(&mut self, tags: &Vec<HtmlStartTag>, is_body: bool)
        requires
            old(self).wf(),
        ensures
            final(self).wf(),
            final(self).counts() == apply_ops(old(self).counts(), tags_ops(tags@, is_body)),
    {
        let ghost c0 = self.counts();
        let mut i: usize = 0;
        while i < tags.len()
            invariant
                i <= tags@.len(),
                self.wf(),
                self.counts() == apply_ops(c0, tags_ops(tags@.take(i as int), is_body)),
            decreases tags.len() - i,
        {
            assert(tags@.take(i + 1).drop_last() =~= tags@.take(i as int));
            let tag = &tags[i];
            let ghost before = tags_ops(tags@.take(i as int), is_body);
            if tag.name != HtmlTagName::Other {
                let attrs = &tag.attributes;
                let mut j: usize = 0;
                while j < attrs.len()
                    invariant
                        i < tags@.len(),
                        *tag == tags@[i as int],
                        attrs@ == tag.attributes@,
                        j <= attrs@.len(),
                        self.wf(),
                        self.counts() == apply_ops(c0, before + attrs_ops(attrs@.take(j as int), is_body)),
                    decreases attrs.len() - j,
                {
                    assert(attrs@.take(j + 1).drop_last() =~= attrs@.take(j as int));
                    self.insert_attr(&attrs[j], is_body);
                    proof {
                        lemma_apply_ops_concat(c0, before + attrs_ops(attrs@.take(j as int), is_body), attr_ops(attrs@[j as int], is_body));
                        assert(before + attrs_ops(attrs@.take(j as int), is_body) + attr_ops(attrs@[j as int], is_body)
                            =~= before + attrs_ops(attrs@.take(j + 1), is_body));
                    }
                    j = j + 1;
                }
                assert(attrs@.take(attrs@.len() as int) =~= attrs@);
            } else {
                assert(before + Seq::<TokenOp>::empty() =~= before);
            }
            i = i + 1;
        }
        assert(tags@.take(tags@.len() as int) =~= tags@);
    }

    /// Adds `_null` in a body without words.
    fn insert_null(&mut self, tokens: &Vec<TextToken>, is_body: bool)
        requires
            old(self).wf(),
        ensures
            final(self).wf(),
            final(self).counts() == apply_ops(old(self).counts(), null_ops(tokens@, is_body)),
    {
        let ghost c0 = self.counts();
        if !is_body {
            assert(null_ops(tokens@, is_body) =~= Seq::<TokenOp>::empty());
            return;
        }
        let mut i: usize = 0;
        while i < tokens.len()
            invariant
                i <= tokens@.len(),
                is_body,
                self.wf(),
                self.counts() == c0,
                forall|j: int| 0 <= j < i ==> !((#[trigger] tokens@[j]) is Alphabetic),
            decreases tokens.len() - i,
        {
            if let TextToken::Alphabetic { .. } = &tokens[i] {
                assert(tokens@[i as int] is Alphabetic);
                assert(null_ops(tokens@, is_body) =~= Seq::<TokenOp>::empty());
                return;
            }
            i = i + 1;
        }
        self.insert(text_token(0, String::from_str("_null")));
        proof {
            lemma_one_op(c0, (text_key(0, "_null"@), false));
        }
    }

    /// Adds the tokens of a text part (see [`part_ops`]).
    pub fn insert_text_part(&mut self, part: &TextPart, is_body: bool)
        requires
            old(self).wf(),
        ensures
            final(self).wf(),
            final(self).counts() == apply_ops(old(self).counts(), part_ops(*part, is_body)),
    {
        let ghost c0 = self.counts();
        match part {
            TextPart::Plain { tokens, .. } => {
                self.insert_types(tokens, is_body);
                let ghost c1 = self.counts();
                self.insert_null(tokens, is_body);
                proof {
                    lemma_apply_ops_concat(c0, seq_ops(tokens@, is_body), null_ops(tokens@, is_body));
                }
            },
            TextPart::Html { tokens, html_tokens, .. } => {
                self.insert_types(tokens, is_body);
                if is_body {
                    self.insert_null(tokens, is_body);
                    self.insert_tags(html_tokens, is_body);
                    proof {
                        lemma_apply_ops_concat(c0, seq_ops(tokens@, is_body), null_ops(tokens@, is_body));
                        lemma_apply_ops_concat(
                            c0,
                            seq_ops(tokens@, is_body) + null_ops(tokens@, is_body),
                            tags_ops(html_tokens@, is_body),
                        );
                        assert(seq_ops(tokens@, is_body) + null_ops(tokens@, is_body) + tags_ops(html_tokens@, is_body)
                            =~= seq_ops(tokens@, is_body) + (null_ops(tokens@, is_body) + tags_ops(html_tokens@, is_body)));
                    }
                } else {
                    assert(seq_ops(tokens@, is_body) + Seq::<TokenOp>::empty() =~= seq_ops(tokens@, is_body));
                }
            },
            TextPart::NoText => {},
        }
    }
}


/// The text of a message that the classifier reads: the subject's tokens,
/// the text parts, and which of them are the text and HTML bodies.
pub struct MessageText {
    pub subject_tokens: Vec<TextToken>,
    pub text_parts: Vec<TextPart>,
    pub text_body: Vec<u32>,
    pub html_body: Vec<u32>,
}

/// The part that is the body: the first HTML body, else the first text
/// body.
pub open spec fn body_index(m: MessageText) -> Option<int> {
    if m.html_body@.len() > 0 {
        Some(m.html_body@[0] as int)
    } else if m.text_body@.len() > 0 {
        Some(m.text_body@[0] as int)
    } else {
        None
    }
}

/// Whether a part counts fully: the body, or a part that is neither a text
/// nor an HTML body (the others are alternatives of the body).
pub open spec fn is_main_part(m: MessageText, i: int) -> bool {
    body_index(m) == Some(i) || (!m.text_body@.contains(i as u32) && !m.html_body@.contains(i as u32))
}

/// The additions of the first `n` parts that count fully.
pub open spec fn main_parts_ops(m: MessageText, n: nat) -> Seq<TokenOp>
    decreases n,
{
    if n == 0 {
        Seq::empty()
    } else {
        let i = n - 1;
        main_parts_ops(m, (n - 1) as nat) + if is_main_part(m, i) {
            part_ops(m.text_parts@[i], body_index(m) == Some(i))
        } else {
            Seq::<TokenOp>::empty()
        }
    }
}

/// The additions of the first `n` parts that are alternatives of the body.
pub open spec fn alt_parts_ops(m: MessageText, n: nat) -> Seq<TokenOp>
    decreases n,
{
    if n == 0 {
        Seq::empty()
    } else {
        let i = n - 1;
        alt_parts_ops(m, (n - 1) as nat) + if is_main_part(m, i) {
            Seq::<TokenOp>::empty()
        } else {
            part_ops(m.text_parts@[i], false)
        }
    }
}

/// The counts of a message's tokens: its sources, its subject and the
/// parts that count fully, then the tokens of alternative parts where they
/// are missing.
pub open spec fn message_counts(src: TokenSources, m: MessageText) -> spec_fn((u16, Seq<u8>)) -> nat {
    let zero = |k: (u16, Seq<u8>)| 0nat;
    merged_missing(
        apply_ops(
            zero,
            sources_ops(src) + seq_ops(m.subject_tokens@, false) + main_parts_ops(m, m.text_parts@.len()),
        ),
        apply_ops(zero, alt_parts_ops(m, m.text_parts@.len())),
    )
}

/// Whether a list of part numbers holds `i`.
fn holds_index(v: &Vec<u32>, i: u32) -> (r: bool)
    ensures
        r == v@.contains(i),
{
    let mut k: usize = 0;
    while k < v.len()
        invariant
            k <= v@.len(),
            forall|j: int| 0 <= j < k ==> v@[j] != i,
        decreases v.len() - k,
    {
        if v[k] == i {
            assert(v@[k as int] == i);
            return true;
        }
        k = k + 1;
    }
    false
}

/// The tokens of a message (see [`message_counts`]), counted in a new bag.
pub fn spam_build_tokens(src: &TokenSources, m: &MessageText) -> (r: Tokens)
    ensures
        r.wf(),
        r.counts() == message_counts(*src, *m),
{
    let ghost zero = |k: (u16, Seq<u8>)| 0nat;
    let mut tokens = source_tokens(src);
    let ghost c1 = tokens.counts();
    tokens.insert_types(&m.subject_tokens, false);
    proof {
        lemma_apply_ops_concat(zero, sources_ops(*src), seq_ops(m.subject_tokens@, false));
    }
    let ghost base = sources_ops(*src) + seq_ops(m.subject_tokens@, false);
    let body: Option<usize> = if m.html_body.len() > 0 {
        Some(m.html_body[0] as usize)
    } else if m.text_body.len() > 0 {
        Some(m.text_body[0] as usize)
    } else {
        None
    };
    let mut alt = Tokens::new();
    assert(alt.counts() =~= zero);
    let parts = &m.text_parts;
    let mut i: usize = 0;
    while i < parts.len()
        invariant
            i <= parts@.len(),
            parts@ == m.text_parts@,
            body == (match body_index(*m) {
                Some(b) => Some(b as usize),
                None => None::<usize>,
            }),
            tokens.wf(),
            alt.wf(),
            tokens.counts() == apply_ops(zero, base + main_parts_ops(*m, i as nat)),
            alt.counts() == apply_ops(zero, alt_parts_ops(*m, i as nat)),
        decreases parts.len() - i,
    {
        let is_body = body == Some(i);
        assert(is_body == (body_index(*m) == Some(i as int)));
        let main = is_body || (!holds_index(&m.text_body, i as u32) && !holds_index(&m.html_body, i as u32));
        if main {
            tokens.insert_text_part(&parts[i], is_body);
            proof {
                lemma_apply_ops_concat(zero, base + main_parts_ops(*m, i as nat), part_ops(parts@[i as int], is_body));
                assert(base + main_parts_ops(*m, i as nat) + part_ops(parts@[i as int], is_body)
                    =~= base + main_parts_ops(*m, (i + 1) as nat));
                assert(alt_parts_ops(*m, (i + 1) as nat) =~= alt_parts_ops(*m, i as nat));
            }
        } else {
            alt.insert_text_part(&parts[i], false);
            proof {
                lemma_apply_ops_concat(zero, alt_parts_ops(*m, i as nat), part_ops(parts@[i as int], false));
                assert(base + main_parts_ops(*m, (i + 1) as nat) =~= base + main_parts_ops(*m, i as nat));
            }
        }
        i = i + 1;
    }
    tokens.merge_missing(alt);
    tokens
}

} // verus!
