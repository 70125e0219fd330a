//! The bag of classifier tokens of a message: each distinct token with the
//! number of times it was seen.
//!
//! A token is known to the classifier by its kind code and the bytes of its
//! value, so the bag counts tokens by that key. A count stops growing at
//! 2^24, where a single-precision counter stops counting.

use vstd::prelude::*;
use vstd::string::{StrSliceExecFns, StringSliceAdditionalSpecFns};
use vstd::utf8::encode_utf8;
use crate::external::{alphabetic, is_alphabetic};
use crate::spam::{lower_chars, lower_prefix, truncate_word, truncated, Token, MAX_TOKEN_LENGTH};
use crate::text::{last_index_of, lemma_last_index_of, push_char, rfind_char, str_eq};

verus! {

/// The count at which a token count stops growing.
pub const MAX_TOKEN_COUNT: u32 = 16777216;

/// What the classifier knows a token by: its kind code and value bytes.
pub open spec fn token_key(t: Token) -> (u16, Seq<u8>) {
    (t.kind_code(), t.value_bytes())
}

/// The count that a list of entries holds for a key: that of the last
/// entry with the key, or zero.
pub open spec fn entry_count(es: Seq<(Token, u32)>, k: (u16, Seq<u8>)) -> nat
    decreases es.len(),
{
    if es.len() == 0 {
        0
    } else if token_key(es.last().0) == k {
        es.last().1 as nat
    } else {
        entry_count(es.drop_last(), k)
    }
}

/// The counts after one token is added: counted once more (up to the
/// limit), or, when `if_missing`, set to one only where it was not there.
pub open spec fn bumped(
    c: spec_fn((u16, Seq<u8>)) -> nat,
    key: (u16, Seq<u8>),
    if_missing: bool,
) -> spec_fn((u16, Seq<u8>)) -> nat {
    |k: (u16, Seq<u8>)|
        if k == key {
            if if_missing {
                if c(k) == 0 {
                    1
                } else {
                    c(k)
                }
            } else if c(k) < MAX_TOKEN_COUNT {
                c(k) + 1
            } else {
                c(k)
            }
        } else {
            c(k)
        }
}

/// The counts after a list of additions, each a key and whether it is
/// added only where missing.
pub open spec fn apply_ops(
    c: spec_fn((u16, Seq<u8>)) -> nat,
    ops: Seq<((u16, Seq<u8>), bool)>,
) -> spec_fn((u16, Seq<u8>)) -> nat
    decreases ops.len(),
{
    if ops.len() == 0 {
        c
    } else {
        bumped(apply_ops(c, ops.drop_last()), ops.last().0, ops.last().1)
    }
}

/// Additions in two runs are the additions of both lists in turn.
pub proof fn lemma_apply_ops_concat(
    c: spec_fn((u16, Seq<u8>)) -> nat,
    a: Seq<((u16, Seq<u8>), bool)>,
    b: Seq<((u16, Seq<u8>), bool)>,
)
    ensures
        apply_ops(c, a + b) == apply_ops(apply_ops(c, a), b),
    decreases b.len(),
{
    if b.len() == 0 {
        assert(a + b =~= a);
    } else {
        assert((a + b).drop_last() =~= a + b.drop_last());
        lemma_apply_ops_concat(c, a, b.drop_last());
    }
}

proof fn lemma_count_absent(es: Seq<(Token, u32)>, k: (u16, Seq<u8>))
    requires
        forall|i: int| 0 <= i < es.len() ==> token_key(#[trigger] es[i].0) != k,
    ensures
        entry_count(es, k) == 0,
    decreases es.len(),
{
    if es.len() > 0 {
        assert(token_key(es[es.len() - 1].0) != k);
        lemma_count_absent(es.drop_last(), k);
    }
}

proof fn lemma_count_at(es: Seq<(Token, u32)>, i: int)
    requires
        0 <= i < es.len(),
        forall|a: int, b: int|
            0 <= a < b < es.len() ==> token_key(#[trigger] es[a].0) != token_key(#[trigger] es[b].0),
    ensures
        entry_count(es, token_key(es[i].0)) == es[i].1,
    decreases es.len(),
{
    if i < es.len() - 1 {
        assert(token_key(es[i].0) != token_key(es[es.len() - 1].0));
        assert(es.drop_last()[i] == es[i]);
        lemma_count_at(es.drop_last(), i);
    }
}

proof fn lemma_count_update(es: Seq<(Token, u32)>, i: int, c: u32, k: (u16, Seq<u8>))
    requires
        0 <= i < es.len(),
        forall|a: int, b: int|
            0 <= a < b < es.len() ==> token_key(#[trigger] es[a].0) != token_key(#[trigger] es[b].0),
    ensures
        entry_count(es.update(i, (es[i].0, c)), k) == if k == token_key(es[i].0) {
            c as nat
        } else {
            entry_count(es, k)
        },
    decreases es.len(),
{
    let u = es.update(i, (es[i].0, c));
    if i == es.len() - 1 {
        assert(u.drop_last() =~= es.drop_last());
        if k == token_key(es[i].0) {
        } else {
        }
    } else {
        assert(u.drop_last() =~= es.drop_last().update(i, (es[i].0, c)));
        assert(es.drop_last()[i] == es[i]);
        lemma_count_update(es.drop_last(), i, c, k);
        assert(u.last() == es.last());
        if k == token_key(es[i].0) {
            assert(token_key(es[i].0) != token_key(es[es.len() - 1].0));
        }
    }
}

/// Whether two byte strings are equal.
fn bytes_eq(a: &[u8], b: &[u8]) -> (r: bool)
    ensures
        r == (a@ == b@),
{
    if a.len() != b.len() {
        return false;
    }
    let mut i: usize = 0;
    while i < a.len()
        invariant
            a@.len() == b@.len(),
            i <= a@.len(),
            forall|j: int| 0 <= j < i ==> a@[j] == b@[j],
        decreases a.len() - i,
    {
        if a[i] != b[i] {
            return false;
        }
        i = i + 1;
    }
    assert(a@ =~= b@);
    true
}

/// Whether two tokens are the same to the classifier.
pub fn same_token(a: &Token, b: &Token) -> (r: bool)
    ensures
        r == (token_key(*a) == token_key(*b)),
{
    a.prefix() == b.prefix() && bytes_eq(a.value(), b.value())
}

/// The tokens of a message and how many times each was seen.
pub struct Tokens {
    entries: Vec<(Token, u32)>,
}

impl Tokens {
    /// Each token is held once, with a count of at least one and at most
    /// the limit.
    pub closed spec fn wf(&self) -> bool {
        &&& forall|a: int, b: int|
            0 <= a < b < self.entries@.len() ==> token_key(#[trigger] self.entries@[a].0)
                != token_key(#[trigger] self.entries@[b].0)
        &&& forall|i: int|
            0 <= i < self.entries@.len() ==> 1 <= (#[trigger] self.entries@[i]).1 <= MAX_TOKEN_COUNT
    }

    /// How many times each token was seen (zero for a token not seen).
    pub closed spec fn counts(&self) -> spec_fn((u16, Seq<u8>)) -> nat {
        |k: (u16, Seq<u8>)| entry_count(self.entries@, k)
    }

    /// The number of distinct tokens.
    pub closed spec fn size(&self) -> nat {
        self.entries@.len()
    }

    /// An empty bag.
    pub fn new() -> (r: Tokens)
        ensures
            r.wf(),
            r.size() == 0,
            forall|k: (u16, Seq<u8>)| #[trigger] r.counts()(k) == 0,
    {
        Tokens { entries: Vec::new() }
    }

    /// The number of distinct tokens.
    pub fn len(&self) -> (r: usize)
        ensures
            r == self.size(),
    {
        self.entries.len()
    }

    /// Whether the bag holds no token.
    pub fn is_empty(&self) -> (r: bool)
        ensures
            r == (self.size() == 0),
    {
        self.entries.len() == 0
    }

    fn find(&self, token: &Token) -> (r: Option<usize>)
        requires
            self.wf(),
        ensures
            match r {
                Some(i) => i < self.entries@.len() && token_key(self.entries@[i as int].0)
                    == token_key(*token),
                None => forall|i: int|
                    0 <= i < self.entries@.len() ==> token_key(#[trigger] self.entries@[i].0)
                        != token_key(*token),
            },
    {
        let mut i: usize = 0;
        while i < self.entries.len()
            invariant
                i <= self.entries@.len(),
                forall|j: int|
                    0 <= j < i ==> token_key(#[trigger] self.entries@[j].0) != token_key(*token),
            decreases self.entries.len() - i,
        {
            if same_token(&self.entries[i].0, token) {
                return Some(i);
            }
            i = i + 1;
        }
        None
    }

    /// How many times a token was seen.
    pub fn count(&self, token: &Token) -> (r: u32)
        requires
            self.wf(),
        ensures
            r == self.counts()(token_key(*token)),
    {
        match self.find(token) {
            Some(i) => {
                proof {
                    lemma_count_at(self.entries@, i as int);
                }
                self.entries[i].1
            },
            None => {
                proof {
                    lemma_count_absent(self.entries@, token_key(*token));
                }
                0
            },
        }
    }

    fn add(&mut self, token: Token, if_missing: bool)
        requires
            old(self).wf(),
        ensures
            final(self).wf(),
            final(self).counts() == bumped(old(self).counts(), token_key(token), if_missing),
            final(self).size() == old(self).size() + if old(self).counts()(token_key(token)) == 0 {
                1int
            } else {
                0int
            },
    {
        let ghost key = token_key(token);
        let ghost es = self.entries@;
        match self.find(&token) {
            Some(i) => {
                proof {
                    lemma_count_at(es, i as int);
                }
                let c = self.entries[i].1;
                let next: u32 = if if_missing {
                    c
                } else if c < MAX_TOKEN_COUNT {
                    c + 1
                } else {
                    c
                };
                let t = self.entries[i].0.clone_token();
                self.entries.set(i, (t, next));
                proof {
                    assert(self.entries@ =~= es.update(i as int, (es[i as int].0, next)));
                    assert forall|k: (u16, Seq<u8>)|
                        #[trigger] self.counts()(k) == bumped(
                            old(self).counts(),
                            key,
                            if_missing,
                        )(k) by {
                        lemma_count_update(es, i as int, next, k);
                    }
                    assert(self.counts() =~= bumped(old(self).counts(), key, if_missing));
                    assert forall|a: int, b: int|
                        0 <= a < b < self.entries@.len() implies token_key(
                            #[trigger] self.entries@[a].0,
                        ) != token_key(#[trigger] self.entries@[b].0) by {
                        assert(es[a].0 == self.entries@[a].0);
                        assert(es[b].0 == self.entries@[b].0);
                    }
                    assert forall|j: int| 0 <= j < self.entries@.len() implies 1 <= (
                    #[trigger] self.entries@[j]).1 <= MAX_TOKEN_COUNT by {
                        if j != i {
                            assert(self.entries@[j] == es[j]);
                        }
                    }
                }
            },
            None => {
                proof {
                    lemma_count_absent(es, key);
                }
                self.entries.push((token, 1));
                proof {
                    assert(self.entries@.drop_last() =~= es);
                    assert forall|k: (u16, Seq<u8>)|
                        #[trigger] self.counts()(k) == bumped(
                            old(self).counts(),
                            key,
                            if_missing,
                        )(k) by {}
                    assert(self.counts() =~= bumped(old(self).counts(), key, if_missing));
                    assert forall|a: int, b: int|
                        0 <= a < b < self.entries@.len() implies token_key(
                            #[trigger] self.entries@[a].0,
                        ) != token_key(#[trigger] self.entries@[b].0) by {
                        if b < es.len() {
                            assert(es[a] == self.entries@[a]);
                            assert(es[b] == self.entries@[b]);
                        } else {
                            assert(es[a] == self.entries@[a]);
                        }
                    }
                    assert forall|j: int| 0 <= j < self.entries@.len() implies 1 <= (
                    #[trigger] self.entries@[j]).1 <= MAX_TOKEN_COUNT by {
                        if j < es.len() {
                            assert(self.entries@[j] == es[j]);
                        }
                    }
                }
            },
        }
    }

    /// Counts a token once more.
    pub fn insert(&mut self, token: Token)
        requires
            old(self).wf(),
        ensures
            final(self).wf(),
            final(self).counts() == bumped(old(self).counts(), token_key(token), false),
    {
        self.add(token, false);
    }

    /// Adds a token with a count of one, unless it is there already.
    pub fn insert_if_missing(&mut self, token: Token)
        requires
            old(self).wf(),
        ensures
            final(self).wf(),
            final(self).counts() == bumped(old(self).counts(), token_key(token), true),
    {
        self.add(token, true);
    }
}


/// The kind codes of the tokens that carry a text.
pub open spec fn is_text_kind(kind: u16) -> bool {
    kind == 0 || kind == 3 || kind == 4 || (6 <= kind <= 12 && kind != 5)
}

/// A token of a text kind with a value.
pub fn text_token(kind: u16, value: String) -> (t: Token)
    requires
        is_text_kind(kind),
    ensures
        token_key(t) == (kind, encode_utf8(value@)),
{
    match kind {
        0 => Token::Word { value },
        3 => Token::UnicodeCategory { value },
        4 => Token::Sender { value },
        6 => Token::Url { value },
        7 => Token::Email { value },
        8 => Token::Hostname { value },
        9 => Token::Attachment { value },
        10 => Token::MimeType { value },
        11 => Token::HtmlImage { src: value },
        _ => Token::HtmlAnchor { href: value },
    }
}

/// The key of a text token.
pub open spec fn text_key(kind: u16, value: Seq<char>) -> (u16, Seq<u8>) {
    (kind, encode_utf8(value))
}

/// The additions for an address: the address, its domain and, where it
/// differs from the domain, its registrable part (for a recipient, only a
/// non-empty one), each only where missing, as a sender or as an email
/// token; nothing for an empty address.
pub open spec fn email_ops(
    address: Seq<char>,
    fqdn: Seq<char>,
    sld: Option<Seq<char>>,
    is_sender: bool,
) -> Seq<((u16, Seq<u8>), bool)> {
    let kind: u16 = if is_sender { 4 } else { 7 };
    if address.len() == 0 {
        Seq::empty()
    } else {
        let base = seq![(text_key(kind, address), true), (text_key(kind, fqdn), true)];
        match sld {
            Some(s) => if s != fqdn && (is_sender || s.len() > 0) {
                base.push((text_key(kind, s), true))
            } else {
                base
            },
            None => base,
        }
    }
}

/// The additions for the host of a link: its registrable part and, where it
/// differs, its full name; or only the full name when it has no
/// registrable part.
pub open spec fn url_host_ops(sld: Option<Seq<char>>, fqdn: Seq<char>) -> Seq<((u16, Seq<u8>), bool)> {
    match sld {
        Some(h) => if h != fqdn {
            seq![(text_key(6, h), false), (text_key(6, fqdn), false)]
        } else {
            seq![(text_key(6, h), false)]
        },
        None => seq![(text_key(6, fqdn), false)],
    }
}

/// The additions for a host name: its registrable part where it is not
/// empty and differs from the full name, then the full name.
pub open spec fn hostname_ops(sld: Seq<char>, fqdn: Seq<char>) -> Seq<((u16, Seq<u8>), bool)> {
    if sld.len() > 0 && sld != fqdn {
        seq![(text_key(8, sld), false), (text_key(8, fqdn), false)]
    } else {
        seq![(text_key(8, fqdn), false)]
    }
}

/// Whether a character separates the words of a link path.
pub open spec fn is_path_sep(c: char) -> bool {
    c == '/' || c == '.' || c == '_'
}

/// The pieces of a link path between separators, empty ones included.
pub open spec fn path_pieces(s: Seq<char>) -> Seq<Seq<char>>
    decreases s.len(),
{
    if s.len() == 0 {
        seq![Seq::empty()]
    } else {
        let p = path_pieces(s.drop_last());
        if is_path_sep(s.last()) {
            p.push(Seq::empty())
        } else {
            p.update(p.len() - 1, p.last().push(s.last()))
        }
    }
}

/// The addition for one piece of a link path: a piece of letters of more
/// than two bytes gives a link token of an underscore and the piece, cut to
/// the token length.
pub open spec fn piece_ops(piece: Seq<char>) -> Seq<((u16, Seq<u8>), bool)> {
    let n = (encode_utf8(piece).len() as usize) as nat;
    if (forall|i: int| 0 <= i < piece.len() ==> alphabetic(#[trigger] piece[i])) && n > 2 {
        seq![(text_key(6, seq!['_'] + truncated(piece, n, MAX_TOKEN_LENGTH as nat)), false)]
    } else {
        Seq::empty()
    }
}

/// The additions for pieces of a link path, in order.
pub open spec fn pieces_ops(pieces: Seq<Seq<char>>) -> Seq<((u16, Seq<u8>), bool)>
    decreases pieces.len(),
{
    if pieces.len() == 0 {
        Seq::empty()
    } else {
        pieces_ops(pieces.drop_last()) + piece_ops(pieces.last())
    }
}

proof fn lemma_path_pieces_nonempty(s: Seq<char>)
    ensures
        path_pieces(s).len() >= 1,
    decreases s.len(),
{
    if s.len() > 0 {
        lemma_path_pieces_nonempty(s.drop_last());
    }
}

/// The lower case ASCII form of a text: each ASCII capital letter lowered.
pub open spec fn ascii_lowercase(s: Seq<char>) -> Seq<char> {
    s.map_values(|c: char| if 'A' <= c <= 'Z' { ((c as u32) + 32) as char } else { c })
}

/// The media type token of a content type: type and, where given, `/` and
/// subtype, in ASCII lower case.
pub open spec fn mime_text(c_type: Seq<char>, c_subtype: Option<Seq<char>>) -> Seq<char> {
    match c_subtype {
        Some(st) => ascii_lowercase(c_type) + seq!['/'] + ascii_lowercase(st),
        None => ascii_lowercase(c_type),
    }
}

/// The addition for an attachment name: where the name has a `.` followed
/// by a non-empty extension, an attachment token of `!` and the extension
/// (cut to the token length) in lower case.
pub open spec fn extension_ops(name: Seq<char>) -> Seq<((u16, Seq<u8>), bool)> {
    let i = last_index_of(name, '.');
    let ext = name.subrange(i + 1, name.len() as int);
    if i >= 0 && ext.len() > 0 {
        seq![(text_key(9, seq!['!'] + lower_chars(truncated(ext, (encode_utf8(ext).len() as usize) as nat, MAX_TOKEN_LENGTH as nat))), false)]
    } else {
        Seq::empty()
    }
}

/// The big-endian bytes of a 32-bit number.
pub open spec fn be_bytes(n: u32) -> Seq<u8> {
    seq![(n / 16777216) as u8, ((n / 65536) % 256) as u8, ((n / 256) % 256) as u8, (n % 256) as u8]
}

pub(crate) fn push_ascii_lower(out: &mut String, s: &str)
    ensures
        final(out)@ == old(out)@ + ascii_lowercase(s@),
{
    let n = s.unicode_len();
    let mut i: usize = 0;
    while i < n
        invariant
            n == s@.len(),
            i <= n,
            out@ == old(out)@ + ascii_lowercase(s@.take(i as int)),
        decreases n - i,
    {
        let c = s.get_char(i);
        let l = if 'A' <= c && c <= 'Z' {
            ((c as u32) + 32) as u8 as char
        } else {
            c
        };
        assert(l == (if 'A' <= c <= 'Z' { ((c as u32) + 32) as char } else { c }));
        push_char(out, l);
        assert(ascii_lowercase(s@.take(i + 1)) =~= ascii_lowercase(s@.take(i as int)).push(l));
        i = i + 1;
    }
    assert(s@.take(n as int) =~= s@);
}

/// Whether every character of a text is a letter.
fn all_alphabetic(s: &str) -> (r: bool)
    ensures
        r == forall|i: int| 0 <= i < s@.len() ==> alphabetic(#[trigger] s@[i]),
{
    let n = s.unicode_len();
    let mut i: usize = 0;
    while i < n
        invariant
            n == s@.len(),
            i <= n,
            forall|j: int| 0 <= j < i ==> alphabetic(#[trigger] s@[j]),
        decreases n - i,
    {
        if !is_alphabetic(s.get_char(i)) {
            return false;
        }
        i = i + 1;
    }
    true
}

impl Tokens {
    fn add_text(&mut self, kind: u16, value: String, if_missing: bool)
        requires
            old(self).wf(),
            is_text_kind(kind),
        ensures
            final(self).wf(),
            final(self).counts() == bumped(old(self).counts(), text_key(kind, value@), if_missing),
    {
        let t = text_token(kind, value);
        self.add(t, if_missing);
    }

    /// Adds the tokens of an address (see [`email_ops`]).
    pub fn insert_email(&mut self, address: &str, fqdn: &str, sld: Option<&str>, is_sender: bool)
        requires
            old(self).wf(),
        ensures
            final(self).wf(),
            final(self).counts() == apply_ops(
                old(self).counts(),
                email_ops(address@, fqdn@, match sld { Some(s) => Some(s@), None => None }, is_sender),
            ),
    {
        if address.unicode_len() == 0 {
            return;
        }
        let kind: u16 = if is_sender { 4 } else { 7 };
        let ghost c0 = self.counts();
        self.add_text(kind, String::from_str(address), true);
        self.add_text(kind, String::from_str(fqdn), true);
        let ghost base = seq![(text_key(kind, address@), true), (text_key(kind, fqdn@), true)];
        proof {
            reveal_with_fuel(apply_ops, 3);
            assert(base.drop_last().drop_last() =~= Seq::<((u16, Seq<u8>), bool)>::empty());
            assert(self.counts() == apply_ops(c0, base));
        }
        match sld {
            Some(s) => {
                if !str_eq(s, fqdn) && (is_sender || s.unicode_len() > 0) {
                    self.add_text(kind, String::from_str(s), true);
                    proof {
                        let full = base.push((text_key(kind, s@), true));
                        assert(full.drop_last() =~= base);
                    }
                }
            },
            None => {},
        }
    }

    /// Adds the tokens of the host of a link (see [`url_host_ops`]).
    pub fn insert_url_host(&mut self, sld: Option<&str>, fqdn: &str)
        requires
            old(self).wf(),
        ensures
            final(self).wf(),
            final(self).counts() == apply_ops(
                old(self).counts(),
                url_host_ops(match sld { Some(s) => Some(s@), None => None }, fqdn@),
            ),
    {
        let ghost c0 = self.counts();
        proof {
            reveal_with_fuel(apply_ops, 3);
        }
        match sld {
            Some(h) => {
                self.add_text(6, String::from_str(h), false);
                if !str_eq(h, fqdn) {
                    self.add_text(6, String::from_str(fqdn), false);
                    let ghost ops = seq![(text_key(6, h@), false), (text_key(6, fqdn@), false)];
                    assert(ops.drop_last().drop_last() =~= Seq::<((u16, Seq<u8>), bool)>::empty());
                } else {
                    let ghost ops = seq![(text_key(6, h@), false)];
                    assert(ops.drop_last() =~= Seq::<((u16, Seq<u8>), bool)>::empty());
                }
            },
            None => {
                self.add_text(6, String::from_str(fqdn), false);
                let ghost ops = seq![(text_key(6, fqdn@), false)];
                assert(ops.drop_last() =~= Seq::<((u16, Seq<u8>), bool)>::empty());
            },
        }
    }

    /// Adds the tokens of a host name (see [`hostname_ops`]).
    pub fn insert_hostname(&mut self, sld: &str, fqdn: &str)
        requires
            old(self).wf(),
        ensures
            final(self).wf(),
            final(self).counts() == apply_ops(old(self).counts(), hostname_ops(sld@, fqdn@)),
    {
        proof {
            reveal_with_fuel(apply_ops, 3);
        }
        if sld.unicode_len() > 0 && !str_eq(sld, fqdn) {
            self.add_text(8, String::from_str(sld), false);
            let ghost ops = seq![(text_key(8, sld@), false), (text_key(8, fqdn@), false)];
            assert(ops.drop_last().drop_last() =~= Seq::<((u16, Seq<u8>), bool)>::empty());
        } else {
            let ghost ops = seq![(text_key(8, fqdn@), false)];
            assert(ops.drop_last() =~= Seq::<((u16, Seq<u8>), bool)>::empty());
        }
        self.add_text(8, String::from_str(fqdn), false);
    }

    /// Counts the network number of the sender.
    pub fn insert_asn(&mut self, asn: u32)
        requires
            old(self).wf(),
        ensures
            final(self).wf(),
            final(self).counts() == bumped(old(self).counts(), (5u16, be_bytes(asn)), false),
    {
        let number: [u8; 4] = [
            (asn / 16777216) as u8,
            ((asn / 65536) % 256) as u8,
            ((asn / 256) % 256) as u8,
            (asn % 256) as u8,
        ];
        assert(number@ =~= be_bytes(asn));
        self.add(Token::Asn { number }, false);
    }

    /// Counts the media type of a part (see [`mime_text`]).
    pub fn insert_mime_type(&mut self, c_type: &str, c_subtype: Option<&str>)
        requires
            old(self).wf(),
        ensures
            final(self).wf(),
            final(self).counts() == bumped(
                old(self).counts(),
                text_key(10, mime_text(c_type@, match c_subtype { Some(s) => Some(s@), None => None })),
                false,
            ),
    {
        let mut value = String::new();
        proof {
            reveal_strlit("");
        }
        push_ascii_lower(&mut value, c_type);
        match c_subtype {
            Some(st) => {
                push_char(&mut value, '/');
                push_ascii_lower(&mut value, st);
                assert(value@ =~= ascii_lowercase(c_type@) + seq!['/'] + ascii_lowercase(st@));
            },
            None => {
                assert(value@ =~= ascii_lowercase(c_type@));
            },
        }
        self.add_text(10, value, false);
    }

    /// Counts the extension of an attachment name (see [`extension_ops`]).
    pub fn insert_attachment_extension(&mut self, name: &str)
        requires
            old(self).wf(),
        ensures
            final(self).wf(),
            final(self).counts() == apply_ops(old(self).counts(), extension_ops(name@)),
    {
        proof {
            lemma_last_index_of(name@, '.');
            reveal_with_fuel(apply_ops, 2);
        }
        match rfind_char(name, '.') {
            Some(i) => {
                let n = name.unicode_len();
                let ext = name.substring_char(i + 1, n);
                if ext.unicode_len() > 0 {
                    let cut = truncate_word(ext, MAX_TOKEN_LENGTH);
                    let value = lower_prefix("!", cut);
                    proof {
                        reveal_strlit("!");
                    }
                    assert(ext@ == name@.subrange(i + 1, name@.len() as int));
                    assert(value@ =~= seq!['!'] + lower_chars(cut@));
                    let ghost ops = extension_ops(name@);
                    assert(ops.len() == 1);
                    assert(ops.drop_last() =~= Seq::<((u16, Seq<u8>), bool)>::empty());
                    assert(ops.last() == (text_key(9, value@), false));
                    self.add_text(9, value, false);
                } else {
                    assert(extension_ops(name@).len() == 0);
                }
            },
            None => {
                assert(extension_ops(name@).len() == 0);
            },
        }
    }

    /// Counts the words of a link path (see [`pieces_ops`]).
    pub fn insert_url_path(&mut self, path: &str)
        requires
            old(self).wf(),
        ensures
            final(self).wf(),
            final(self).counts() == apply_ops(old(self).counts(), pieces_ops(path_pieces(path@))),
    {
        let ghost c0 = self.counts();
        let n = path.unicode_len();
        let mut start: usize = 0;
        let mut i: usize = 0;
        while i < n
            invariant
                n == path@.len(),
                start <= i <= n,
                self.wf(),
                path_pieces(path@.take(i as int)).len() >= 1,
                path_pieces(path@.take(i as int)).last() == path@.subrange(start as int, i as int),
                self.counts() == apply_ops(c0, pieces_ops(path_pieces(path@.take(i as int)).drop_last())),
            decreases n - i,
        {
            let c = path.get_char(i);
            let ghost prev = path_pieces(path@.take(i as int));
            assert(path@.take(i + 1).drop_last() =~= path@.take(i as int));
            if c == '/' || c == '.' || c == '_' {
                let piece = path.substring_char(start, i);
                self.insert_piece(piece);
                proof {
                    let next = prev.push(Seq::empty());
                    assert(path_pieces(path@.take(i + 1)) == next);
                    assert(next.drop_last() =~= prev);
                    assert(prev =~= prev.drop_last().push(prev.last()));
                    lemma_apply_ops_concat(c0, pieces_ops(prev.drop_last()), piece_ops(prev.last()));
                    assert(pieces_ops(prev) == pieces_ops(prev.drop_last()) + piece_ops(prev.last()));
                    assert(path@.subrange(i + 1, i + 1) =~= Seq::<char>::empty());
                }
                start = i + 1;
            } else {
                proof {
                    let next = prev.update(prev.len() - 1, prev.last().push(c));
                    assert(path_pieces(path@.take(i + 1)) == next);
                    assert(next.drop_last() =~= prev.drop_last());
                    assert(next.last() =~= path@.subrange(start as int, i + 1));
                    lemma_path_pieces_nonempty(path@.take(i + 1));
                }
            }
            i = i + 1;
        }
        let piece = path.substring_char(start, n);
        self.insert_piece(piece);
        proof {
            let all = path_pieces(path@.take(n as int));
            assert(path@.take(n as int) =~= path@);
            assert(all =~= all.drop_last().push(all.last()));
            lemma_apply_ops_concat(c0, pieces_ops(all.drop_last()), piece_ops(all.last()));
        }
    }

    fn insert_piece(&mut self, piece: &str)
        requires
            old(self).wf(),
        ensures
            final(self).wf(),
            final(self).counts() == apply_ops(old(self).counts(), piece_ops(piece@)),
    {
        proof {
            reveal_with_fuel(apply_ops, 2);
        }
        if all_alphabetic(piece) && piece.len() > 2 {
            let cut = truncate_word(piece, MAX_TOKEN_LENGTH);
            let mut value = String::new();
            proof {
                reveal_strlit("");
            }
            push_char(&mut value, '_');
            crate::text::push_str(&mut value, cut);
            assert(value@ =~= seq!['_'] + cut@);
            self.add_text(6, value, false);
            let ghost ops = piece_ops(piece@);
            assert(ops.drop_last() =~= Seq::<((u16, Seq<u8>), bool)>::empty());
        }
    }
}


/// The counts after taking from `other` the tokens that `base` lacks.
pub open spec fn merged_missing(
    base: spec_fn((u16, Seq<u8>)) -> nat,
    other: spec_fn((u16, Seq<u8>)) -> nat,
) -> spec_fn((u16, Seq<u8>)) -> nat {
    |k: (u16, Seq<u8>)| if base(k) == 0 { other(k) } else { base(k) }
}

proof fn lemma_count_take_step(es: Seq<(Token, u32)>, i: int, k: (u16, Seq<u8>))
    requires
        0 <= i < es.len(),
    ensures
        entry_count(es.take(i + 1), k) == if token_key(es[i].0) == k {
            es[i].1 as nat
        } else {
            entry_count(es.take(i), k)
        },
{
    assert(es.take(i + 1).drop_last() =~= es.take(i));
}

proof fn lemma_count_take_unique(es: Seq<(Token, u32)>, i: int)
    requires
        0 <= i < es.len(),
        forall|a: int, b: int|
            0 <= a < b < es.len() ==> token_key(#[trigger] es[a].0) != token_key(#[trigger] es[b].0),
    ensures
        entry_count(es.take(i), token_key(es[i].0)) == 0,
{
    let t = es.take(i);
    assert forall|j: int| 0 <= j < t.len() implies token_key(#[trigger] t[j].0) != token_key(es[i].0) by {
        assert(t[j] == es[j]);
    }
    lemma_count_absent(t, token_key(es[i].0));
}

impl Tokens {
    /// Takes from `other` each token that this bag lacks, with its count;
    /// the tokens already here keep theirs.
    pub fn merge_missing(&mut self, other: Tokens)
        requires
            old(self).wf(),
            other.wf(),
        ensures
            final(self).wf(),
            final(self).counts() == merged_missing(old(self).counts(), other.counts()),
    {
        let ghost c0 = self.counts();
        let ghost oes = other.entries@;
        let mut i: usize = 0;
        while i < other.entries.len()
            invariant
                oes == other.entries@,
                other.wf(),
                i <= oes.len(),
                self.wf(),
                forall|k: (u16, Seq<u8>)| #[trigger] self.counts()(k) == if c0(k) == 0 {
                    entry_count(oes.take(i as int), k)
                } else {
                    c0(k)
                },
            decreases oes.len() - i,
        {
            let ghost ke = token_key(oes[i as int].0);
            proof {
                lemma_count_take_unique(oes, i as int);
            }
            let ghost before = self.counts();
            match self.find(&other.entries[i].0) {
                Some(j) => {
                    proof {
                        lemma_count_at(self.entries@, j as int);
                        assert(1 <= self.entries@[j as int].1);
                        assert(self.counts()(ke) >= 1);
                        assert(c0(ke) != 0);
                        assert forall|k: (u16, Seq<u8>)| #[trigger] self.counts()(k) == if c0(k) == 0 {
                            entry_count(oes.take(i + 1), k)
                        } else {
                            c0(k)
                        } by {
                            lemma_count_take_step(oes, i as int, k);
                            assert(before(k) == self.counts()(k));
                            if k == ke {
                                assert(before(ke) == c0(ke));
                                assert(self.counts()(k) == c0(k));
                            } else {
                                assert(entry_count(oes.take(i + 1), k) == entry_count(oes.take(i as int), k));
                                assert(self.counts()(k) == if c0(k) == 0 {
                                    entry_count(oes.take(i as int), k)
                                } else {
                                    c0(k)
                                });
                            }
                        }
                    }
                },
                None => {
                    proof {
                        lemma_count_absent(self.entries@, ke);
                        assert(self.counts()(ke) == 0);
                        assert(c0(ke) == 0);
                        assert forall|k: (u16, Seq<u8>)| #[trigger] before(k) == if c0(k) == 0 {
                            entry_count(oes.take(i as int), k)
                        } else {
                            c0(k)
                        } by {
                            assert(before(k) == self.counts()(k));
                        }
                    }
                    let t = other.entries[i].0.clone_token();
                    let c = other.entries[i].1;
                    let ghost es = self.entries@;
                    self.entries.push((t, c));
                    proof {
                        assert(self.entries@.drop_last() =~= es);
                        assert forall|k: (u16, Seq<u8>)| #[trigger] self.counts()(k) == if c0(k) == 0 {
                            entry_count(oes.take(i + 1), k)
                        } else {
                            c0(k)
                        } by {
                            lemma_count_take_step(oes, i as int, k);
                            assert(before(k) == entry_count(es, k));
                        }
                        assert forall|a: int, b: int|
                            0 <= a < b < self.entries@.len() implies token_key(
                                #[trigger] self.entries@[a].0,
                            ) != token_key(#[trigger] self.entries@[b].0) by {
                            assert(es[a] == self.entries@[a]);
                            if b < es.len() {
                                assert(es[b] == self.entries@[b]);
                            }
                        }
                        assert forall|j: int| 0 <= j < self.entries@.len() implies 1 <= (
                        #[trigger] self.entries@[j]).1 <= MAX_TOKEN_COUNT by {
                            if j < es.len() {
                                assert(self.entries@[j] == es[j]);
                            }
                        }
                    }
                },
            }
            i = i + 1;
        }
        proof {
            assert(oes.take(oes.len() as int) =~= oes);
            assert(self.counts() =~= merged_missing(c0, other.counts()));
        }
    }
}


/// The parts of an address that tokens are made of: the address, its
/// domain and the domain's registrable part, where known.
pub struct AddressParts {
    pub address: String,
    pub fqdn: String,
    pub sld: Option<String>,
}

/// Where in a message an address was found.
#[derive(Clone, Copy, PartialEq, Eq, Structural)]
pub enum AddressLocation {
    HeaderReplyTo,
    HeaderDnt,
    BodyText,
    BodyHtml,
    Attachment,
    HeaderSubject,
    Elsewhere,
}

/// An address found in a message, with whether its domain is trusted.
pub struct FoundAddress {
    pub parts: AddressParts,
    pub location: AddressLocation,
    pub trusted: bool,
}

/// A link found in a message: the registrable part and full name of its
/// host, its path, and whether its domain is trusted.
pub struct FoundUrl {
    pub sld: Option<String>,
    pub fqdn: String,
    pub path: String,
    pub trusted: bool,
}

/// A host name found in a message: its registrable part (empty where it
/// has none) and full name, whether it was found where host names count
/// (a `Received` or `Message-ID` header, the greeting or the connection),
/// and whether its domain is trusted.
pub struct FoundHost {
    pub sld: String,
    pub fqdn: String,
    pub counted_location: bool,
    pub trusted: bool,
}

/// A part of a message: its attachment name and its content type (type and
/// subtype), where it has them.
pub struct PartInfo {
    pub attachment_name: Option<String>,
    pub content_type: Option<(String, Option<String>)>,
}

/// What the tokens of a message are made of, besides its text.
pub struct TokenSources {
    pub dmarc_failed: bool,
    pub env_from: AddressParts,
    pub from: AddressParts,
    pub addresses: Vec<FoundAddress>,
    pub urls: Vec<FoundUrl>,
    pub hosts: Vec<FoundHost>,
    pub asn: Option<u32>,
    pub parts: Vec<PartInfo>,
}

/// The view of an optional text.
pub open spec fn opt_view(o: Option<String>) -> Option<Seq<char>> {
    match o {
        Some(s) => Some(s@),
        None => None,
    }
}

/// The additions for an address.
pub open spec fn address_parts_ops(a: AddressParts, is_sender: bool) -> Seq<((u16, Seq<u8>), bool)> {
    email_ops(a.address@, a.fqdn@, opt_view(a.sld), is_sender)
}

/// The additions for an address found in a message: one in a `Reply-To`
/// or `DNT` header counts as a sender's; one in the text, an attachment or
/// the subject as a recipient's, and only when its domain is not trusted;
/// one found elsewhere gives nothing.
pub open spec fn found_address_ops(a: FoundAddress) -> Seq<((u16, Seq<u8>), bool)> {
    match a.location {
        AddressLocation::HeaderReplyTo | AddressLocation::HeaderDnt => address_parts_ops(a.parts, true),
        AddressLocation::Elsewhere => Seq::empty(),
        _ => if a.trusted {
            Seq::empty()
        } else {
            address_parts_ops(a.parts, false)
        },
    }
}

/// The additions for the addresses found in a message, in order.
pub open spec fn addresses_ops(xs: Seq<FoundAddress>) -> Seq<((u16, Seq<u8>), bool)>
    decreases xs.len(),
{
    if xs.len() == 0 {
        Seq::empty()
    } else {
        addresses_ops(xs.drop_last()) + found_address_ops(xs.last())
    }
}

/// The additions for a link whose domain is not trusted: its host, then
/// the words of its path.
pub open spec fn found_url_ops(u: FoundUrl) -> Seq<((u16, Seq<u8>), bool)> {
    if u.trusted {
        Seq::empty()
    } else {
        url_host_ops(opt_view(u.sld), u.fqdn@) + pieces_ops(path_pieces(u.path@))
    }
}

/// The additions for the links of a message, in order.
pub open spec fn urls_ops(xs: Seq<FoundUrl>) -> Seq<((u16, Seq<u8>), bool)>
    decreases xs.len(),
{
    if xs.len() == 0 {
        Seq::empty()
    } else {
        urls_ops(xs.drop_last()) + found_url_ops(xs.last())
    }
}

/// The additions for a host name found where host names count, whose
/// domain is not trusted.
pub open spec fn found_host_ops(h: FoundHost) -> Seq<((u16, Seq<u8>), bool)> {
    if h.counted_location && !h.trusted {
        hostname_ops(h.sld@, h.fqdn@)
    } else {
        Seq::empty()
    }
}

/// The additions for the host names of a message, in order.
pub open spec fn hosts_ops(xs: Seq<FoundHost>) -> Seq<((u16, Seq<u8>), bool)>
    decreases xs.len(),
{
    if xs.len() == 0 {
        Seq::empty()
    } else {
        hosts_ops(xs.drop_last()) + found_host_ops(xs.last())
    }
}

/// The addition for the extension of a part's attachment name.
pub open spec fn part_ext_ops(p: PartInfo) -> Seq<((u16, Seq<u8>), bool)> {
    match p.attachment_name {
        Some(n) => extension_ops(n@),
        None => Seq::empty(),
    }
}

/// The addition for the media type of a part.
pub open spec fn part_mime_ops(p: PartInfo) -> Seq<((u16, Seq<u8>), bool)> {
    match p.content_type {
        Some(ct) => seq![(text_key(10, mime_text(ct.0@, opt_view(ct.1))), false)],
        None => Seq::empty(),
    }
}

/// The additions for a part: the extension of its attachment name, then
/// its media type.
pub open spec fn part_ops(p: PartInfo) -> Seq<((u16, Seq<u8>), bool)> {
    part_ext_ops(p) + part_mime_ops(p)
}

/// The additions for the parts of a message, in order.
pub open spec fn parts_ops(xs: Seq<PartInfo>) -> Seq<((u16, Seq<u8>), bool)>
    decreases xs.len(),
{
    if xs.len() == 0 {
        Seq::empty()
    } else {
        parts_ops(xs.drop_last()) + part_ops(xs.last())
    }
}

/// The additions for the sources of a message's tokens, in the order they
/// are made: a failed DMARC check, the envelope and header senders, the
/// addresses, links and host names found, the sender's network and the
/// parts.
pub open spec fn sources_ops(src: TokenSources) -> Seq<((u16, Seq<u8>), bool)> {
    let dmarc = if src.dmarc_failed {
        seq![(text_key(4, seq!['!']), false)]
    } else {
        Seq::empty()
    };
    let asn = match src.asn {
        Some(n) => seq![((5u16, be_bytes(n)), false)],
        None => Seq::empty(),
    };
    dmarc + address_parts_ops(src.env_from, true) + address_parts_ops(src.from, true)
        + addresses_ops(src.addresses@) + urls_ops(src.urls@) + hosts_ops(src.hosts@) + asn
        + parts_ops(src.parts@)
}

fn as_opt_str(o: &Option<String>) -> (r: Option<&str>)
    ensures
        match r {
            Some(s) => opt_view(*o) == Some(s@),
            None => opt_view(*o) is None,
        },
{
    match o {
        Some(s) => Some(s.as_str()),
        None => None,
    }
}

impl Tokens {
    fn insert_address_parts(&mut self, a: &AddressParts, is_sender: bool)
        requires
            old(self).wf(),
        ensures
            final(self).wf(),
            final(self).counts() == apply_ops(old(self).counts(), address_parts_ops(*a, is_sender)),
    {
        let sld = as_opt_str(&a.sld);
        self.insert_email(a.address.as_str(), a.fqdn.as_str(), sld, is_sender);
    }

    fn insert_addresses(&mut self, xs: &Vec<FoundAddress>)
        requires
            old(self).wf(),
        ensures
            final(self).wf(),
            final(self).counts() == apply_ops(old(self).counts(), addresses_ops(xs@)),
    {
        let ghost c0 = self.counts();
        let mut i: usize = 0;
        while i < xs.len()
            invariant
                i <= xs@.len(),
                self.wf(),
                self.counts() == apply_ops(c0, addresses_ops(xs@.take(i as int))),
            decreases xs.len() - i,
        {
            let x = &xs[i];
            let ghost before = self.counts();
            match x.location {
                AddressLocation::HeaderReplyTo | AddressLocation::HeaderDnt => {
                    self.insert_address_parts(&x.parts, true);
                },
                AddressLocation::Elsewhere => {
                    assert(apply_ops(before, found_address_ops(*x)) == before);
                },
                _ => {
                    if !x.trusted {
                        self.insert_address_parts(&x.parts, false);
                    } else {
                        assert(apply_ops(before, found_address_ops(*x)) == before);
                    }
                },
            }
            proof {
                assert(xs@.take(i + 1).drop_last() =~= xs@.take(i as int));
                lemma_apply_ops_concat(c0, addresses_ops(xs@.take(i as int)), found_address_ops(*x));
            }
            i = i + 1;
        }
        assert(xs@.take(xs@.len() as int) =~= xs@);
    }

    fn insert_urls(&mut self, xs: &Vec<FoundUrl>)
        requires
            old(self).wf(),
        ensures
            final(self).wf(),
            final(self).counts() == apply_ops(old(self).counts(), urls_ops(xs@)),
    {
        let ghost c0 = self.counts();
        let mut i: usize = 0;
        while i < xs.len()
            invariant
                i <= xs@.len(),
                self.wf(),
                self.counts() == apply_ops(c0, urls_ops(xs@.take(i as int))),
            decreases xs.len() - i,
        {
            let x = &xs[i];
            let ghost before = self.counts();
            if !x.trusted {
                let sld = as_opt_str(&x.sld);
                self.insert_url_host(sld, x.fqdn.as_str());
                let ghost mid = self.counts();
                self.insert_url_path(x.path.as_str());
                proof {
                    lemma_apply_ops_concat(
                        before,
                        url_host_ops(opt_view(x.sld), x.fqdn@),
                        pieces_ops(path_pieces(x.path@)),
                    );
                }
            } else {
                assert(apply_ops(before, found_url_ops(*x)) == before);
            }
            proof {
                assert(xs@.take(i + 1).drop_last() =~= xs@.take(i as int));
                lemma_apply_ops_concat(c0, urls_ops(xs@.take(i as int)), found_url_ops(*x));
            }
            i = i + 1;
        }
        assert(xs@.take(xs@.len() as int) =~= xs@);
    }

    fn insert_hosts(&mut self, xs: &Vec<FoundHost>)
        requires
            old(self).wf(),
        ensures
            final(self).wf(),
            final(self).counts() == apply_ops(old(self).counts(), hosts_ops(xs@)),
    {
        let ghost c0 = self.counts();
        let mut i: usize = 0;
        while i < xs.len()
            invariant
                i <= xs@.len(),
                self.wf(),
                self.counts() == apply_ops(c0, hosts_ops(xs@.take(i as int))),
            decreases xs.len() - i,
        {
            let x = &xs[i];
            let ghost before = self.counts();
            if x.counted_location && !x.trusted {
                self.insert_hostname(x.sld.as_str(), x.fqdn.as_str());
            } else {
                assert(apply_ops(before, found_host_ops(*x)) == before);
            }
            proof {
                assert(xs@.take(i + 1).drop_last() =~= xs@.take(i as int));
                lemma_apply_ops_concat(c0, hosts_ops(xs@.take(i as int)), found_host_ops(*x));
            }
            i = i + 1;
        }
        assert(xs@.take(xs@.len() as int) =~= xs@);
    }

    fn insert_parts(&mut self, xs: &Vec<PartInfo>)
        requires
            old(self).wf(),
        ensures
            final(self).wf(),
            final(self).counts() == apply_ops(old(self).counts(), parts_ops(xs@)),
    {
        let ghost c0 = self.counts();
        let mut i: usize = 0;
        while i < xs.len()
            invariant
                i <= xs@.len(),
                self.wf(),
                self.counts() == apply_ops(c0, parts_ops(xs@.take(i as int))),
            decreases xs.len() - i,
        {
            let x = &xs[i];
            let ghost before = self.counts();
            let ghost ext = part_ext_ops(*x);
            let ghost mime = part_mime_ops(*x);
            match &x.attachment_name {
                Some(n) => self.insert_attachment_extension(n.as_str()),
                None => {},
            }
            let ghost mid = self.counts();
            assert(mid == apply_ops(before, ext));
            match &x.content_type {
                Some(ct) => {
                    let st = as_opt_str(&ct.1);
                    self.insert_mime_type(ct.0.as_str(), st);
                    proof {
                        reveal_with_fuel(apply_ops, 2);
                        assert(mime.drop_last() =~= Seq::<((u16, Seq<u8>), bool)>::empty());
                    }
                },
                None => {},
            }
            proof {
                assert(self.counts() == apply_ops(mid, mime));
                lemma_apply_ops_concat(before, ext, mime);
                assert(part_ops(*x) == ext + mime);
                assert(xs@.take(i + 1).drop_last() =~= xs@.take(i as int));
                lemma_apply_ops_concat(c0, parts_ops(xs@.take(i as int)), part_ops(*x));
            }
            i = i + 1;
        }
        assert(xs@.take(xs@.len() as int) =~= xs@);
    }
}

/// The tokens of a message that come from its senders, addresses, links,
/// host names, network and parts (see [`sources_ops`]), counted in a new
/// bag.
pub fn source_tokens(src: &TokenSources) -> (r: Tokens)
    ensures
        r.wf(),
        r.counts() == apply_ops(|k: (u16, Seq<u8>)| 0nat, sources_ops(*src)),
{
    let mut tokens = Tokens::new();
    let ghost zero = |k: (u16, Seq<u8>)| 0nat;
    assert(tokens.counts() =~= zero);
    let ghost dmarc = if src.dmarc_failed {
        seq![(text_key(4, seq!['!']), false)]
    } else {
        Seq::empty()
    };
    if src.dmarc_failed {
        let value = String::from_str("!");
        proof {
            reveal_strlit("!");
        }
        assert(value@ =~= seq!['!']);
        let ghost c_before = tokens.counts();
        tokens.add_text(4, value, false);
        assert(tokens.counts() == apply_ops(zero, dmarc)) by {
            reveal_with_fuel(apply_ops, 2);
            assert(dmarc.drop_last() =~= Seq::<((u16, Seq<u8>), bool)>::empty());
            assert(apply_ops(zero, dmarc.drop_last()) == zero);
            assert(c_before == zero);
        }
    } else {
        assert(tokens.counts() == apply_ops(zero, dmarc));
    }
    let ghost c1 = tokens.counts();
    tokens.insert_address_parts(&src.env_from, true);
    let ghost c2 = tokens.counts();
    tokens.insert_address_parts(&src.from, true);
    let ghost c3 = tokens.counts();
    tokens.insert_addresses(&src.addresses);
    let ghost c4 = tokens.counts();
    tokens.insert_urls(&src.urls);
    let ghost c5 = tokens.counts();
    tokens.insert_hosts(&src.hosts);
    let ghost c6 = tokens.counts();
    let ghost asn = match src.asn {
        Some(n) => seq![((5u16, be_bytes(n)), false)],
        None => Seq::empty(),
    };
    match src.asn {
        Some(n) => {
            tokens.insert_asn(n);
            proof {
                reveal_with_fuel(apply_ops, 2);
                assert(asn.drop_last() =~= Seq::<((u16, Seq<u8>), bool)>::empty());
            }
        },
        None => {},
    }
    let ghost c7 = tokens.counts();
    assert(c7 == apply_ops(c6, asn));
    tokens.insert_parts(&src.parts);
    proof {
        let a1 = dmarc;
        let a2 = address_parts_ops(src.env_from, true);
        let a3 = address_parts_ops(src.from, true);
        let a4 = addresses_ops(src.addresses@);
        let a5 = urls_ops(src.urls@);
        let a6 = hosts_ops(src.hosts@);
        let a7 = asn;
        let a8 = parts_ops(src.parts@);
        lemma_apply_ops_concat(zero, a1, a2);
        lemma_apply_ops_concat(zero, a1 + a2, a3);
        lemma_apply_ops_concat(zero, a1 + a2 + a3, a4);
        lemma_apply_ops_concat(zero, a1 + a2 + a3 + a4, a5);
        lemma_apply_ops_concat(zero, a1 + a2 + a3 + a4 + a5, a6);
        lemma_apply_ops_concat(zero, a1 + a2 + a3 + a4 + a5 + a6, a7);
        lemma_apply_ops_concat(zero, a1 + a2 + a3 + a4 + a5 + a6 + a7, a8);
    }
    tokens
}

} // verus!
