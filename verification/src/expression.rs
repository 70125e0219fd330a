//! The variables that spam filter rules read: what each one holds for a
//! message under analysis, for one of its headers, recipients or links, or
//! for a plain text.

use vstd::prelude::*;
use crate::external::{from_utf8_lossy, lossy_text, lowercase, rfc3339_text, to_lowercase, trim, trimmed, DateParts, format_rfc3339};
use crate::text::{push_char, push_str, str_eq};
use crate::text_tokens::{TextPart, TextToken};

verus! {

/// A value of a rule expression.
#[derive(Debug, PartialEq)]
pub enum Variable {
    String(String),
    Integer(i64),
    Array(Vec<Variable>),
}

/// What a variable holds: a text, a number or a list of texts.
pub enum VarValue {
    Text(Seq<char>),
    Number(int),
    Texts(Seq<Seq<char>>),
}

/// `v` is the text `t`.
pub open spec fn is_text(v: Variable, t: Seq<char>) -> bool {
    v matches Variable::String(s) && s@ == t
}

/// `v` holds the value `e`.
pub open spec fn denotes(v: Variable, e: VarValue) -> bool {
    match e {
        VarValue::Text(t) => is_text(v, t),
        VarValue::Number(n) => v matches Variable::Integer(i) && i == n,
        VarValue::Texts(ts) => v matches Variable::Array(a) && a@.len() == ts.len()
            && forall|i: int| 0 <= i < ts.len() ==> is_text(#[trigger] a@[i], ts[i]),
    }
}

/// The texts that `f` picks out of `s`, in order; an item it gives nothing
/// for is skipped.
pub open spec fn collect<T>(s: Seq<T>, f: spec_fn(T) -> Option<Seq<char>>) -> Seq<Seq<char>>
    decreases s.len(),
{
    if s.len() == 0 {
        Seq::empty()
    } else {
        let p = collect(s.drop_last(), f);
        match f(s.last()) {
            Some(t) => p.push(t),
            None => p,
        }
    }
}

/// One more item of `s` added to what `collect` picked.
pub proof fn lemma_collect_step<T>(s: Seq<T>, f: spec_fn(T) -> Option<Seq<char>>, i: int)
    requires
        0 <= i < s.len(),
    ensures
        collect(s.take(i + 1), f) == (match f(s[i]) {
            Some(t) => collect(s.take(i), f).push(t),
            None => collect(s.take(i), f),
        }),
{
    assert(s.take(i + 1).drop_last() =~= s.take(i));
}

/// A text, or the empty text for none.
pub open spec fn text_or_empty(o: Option<String>) -> Seq<char> {
    match o {
        Some(s) => s@,
        None => Seq::empty(),
    }
}

/// The text `s` as a variable.
fn text_var(s: &str) -> (r: Variable)
    ensures
        is_text(r, s@),
{
    Variable::String(String::from_str(s))
}

/// A text that may be missing as a variable, the empty text for none.
fn opt_text_var(o: &Option<String>) -> (r: Variable)
    ensures
        is_text(r, text_or_empty(*o)),
{
    match o {
        Some(s) => Variable::String(s.clone()),
        None => Variable::String(String::new()),
    }
}

/// An address split into its parts: the whole address, the part before the
/// `@`, the domain, and the domain's registrable part where it has one.
pub struct EmailParts {
    pub address: String,
    pub local_part: String,
    pub fqdn: String,
    pub sld: Option<String>,
}

/// The registrable part of an address's domain, or the whole domain.
pub open spec fn sld_or_default(e: EmailParts) -> Seq<char> {
    match e.sld {
        Some(s) => s@,
        None => e.fqdn@,
    }
}

/// A recipient of a message, with the display name it was given.
pub struct Recipient {
    pub email: EmailParts,
    pub name: Option<String>,
}

/// A part of a recipient that the rules read.
#[derive(Clone, Copy, PartialEq, Eq, Structural)]
pub enum RecipientField {
    Address,
    Name,
    Local,
    Domain,
}

/// The part `f` of a recipient; a missing display name is nothing.
pub open spec fn recipient_field(r: Recipient, f: RecipientField) -> Option<Seq<char>> {
    match f {
        RecipientField::Address => Some(r.email.address@),
        RecipientField::Name => match r.name {
            Some(n) => Some(n@),
            None => None,
        },
        RecipientField::Local => Some(r.email.local_part@),
        RecipientField::Domain => Some(r.email.fqdn@),
    }
}

/// Picks the part `f` of each recipient.
pub open spec fn recipient_picker(f: RecipientField) -> spec_fn(Recipient) -> Option<Seq<char>> {
    |r: Recipient| recipient_field(r, f)
}

/// Picks the whole address.
pub open spec fn address_picker() -> spec_fn(EmailParts) -> Option<Seq<char>> {
    |e: EmailParts| Some(e.address@)
}

/// Picks the text of a word or number; other tokens give nothing.
pub open spec fn word_picker() -> spec_fn(TextToken) -> Option<Seq<char>> {
    |t: TextToken| match t {
        TextToken::Alphabetic { word, .. } => Some(word@),
        TextToken::Alphanumeric(w) => Some(w@),
        TextToken::Integer(w) => Some(w@),
        TextToken::Float(w) => Some(w@),
        _ => None,
    }
}

/// The parts `f` picks out of the recipients as a list variable.
fn recipient_values(rs: &Vec<Recipient>, f: RecipientField) -> (r: Variable)
    ensures
        denotes(r, VarValue::Texts(collect(rs@, recipient_picker(f)))),
{
    let ghost pick = recipient_picker(f);
    let mut out: Vec<Variable> = Vec::new();
    let mut i: usize = 0;
    while i < rs.len()
        invariant
            i <= rs.len(),
            pick == recipient_picker(f),
            out@.len() == collect(rs@.take(i as int), pick).len(),
            forall|j: int| 0 <= j < out@.len() ==> is_text(#[trigger] out@[j], collect(rs@.take(i as int), pick)[j]),
        decreases rs.len() - i,
    {
        proof {
            lemma_collect_step(rs@, pick, i as int);
        }
        let rc = &rs[i];
        match f {
            RecipientField::Address => out.push(text_var(rc.email.address.as_str())),
            RecipientField::Name => {
                if let Some(n) = &rc.name {
                    out.push(text_var(n.as_str()));
                }
            },
            RecipientField::Local => out.push(text_var(rc.email.local_part.as_str())),
            RecipientField::Domain => out.push(text_var(rc.email.fqdn.as_str())),
        }
        i = i + 1;
    }
    assert(rs@.take(rs@.len() as int) =~= rs@);
    Variable::Array(out)
}

/// The whole addresses as a list variable.
fn address_values(es: &Vec<EmailParts>) -> (r: Variable)
    ensures
        denotes(r, VarValue::Texts(collect(es@, address_picker()))),
{
    let ghost pick = address_picker();
    let mut out: Vec<Variable> = Vec::new();
    let mut i: usize = 0;
    while i < es.len()
        invariant
            i <= es.len(),
            pick == address_picker(),
            out@.len() == collect(es@.take(i as int), pick).len(),
            forall|j: int| 0 <= j < out@.len() ==> is_text(#[trigger] out@[j], collect(es@.take(i as int), pick)[j]),
        decreases es.len() - i,
    {
        proof {
            lemma_collect_step(es@, pick, i as int);
        }
        out.push(text_var(es[i].address.as_str()));
        i = i + 1;
    }
    assert(es@.take(es@.len() as int) =~= es@);
    Variable::Array(out)
}

/// The words among the tokens as a list variable.
fn word_values(ts: &Vec<TextToken>) -> (r: Variable)
    ensures
        denotes(r, VarValue::Texts(collect(ts@, word_picker()))),
{
    let ghost pick = word_picker();
    let mut out: Vec<Variable> = Vec::new();
    let mut i: usize = 0;
    while i < ts.len()
        invariant
            i <= ts.len(),
            pick == word_picker(),
            out@.len() == collect(ts@.take(i as int), pick).len(),
            forall|j: int| 0 <= j < out@.len() ==> is_text(#[trigger] out@[j], collect(ts@.take(i as int), pick)[j]),
        decreases ts.len() - i,
    {
        proof {
            lemma_collect_step(ts@, pick, i as int);
        }
        match &ts[i] {
            TextToken::Alphabetic { word, .. } => out.push(text_var(word.as_str())),
            TextToken::Alphanumeric(w) => out.push(text_var(w.as_str())),
            TextToken::Integer(w) => out.push(text_var(w.as_str())),
            TextToken::Float(w) => out.push(text_var(w.as_str())),
            _ => {},
        }
        i = i + 1;
    }
    assert(ts@.take(ts@.len() as int) =~= ts@);
    Variable::Array(out)
}


/// The variables that rules read.
#[derive(Clone, Copy, Debug, PartialEq, Eq, Structural)]
pub enum ExpressionVariable {
    RemoteIp,
    RemoteIpPtr,
    HeloDomain,
    AuthenticatedAs,
    Asn,
    Country,
    IsTls,
    EnvFrom,
    EnvFromLocal,
    EnvFromDomain,
    EnvTo,
    From,
    FromName,
    FromLocal,
    FromDomain,
    ReplyTo,
    ReplyToName,
    ReplyToLocal,
    ReplyToDomain,
    To,
    ToName,
    ToLocal,
    ToDomain,
    Cc,
    CcName,
    CcLocal,
    CcDomain,
    Bcc,
    BccName,
    BccLocal,
    BccDomain,
    Body,
    BodyText,
    BodyHtml,
    BodyRaw,
    Subject,
    SubjectThread,
    Location,
    SubjectWords,
    BodyWords,
    Name,
    NameLower,
    Value,
    ValueLower,
    Attributes,
    Raw,
    RawLower,
    Email,
    Local,
    Domain,
    Sld,
    Url,
    PathQuery,
    UrlPath,
    Query,
    Scheme,
    Authority,
    Host,
    Port,
}

/// An address of an address header: its display name and address, where
/// it has them.
pub struct AddrEntry {
    pub name: Option<String>,
    pub address: Option<String>,
}

/// A content type: type, subtype, and its attributes as name and value.
pub struct ContentType {
    pub ctype: String,
    pub subtype: Option<String>,
    pub attributes: Option<Vec<(String, String)>>,
}

/// The parsed value of a header.
pub enum HeaderValue {
    Text(String),
    TextList(Vec<String>),
    Address(Vec<AddrEntry>),
    DateTime(DateParts),
    ContentType(ContentType),
    Received,
    Empty,
}

/// A header of a message: its name, parsed value and raw text.
pub struct EmailHeader {
    pub name: String,
    pub value: HeaderValue,
    pub raw: String,
}

/// Picks each text, lowercased where `lower` holds.
pub open spec fn text_picker(lower: bool) -> spec_fn(String) -> Option<Seq<char>> {
    |t: String| if lower { Some(lowercase(t@)) } else { Some(t@) }
}

/// Picks the lowercased address of each entry where `lower` holds, else its
/// display name; an entry without one gives nothing.
pub open spec fn addr_picker(lower: bool) -> spec_fn(AddrEntry) -> Option<Seq<char>> {
    |a: AddrEntry| if lower {
        match a.address {
            Some(t) => Some(lowercase(t@)),
            None => None,
        }
    } else {
        match a.name {
            Some(t) => Some(t@),
            None => None,
        }
    }
}

/// Picks `name=value` of each attribute.
pub open spec fn attr_picker() -> spec_fn((String, String)) -> Option<Seq<char>> {
    |a: (String, String)| Some(a.0@ + seq!['='] + a.1@)
}

/// The text of a content type: `type/subtype`, or the type alone.
pub open spec fn content_type_text(ct: ContentType) -> Seq<char> {
    match ct.subtype {
        Some(st) => ct.ctype@ + seq!['/'] + st@,
        None => ct.ctype@,
    }
}

/// What a variable holds for a header. `Value`, `ValueLower` and
/// `Attributes` read the parsed value; for an address header `ValueLower`
/// lists the lowercased addresses and the other two the display names.
pub open spec fn header_value(h: EmailHeader, v: ExpressionVariable) -> VarValue {
    match v {
        ExpressionVariable::Name => VarValue::Text(h.name@),
        ExpressionVariable::NameLower => VarValue::Text(lowercase(h.name@)),
        ExpressionVariable::Value | ExpressionVariable::ValueLower | ExpressionVariable::Attributes => {
            let lower = v == ExpressionVariable::ValueLower;
            match h.value {
                HeaderValue::Text(t) => VarValue::Text(if lower { lowercase(t@) } else { t@ }),
                HeaderValue::TextList(l) => VarValue::Texts(collect(l@, text_picker(lower))),
                HeaderValue::Address(a) => VarValue::Texts(collect(a@, addr_picker(lower))),
                HeaderValue::DateTime(d) => VarValue::Text(rfc3339_text(d)),
                HeaderValue::ContentType(ct) => if v != ExpressionVariable::Attributes {
                    VarValue::Text(content_type_text(ct))
                } else {
                    VarValue::Texts(
                        match ct.attributes {
                            Some(a) => collect(a@, attr_picker()),
                            None => Seq::empty(),
                        },
                    )
                },
                HeaderValue::Received => VarValue::Text(
                    if lower { lowercase(trimmed(h.raw@)) } else { trimmed(h.raw@) },
                ),
                HeaderValue::Empty => VarValue::Text(Seq::empty()),
            }
        },
        ExpressionVariable::Raw => VarValue::Text(h.raw@),
        ExpressionVariable::RawLower => VarValue::Text(lowercase(h.raw@)),
        _ => VarValue::Number(0),
    }
}

/// The texts as a list variable, lowercased where `lower` holds.
fn text_list_values(l: &Vec<String>, lower: bool) -> (r: Variable)
    ensures
        denotes(r, VarValue::Texts(collect(l@, text_picker(lower)))),
{
    let ghost pick = text_picker(lower);
    let mut out: Vec<Variable> = Vec::new();
    let mut i: usize = 0;
    while i < l.len()
        invariant
            i <= l.len(),
            pick == text_picker(lower),
            out@.len() == collect(l@.take(i as int), pick).len(),
            forall|j: int| 0 <= j < out@.len() ==> is_text(#[trigger] out@[j], collect(l@.take(i as int), pick)[j]),
        decreases l.len() - i,
    {
        proof {
            lemma_collect_step(l@, pick, i as int);
        }
        if lower {
            out.push(Variable::String(to_lowercase(l[i].as_str())));
        } else {
            out.push(Variable::String(l[i].clone()));
        }
        i = i + 1;
    }
    assert(l@.take(l@.len() as int) =~= l@);
    Variable::Array(out)
}

/// The lowercased addresses (where `lower` holds) or display names of the
/// entries as a list variable.
fn addr_values(a: &Vec<AddrEntry>, lower: bool) -> (r: Variable)
    ensures
        denotes(r, VarValue::Texts(collect(a@, addr_picker(lower)))),
{
    let ghost pick = addr_picker(lower);
    let mut out: Vec<Variable> = Vec::new();
    let mut i: usize = 0;
    while i < a.len()
        invariant
            i <= a.len(),
            pick == addr_picker(lower),
            out@.len() == collect(a@.take(i as int), pick).len(),
            forall|j: int| 0 <= j < out@.len() ==> is_text(#[trigger] out@[j], collect(a@.take(i as int), pick)[j]),
        decreases a.len() - i,
    {
        proof {
            lemma_collect_step(a@, pick, i as int);
        }
        if lower {
            if let Some(t) = &a[i].address {
                out.push(Variable::String(to_lowercase(t.as_str())));
            }
        } else {
            if let Some(t) = &a[i].name {
                out.push(Variable::String(t.clone()));
            }
        }
        i = i + 1;
    }
    assert(a@.take(a@.len() as int) =~= a@);
    Variable::Array(out)
}

/// The attributes as a list variable of `name=value` texts.
fn attr_values(a: &Vec<(String, String)>) -> (r: Variable)
    ensures
        denotes(r, VarValue::Texts(collect(a@, attr_picker()))),
{
    let ghost pick = attr_picker();
    let mut out: Vec<Variable> = Vec::new();
    let mut i: usize = 0;
    while i < a.len()
        invariant
            i <= a.len(),
            pick == attr_picker(),
            out@.len() == collect(a@.take(i as int), pick).len(),
            forall|j: int| 0 <= j < out@.len() ==> is_text(#[trigger] out@[j], collect(a@.take(i as int), pick)[j]),
        decreases a.len() - i,
    {
        proof {
            lemma_collect_step(a@, pick, i as int);
        }
        let (n, v) = &a[i];
        let mut t = n.clone();
        push_char(&mut t, '=');
        push_str(&mut t, v.as_str());
        assert(t@ =~= a@[i as int].0@ + seq!['='] + a@[i as int].1@);
        out.push(Variable::String(t));
        i = i + 1;
    }
    assert(a@.take(a@.len() as int) =~= a@);
    Variable::Array(out)
}

impl EmailHeader {
    /// What `Value`, `ValueLower` or `Attributes` holds for this header.
    fn parsed_value(&self, variable: ExpressionVariable) -> (r: Variable)
        requires
            variable == ExpressionVariable::Value || variable == ExpressionVariable::ValueLower
                || variable == ExpressionVariable::Attributes,
        ensures
            denotes(r, header_value(*self, variable)),
    {
        let lower = variable == ExpressionVariable::ValueLower;
        match &self.value {
            HeaderValue::Text(t) => if lower {
                Variable::String(to_lowercase(t.as_str()))
            } else {
                Variable::String(t.clone())
            },
            HeaderValue::TextList(l) => text_list_values(l, lower),
            HeaderValue::Address(a) => addr_values(a, lower),
            HeaderValue::DateTime(d) => Variable::String(format_rfc3339(*d)),
            HeaderValue::ContentType(ct) => {
                if variable != ExpressionVariable::Attributes {
                    let mut t = ct.ctype.clone();
                    if let Some(st) = &ct.subtype {
                        push_char(&mut t, '/');
                        push_str(&mut t, st.as_str());
                        assert(t@ =~= ct.ctype@ + seq!['/'] + st@);
                    }
                    Variable::String(t)
                } else {
                    match &ct.attributes {
                        Some(a) => attr_values(a),
                        None => Variable::Array(Vec::new()),
                    }
                }
            },
            HeaderValue::Received => {
                let t = trim(self.raw.as_str());
                if lower {
                    Variable::String(to_lowercase(t))
                } else {
                    Variable::String(String::from_str(t))
                }
            },
            HeaderValue::Empty => Variable::String(String::new()),
        }
    }

    /// What the variable holds for this header.
    pub fn resolve_variable(&self, variable: ExpressionVariable) -> (r: Variable)
        ensures
            denotes(r, header_value(*self, variable)),
    {
        match variable {
            ExpressionVariable::Name => Variable::String(self.name.clone()),
            ExpressionVariable::NameLower => Variable::String(to_lowercase(self.name.as_str())),
            ExpressionVariable::Value | ExpressionVariable::ValueLower | ExpressionVariable::Attributes => {
                self.parsed_value(variable)
            },
            ExpressionVariable::Raw => Variable::String(self.raw.clone()),
            ExpressionVariable::RawLower => Variable::String(to_lowercase(self.raw.as_str())),
            _ => Variable::Integer(0),
        }
    }

    /// Headers know no global names: zero.
    pub fn resolve_global(&self, name: &str) -> (r: Variable)
        ensures
            denotes(r, VarValue::Number(0)),
    {
        Variable::Integer(0)
    }
}


/// What a variable holds for a recipient.
pub open spec fn recipient_value(rc: Recipient, v: ExpressionVariable) -> VarValue {
    match v {
        ExpressionVariable::Email | ExpressionVariable::Value => VarValue::Text(rc.email.address@),
        ExpressionVariable::Name => VarValue::Text(text_or_empty(rc.name)),
        ExpressionVariable::Local => VarValue::Text(rc.email.local_part@),
        ExpressionVariable::Domain => VarValue::Text(rc.email.fqdn@),
        ExpressionVariable::Sld => VarValue::Text(sld_or_default(rc.email)),
        _ => VarValue::Number(0),
    }
}

impl Recipient {
    /// What the variable holds for this recipient.
    pub fn resolve_variable(&self, variable: ExpressionVariable) -> (r: Variable)
        ensures
            denotes(r, recipient_value(*self, variable)),
    {
        match variable {
            ExpressionVariable::Email | ExpressionVariable::Value => Variable::String(self.email.address.clone()),
            ExpressionVariable::Name => opt_text_var(&self.name),
            ExpressionVariable::Local => Variable::String(self.email.local_part.clone()),
            ExpressionVariable::Domain => Variable::String(self.email.fqdn.clone()),
            ExpressionVariable::Sld => match &self.email.sld {
                Some(s) => Variable::String(s.clone()),
                None => Variable::String(self.email.fqdn.clone()),
            },
            _ => Variable::Integer(0),
        }
    }

    /// Recipients know no global names: zero.
    pub fn resolve_global(&self, name: &str) -> (r: Variable)
        ensures
            denotes(r, VarValue::Number(0)),
    {
        Variable::Integer(0)
    }
}

/// The parts of a parsed link.
pub struct ParsedUrl {
    pub path_and_query: Option<String>,
    pub path: String,
    pub query: Option<String>,
    pub scheme: Option<String>,
    pub authority: Option<String>,
    pub host_fqdn: String,
    pub host_sld: Option<String>,
    pub port: Option<u16>,
}

/// A link found in a message, with its parts where it could be parsed.
pub struct UrlParts {
    pub url: String,
    pub url_parsed: Option<ParsedUrl>,
}

/// A part of a parsed link that may be missing, the empty text where it or
/// the parsed link is.
pub open spec fn url_part(u: UrlParts, f: spec_fn(ParsedUrl) -> Option<String>) -> Seq<char> {
    match u.url_parsed {
        Some(p) => text_or_empty(f(p)),
        None => Seq::empty(),
    }
}

/// What a variable holds for a link.
pub open spec fn url_value(u: UrlParts, v: ExpressionVariable) -> VarValue {
    match v {
        ExpressionVariable::Url | ExpressionVariable::Value => VarValue::Text(u.url@),
        ExpressionVariable::PathQuery => VarValue::Text(url_part(u, |p: ParsedUrl| p.path_and_query)),
        ExpressionVariable::UrlPath => VarValue::Text(url_part(u, |p: ParsedUrl| Some(p.path))),
        ExpressionVariable::Query => VarValue::Text(url_part(u, |p: ParsedUrl| p.query)),
        ExpressionVariable::Scheme => VarValue::Text(url_part(u, |p: ParsedUrl| p.scheme)),
        ExpressionVariable::Authority => VarValue::Text(url_part(u, |p: ParsedUrl| p.authority)),
        ExpressionVariable::Host => VarValue::Text(url_part(u, |p: ParsedUrl| Some(p.host_fqdn))),
        ExpressionVariable::Sld => VarValue::Text(
            url_part(u, |p: ParsedUrl| match p.host_sld {
                Some(s) => Some(s),
                None => Some(p.host_fqdn),
            }),
        ),
        ExpressionVariable::Port => VarValue::Number(
            match u.url_parsed {
                Some(p) => match p.port {
                    Some(n) => n as int,
                    None => 0,
                },
                None => 0,
            },
        ),
        _ => VarValue::Number(0),
    }
}

impl UrlParts {
    /// What the variable holds for this link.
    pub fn resolve_variable(&self, variable: ExpressionVariable) -> (r: Variable)
        ensures
            denotes(r, url_value(*self, variable)),
    {
        match variable {
            ExpressionVariable::Url | ExpressionVariable::Value => Variable::String(self.url.clone()),
            ExpressionVariable::Port => Variable::Integer(
                match &self.url_parsed {
                    Some(p) => match p.port {
                        Some(n) => n as i64,
                        None => 0,
                    },
                    None => 0,
                },
            ),
            ExpressionVariable::PathQuery | ExpressionVariable::UrlPath | ExpressionVariable::Query
            | ExpressionVariable::Scheme | ExpressionVariable::Authority | ExpressionVariable::Host
            | ExpressionVariable::Sld => match &self.url_parsed {
                Some(p) => match variable {
                    ExpressionVariable::PathQuery => opt_text_var(&p.path_and_query),
                    ExpressionVariable::UrlPath => Variable::String(p.path.clone()),
                    ExpressionVariable::Query => opt_text_var(&p.query),
                    ExpressionVariable::Scheme => opt_text_var(&p.scheme),
                    ExpressionVariable::Authority => opt_text_var(&p.authority),
                    ExpressionVariable::Host => Variable::String(p.host_fqdn.clone()),
                    _ => match &p.host_sld {
                        Some(s) => Variable::String(s.clone()),
                        None => Variable::String(p.host_fqdn.clone()),
                    },
                },
                None => Variable::String(String::new()),
            },
            _ => Variable::Integer(0),
        }
    }

    /// Links know no global names: zero.
    pub fn resolve_global(&self, name: &str) -> (r: Variable)
        ensures
            denotes(r, VarValue::Number(0)),
    {
        Variable::Integer(0)
    }
}

/// A plain text that every variable reads.
pub struct StringResolver(pub String);

impl StringResolver {
    /// Every variable holds the text.
    pub fn resolve_variable(&self, variable: ExpressionVariable) -> (r: Variable)
        ensures
            denotes(r, VarValue::Text(self.0@)),
    {
        Variable::String(self.0.clone())
    }

    /// No global names: zero.
    pub fn resolve_global(&self, name: &str) -> (r: Variable)
        ensures
            denotes(r, VarValue::Number(0)),
    {
        Variable::Integer(0)
    }
}

/// A list of texts that every variable reads.
pub struct StringListResolver(pub Vec<String>);

impl StringListResolver {
    /// Every variable holds the list.
    pub fn resolve_variable(&self, variable: ExpressionVariable) -> (r: Variable)
        ensures
            denotes(r, VarValue::Texts(collect(self.0@, text_picker(false)))),
    {
        text_list_values(&self.0, false)
    }

    /// No global names: zero.
    pub fn resolve_global(&self, name: &str) -> (r: Variable)
        ensures
            denotes(r, VarValue::Number(0)),
    {
        Variable::Integer(0)
    }
}


/// What the rules are run on besides the message: one of its headers,
/// recipients or links, or a text or list of texts.
pub enum FilterItem {
    Header(EmailHeader),
    Recipient(Recipient),
    Url(UrlParts),
    Text(StringResolver),
    TextList(StringListResolver),
}

/// What a variable holds for an item.
pub open spec fn item_value(item: FilterItem, v: ExpressionVariable) -> VarValue {
    match item {
        FilterItem::Header(h) => header_value(h, v),
        FilterItem::Recipient(rc) => recipient_value(rc, v),
        FilterItem::Url(u) => url_value(u, v),
        FilterItem::Text(t) => VarValue::Text(t.0@),
        FilterItem::TextList(l) => VarValue::Texts(collect(l.0@, text_picker(false))),
    }
}

impl FilterItem {
    /// What the variable holds for this item.
    pub fn resolve_variable(&self, variable: ExpressionVariable) -> (r: Variable)
        ensures
            denotes(r, item_value(*self, variable)),
    {
        match self {
            FilterItem::Header(h) => h.resolve_variable(variable),
            FilterItem::Recipient(rc) => rc.resolve_variable(variable),
            FilterItem::Url(u) => u.resolve_variable(variable),
            FilterItem::Text(t) => t.resolve_variable(variable),
            FilterItem::TextList(l) => l.resolve_variable(variable),
        }
    }
}

/// What the rules read of a message under analysis: the connection, the
/// envelope, the addresses of its headers, its text parts and tokens, its
/// raw content and subject, and the tags set so far.
pub struct FilterContext {
    pub remote_ip: String,
    pub iprev_ptr: Option<String>,
    pub ehlo_fqdn: String,
    pub authenticated_as: Option<String>,
    pub asn: Option<u32>,
    pub country: Option<String>,
    pub is_tls: bool,
    pub env_from: EmailParts,
    pub env_to: Vec<EmailParts>,
    pub from: Recipient,
    pub reply_to: Option<Recipient>,
    pub recipients_to: Vec<Recipient>,
    pub recipients_cc: Vec<Recipient>,
    pub recipients_bcc: Vec<Recipient>,
    pub text_body: Option<String>,
    pub html_body: Vec<u32>,
    pub text_parts: Vec<TextPart>,
    pub raw_message: Vec<u8>,
    pub subject_lc: String,
    pub subject_thread_lc: String,
    pub subject_tokens: Vec<TextToken>,
    pub tags: Vec<String>,
}

/// The text part that the message's first HTML body refers to.
pub open spec fn first_html_part(ctx: FilterContext) -> Option<TextPart> {
    if ctx.html_body@.len() > 0 && (ctx.html_body@[0] as int) < ctx.text_parts@.len() {
        Some(ctx.text_parts@[ctx.html_body@[0] as int])
    } else {
        None
    }
}

/// The text of the first HTML body, empty where it is none or not HTML.
pub open spec fn html_text(ctx: FilterContext) -> Seq<char> {
    match first_html_part(ctx) {
        Some(TextPart::Html { text_body, .. }) => text_body@,
        _ => Seq::empty(),
    }
}

/// The words of the first HTML body's part.
pub open spec fn body_words(ctx: FilterContext) -> Seq<Seq<char>> {
    match first_html_part(ctx) {
        Some(TextPart::Plain { tokens, .. }) => collect(tokens@, word_picker()),
        Some(TextPart::Html { tokens, .. }) => collect(tokens@, word_picker()),
        _ => Seq::empty(),
    }
}

/// A part of the Reply-To recipient, the empty text where there is none.
pub open spec fn reply_to_part(ctx: FilterContext, f: RecipientField) -> Seq<char> {
    match ctx.reply_to {
        Some(rc) => match recipient_field(rc, f) {
            Some(t) => t,
            None => Seq::empty(),
        },
        None => Seq::empty(),
    }
}

/// Whether a tag of that name was set.
pub open spec fn has_tag(tags: Seq<String>, name: Seq<char>) -> bool {
    exists|i: int| 0 <= i < tags.len() && (#[trigger] tags[i])@ == name
}

/// Reads the rules' variables of a message, with the item they run on and
/// the name of the place in the message being looked at.
pub struct SpamFilterResolver<'x> {
    pub ctx: &'x FilterContext,
    pub item: &'x FilterItem,
    pub location: &'x str,
}

/// What a variable holds for a message, its item and location: the
/// variables of the message are read from it, the others from the item.
pub open spec fn filter_value(ctx: FilterContext, item: FilterItem, location: Seq<char>, v: ExpressionVariable) -> VarValue {
    match v {
        ExpressionVariable::RemoteIp => VarValue::Text(ctx.remote_ip@),
        ExpressionVariable::RemoteIpPtr => VarValue::Text(text_or_empty(ctx.iprev_ptr)),
        ExpressionVariable::HeloDomain => VarValue::Text(ctx.ehlo_fqdn@),
        ExpressionVariable::AuthenticatedAs => VarValue::Text(text_or_empty(ctx.authenticated_as)),
        ExpressionVariable::Asn => VarValue::Number(
            match ctx.asn {
                Some(n) => n as int,
                None => 0,
            },
        ),
        ExpressionVariable::Country => VarValue::Text(text_or_empty(ctx.country)),
        ExpressionVariable::IsTls => VarValue::Number(if ctx.is_tls { 1 } else { 0 }),
        ExpressionVariable::EnvFrom => VarValue::Text(ctx.env_from.address@),
        ExpressionVariable::EnvFromLocal => VarValue::Text(ctx.env_from.local_part@),
        ExpressionVariable::EnvFromDomain => VarValue::Text(ctx.env_from.fqdn@),
        ExpressionVariable::EnvTo => VarValue::Texts(collect(ctx.env_to@, address_picker())),
        ExpressionVariable::From => VarValue::Text(ctx.from.email.address@),
        ExpressionVariable::FromName => VarValue::Text(text_or_empty(ctx.from.name)),
        ExpressionVariable::FromLocal => VarValue::Text(ctx.from.email.local_part@),
        ExpressionVariable::FromDomain => VarValue::Text(ctx.from.email.fqdn@),
        ExpressionVariable::ReplyTo => VarValue::Text(reply_to_part(ctx, RecipientField::Address)),
        ExpressionVariable::ReplyToName => VarValue::Text(reply_to_part(ctx, RecipientField::Name)),
        ExpressionVariable::ReplyToLocal => VarValue::Text(reply_to_part(ctx, RecipientField::Local)),
        ExpressionVariable::ReplyToDomain => VarValue::Text(reply_to_part(ctx, RecipientField::Domain)),
        ExpressionVariable::To => VarValue::Texts(collect(ctx.recipients_to@, recipient_picker(RecipientField::Address))),
        ExpressionVariable::ToName => VarValue::Texts(collect(ctx.recipients_to@, recipient_picker(RecipientField::Name))),
        ExpressionVariable::ToLocal => VarValue::Texts(collect(ctx.recipients_to@, recipient_picker(RecipientField::Local))),
        ExpressionVariable::ToDomain => VarValue::Texts(collect(ctx.recipients_to@, recipient_picker(RecipientField::Domain))),
        ExpressionVariable::Cc => VarValue::Texts(collect(ctx.recipients_cc@, recipient_picker(RecipientField::Address))),
        ExpressionVariable::CcName => VarValue::Texts(collect(ctx.recipients_cc@, recipient_picker(RecipientField::Name))),
        ExpressionVariable::CcLocal => VarValue::Texts(collect(ctx.recipients_cc@, recipient_picker(RecipientField::Local))),
        ExpressionVariable::CcDomain => VarValue::Texts(collect(ctx.recipients_cc@, recipient_picker(RecipientField::Domain))),
        ExpressionVariable::Bcc => VarValue::Texts(collect(ctx.recipients_bcc@, recipient_picker(RecipientField::Address))),
        ExpressionVariable::BccName => VarValue::Texts(collect(ctx.recipients_bcc@, recipient_picker(RecipientField::Name))),
        ExpressionVariable::BccLocal => VarValue::Texts(collect(ctx.recipients_bcc@, recipient_picker(RecipientField::Local))),
        ExpressionVariable::BccDomain => VarValue::Texts(collect(ctx.recipients_bcc@, recipient_picker(RecipientField::Domain))),
        ExpressionVariable::Body | ExpressionVariable::BodyText => VarValue::Text(text_or_empty(ctx.text_body)),
        ExpressionVariable::BodyHtml => VarValue::Text(html_text(ctx)),
        ExpressionVariable::BodyRaw => VarValue::Text(lossy_text(ctx.raw_message@)),
        ExpressionVariable::Subject => VarValue::Text(ctx.subject_lc@),
        ExpressionVariable::SubjectThread => VarValue::Text(ctx.subject_thread_lc@),
        ExpressionVariable::Location => VarValue::Text(location),
        ExpressionVariable::SubjectWords => VarValue::Texts(collect(ctx.subject_tokens@, word_picker())),
        ExpressionVariable::BodyWords => VarValue::Texts(body_words(ctx)),
        _ => item_value(item, v),
    }
}

impl<'x> SpamFilterResolver<'x> {
    /// A resolver of the message `ctx`, running on `item` at `location`.
    pub fn new(ctx: &'x FilterContext, item: &'x FilterItem, location: &'x str) -> (r: Self)
        ensures
            *r.ctx == *ctx,
            *r.item == *item,
            r.location@ == location@,
    {
        SpamFilterResolver { ctx, item, location }
    }

    /// The part `f` of the Reply-To recipient, empty where there is none.
    fn reply_to_var(&self, f: RecipientField) -> (r: Variable)
        ensures
            is_text(r, reply_to_part(*self.ctx, f)),
    {
        match &self.ctx.reply_to {
            Some(rc) => match f {
                RecipientField::Address => Variable::String(rc.email.address.clone()),
                RecipientField::Name => opt_text_var(&rc.name),
                RecipientField::Local => Variable::String(rc.email.local_part.clone()),
                RecipientField::Domain => Variable::String(rc.email.fqdn.clone()),
            },
            None => Variable::String(String::new()),
        }
    }

    /// The text part of the first HTML body, where it refers to one.
    fn first_html_part(&self) -> (r: Option<&'x TextPart>)
        ensures
            match r {
                Some(p) => first_html_part(*self.ctx) == Some(*p),
                None => first_html_part(*self.ctx) is None,
            },
    {
        let ctx: &'x FilterContext = self.ctx;
        if ctx.html_body.len() > 0 {
            let idx = ctx.html_body[0] as usize;
            if idx < ctx.text_parts.len() {
                return Some(&ctx.text_parts[idx]);
            }
        }
        None
    }

    /// What the variable holds: the variables of the message are read
    /// from it, the others from the item.
    pub fn resolve_variable(&self, variable: ExpressionVariable) -> (r: Variable)
        ensures
            denotes(r, filter_value(*self.ctx, *self.item, self.location@, variable)),
    {
        let ctx = self.ctx;
        match variable {
            ExpressionVariable::RemoteIp => Variable::String(ctx.remote_ip.clone()),
            ExpressionVariable::RemoteIpPtr => opt_text_var(&ctx.iprev_ptr),
            ExpressionVariable::HeloDomain => Variable::String(ctx.ehlo_fqdn.clone()),
            ExpressionVariable::AuthenticatedAs => opt_text_var(&ctx.authenticated_as),
            ExpressionVariable::Asn => Variable::Integer(
                match ctx.asn {
                    Some(n) => n as i64,
                    None => 0,
                },
            ),
            ExpressionVariable::Country => opt_text_var(&ctx.country),
            ExpressionVariable::IsTls => Variable::Integer(if ctx.is_tls { 1 } else { 0 }),
            ExpressionVariable::EnvFrom => Variable::String(ctx.env_from.address.clone()),
            ExpressionVariable::EnvFromLocal => Variable::String(ctx.env_from.local_part.clone()),
            ExpressionVariable::EnvFromDomain => Variable::String(ctx.env_from.fqdn.clone()),
            ExpressionVariable::EnvTo => address_values(&ctx.env_to),
            ExpressionVariable::From => Variable::String(ctx.from.email.address.clone()),
            ExpressionVariable::FromName => opt_text_var(&ctx.from.name),
            ExpressionVariable::FromLocal => Variable::String(ctx.from.email.local_part.clone()),
            ExpressionVariable::FromDomain => Variable::String(ctx.from.email.fqdn.clone()),
            ExpressionVariable::ReplyTo => self.reply_to_var(RecipientField::Address),
            ExpressionVariable::ReplyToName => self.reply_to_var(RecipientField::Name),
            ExpressionVariable::ReplyToLocal => self.reply_to_var(RecipientField::Local),
            ExpressionVariable::ReplyToDomain => self.reply_to_var(RecipientField::Domain),
            ExpressionVariable::To => recipient_values(&ctx.recipients_to, RecipientField::Address),
            ExpressionVariable::ToName => recipient_values(&ctx.recipients_to, RecipientField::Name),
            ExpressionVariable::ToLocal => recipient_values(&ctx.recipients_to, RecipientField::Local),
            ExpressionVariable::ToDomain => recipient_values(&ctx.recipients_to, RecipientField::Domain),
            ExpressionVariable::Cc => recipient_values(&ctx.recipients_cc, RecipientField::Address),
            ExpressionVariable::CcName => recipient_values(&ctx.recipients_cc, RecipientField::Name),
            ExpressionVariable::CcLocal => recipient_values(&ctx.recipients_cc, RecipientField::Local),
            ExpressionVariable::CcDomain => recipient_values(&ctx.recipients_cc, RecipientField::Domain),
            ExpressionVariable::Bcc => recipient_values(&ctx.recipients_bcc, RecipientField::Address),
            ExpressionVariable::BccName => recipient_values(&ctx.recipients_bcc, RecipientField::Name),
            ExpressionVariable::BccLocal => recipient_values(&ctx.recipients_bcc, RecipientField::Local),
            ExpressionVariable::BccDomain => recipient_values(&ctx.recipients_bcc, RecipientField::Domain),
            ExpressionVariable::Body | ExpressionVariable::BodyText => opt_text_var(&ctx.text_body),
            ExpressionVariable::BodyHtml => match self.first_html_part() {
                Some(TextPart::Html { text_body, .. }) => Variable::String(text_body.clone()),
                _ => Variable::String(String::new()),
            },
            ExpressionVariable::BodyRaw => Variable::String(from_utf8_lossy(ctx.raw_message.as_slice())),
            ExpressionVariable::Subject => Variable::String(ctx.subject_lc.clone()),
            ExpressionVariable::SubjectThread => Variable::String(ctx.subject_thread_lc.clone()),
            ExpressionVariable::Location => Variable::String(String::from_str(self.location)),
            ExpressionVariable::SubjectWords => word_values(&ctx.subject_tokens),
            ExpressionVariable::BodyWords => match self.first_html_part() {
                Some(TextPart::Plain { tokens, .. }) => word_values(tokens),
                Some(TextPart::Html { tokens, .. }) => word_values(tokens),
                _ => Variable::Array(Vec::new()),
            },
            _ => self.item.resolve_variable(variable),
        }
    }

    /// Whether a tag of that name was set, as the number one or zero.
    pub fn resolve_global(&self, name: &str) -> (r: Variable)
        ensures
            denotes(r, VarValue::Number(if has_tag(self.ctx.tags@, name@) { 1 } else { 0 })),
    {
        let tags = &self.ctx.tags;
        let mut i: usize = 0;
        while i < tags.len()
            invariant
                i <= tags.len(),
                tags@ == self.ctx.tags@,
                forall|j: int| 0 <= j < i ==> (#[trigger] tags@[j])@ != name@,
            decreases tags.len() - i,
        {
            if str_eq(tags[i].as_str(), name) {
                assert((#[trigger] self.ctx.tags@[i as int])@ == name@);
                return Variable::Integer(1);
            }
            i = i + 1;
        }
        Variable::Integer(0)
    }
}

} // verus!
