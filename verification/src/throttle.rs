//! Keys of throttles and queue quotas: the bytes that a limit is counted
//! under, taken from the envelope values it is configured to separate, and
//! which throttles of a session apply at its current stage.

use vstd::prelude::*;
use vstd::utf8::encode_utf8;
use vstd::string::StrSliceExecFns;
use crate::text::str_eq;

verus! {

/// Separate by recipient.
pub const THROTTLE_RCPT: u16 = 1u16 << 0u16;
/// Separate by recipient domain.
pub const THROTTLE_RCPT_DOMAIN: u16 = 1u16 << 1u16;
/// Separate by sender.
pub const THROTTLE_SENDER: u16 = 1u16 << 2u16;
/// Separate by sender domain.
pub const THROTTLE_SENDER_DOMAIN: u16 = 1u16 << 3u16;
/// Separate by authenticated user.
pub const THROTTLE_AUTH_AS: u16 = 1u16 << 4u16;
/// Separate by listener.
pub const THROTTLE_LISTENER: u16 = 1u16 << 5u16;
/// Separate by MX host.
pub const THROTTLE_MX: u16 = 1u16 << 6u16;
/// Separate by remote IP address.
pub const THROTTLE_REMOTE_IP: u16 = 1u16 << 7u16;
/// Separate by local IP address.
pub const THROTTLE_LOCAL_IP: u16 = 1u16 << 8u16;
/// Separate by HELO domain.
pub const THROTTLE_HELO_DOMAIN: u16 = 1u16 << 9u16;

/// The texts that the envelope's variables resolve to.
pub struct EnvelopeVars {
    pub rcpt: String,
    pub rcpt_domain: String,
    pub sender: String,
    pub sender_domain: String,
    pub helo_domain: String,
    pub authenticated_as: String,
    pub listener: String,
    pub mx: String,
    pub remote_ip: String,
    pub local_ip: String,
}

/// A rate: at most `requests` in `period_secs` seconds.
#[derive(Clone, Copy, Debug, PartialEq, Eq, Structural)]
pub struct Rate {
    pub requests: u64,
    pub period_secs: u64,
}

/// A throttle: the envelope values it separates by, and its rate and
/// concurrency limits.
pub struct Throttle {
    pub keys: u16,
    pub rate: Option<Rate>,
    pub concurrency: Option<u64>,
}

/// A queue quota: the envelope values it separates by, and its message
/// count and size limits.
pub struct QueueQuota {
    pub keys: u16,
    pub messages: Option<u64>,
    pub size: Option<u64>,
}

/// The key that a limit is counted under: a BLAKE3 hash.
pub struct ThrottleKey {
    pub hash: [u8; 32],
}

/// The BLAKE3 hash of a byte string.
pub uninterp spec fn blake3_digest(data: Seq<u8>) -> Seq<u8>;

/// Hashes bytes with `blake3::hash`. The contract claims that the hash is a
/// function of the bytes, named `blake3_digest`; it is 32 bytes long by
/// its type. Hashing the bytes at once gives what `blake3::Hasher` gives
/// for the same bytes written in pieces, as the crate documents.
#[verifier::external_body]
fn blake3_hash(data: &[u8]) -> (r: [u8; 32])
    ensures
        r@ == blake3_digest(data@),
{
    *blake3::hash(data).as_bytes()
}

/// The eight bytes of a number in the machine's byte order, with
/// `u64::to_ne_bytes`; which order that is depends on the machine, so
/// nothing is stated of the bytes.
#[verifier::external_body]
fn ne_bytes(n: u64) -> (r: [u8; 8]) {
    n.to_ne_bytes()
}

/// Appends bytes to a byte string.
fn append_bytes(v: &mut Vec<u8>, b: &[u8])
    ensures
        final(v)@ == old(v)@ + b@,
{
    let ghost start = v@;
    let mut i: usize = 0;
    while i < b.len()
        invariant
            i <= b@.len(),
            v@ == start + b@.take(i as int),
        decreases b.len() - i,
    {
        v.push(b[i]);
        assert(b@.take(i + 1) =~= b@.take(i as int).push(b@[i as int]));
        i = i + 1;
    }
    assert(b@.take(b@.len() as int) =~= b@);
}

/// A sender that is empty stands as `<>`.
pub open spec fn or_null_sender(t: Seq<char>) -> Seq<char> {
    if t.len() == 0 {
        "<>"@
    } else {
        t
    }
}

/// The UTF-8 bytes of `t` where `keys` holds `flag`, else nothing.
pub open spec fn key_part(keys: u16, flag: u16, t: Seq<char>) -> Seq<u8> {
    if keys & flag != 0 {
        encode_utf8(t)
    } else {
        Seq::empty()
    }
}

/// The envelope values that both throttles and quotas separate by, in
/// order: recipient, recipient domain, sender and sender domain (an empty
/// one as `<>`).
pub open spec fn envelope_material(keys: u16, v: EnvelopeVars) -> Seq<u8> {
    key_part(keys, THROTTLE_RCPT, v.rcpt@) + key_part(keys, THROTTLE_RCPT_DOMAIN, v.rcpt_domain@)
        + key_part(keys, THROTTLE_SENDER, or_null_sender(v.sender@))
        + key_part(keys, THROTTLE_SENDER_DOMAIN, or_null_sender(v.sender_domain@))
}

/// The envelope values a throttle separates by, in order: those of
/// `envelope_material`, then HELO domain, authenticated user, listener,
/// MX host, remote and local IP address.
pub open spec fn session_material(keys: u16, v: EnvelopeVars) -> Seq<u8> {
    envelope_material(keys, v) + key_part(keys, THROTTLE_HELO_DOMAIN, v.helo_domain@)
        + key_part(keys, THROTTLE_AUTH_AS, v.authenticated_as@)
        + key_part(keys, THROTTLE_LISTENER, v.listener@) + key_part(keys, THROTTLE_MX, v.mx@)
        + key_part(keys, THROTTLE_REMOTE_IP, v.remote_ip@)
        + key_part(keys, THROTTLE_LOCAL_IP, v.local_ip@)
}

/// `m` is the text `text` followed by `numbers` eight-byte numbers.
pub open spec fn material_shape(m: Seq<u8>, text: Seq<u8>, numbers: nat) -> bool {
    &&& m.len() == text.len() + 8 * numbers
    &&& m.subrange(0, text.len() as int) == text
}

/// Appends the UTF-8 bytes of `t` where `keys` holds `flag`.
fn append_part(m: &mut Vec<u8>, keys: u16, flag: u16, t: &str)
    ensures
        final(m)@ == old(m)@ + key_part(keys, flag, t@),
{
    if keys & flag != 0 {
        append_bytes(m, t.as_bytes());
    } else {
        assert(old(m)@ + key_part(keys, flag, t@) =~= old(m)@);
    }
}

/// Appends a sender where `keys` holds `flag`: `<>` where it is empty.
fn append_sender_part(m: &mut Vec<u8>, keys: u16, flag: u16, t: &str)
    ensures
        final(m)@ == old(m)@ + key_part(keys, flag, or_null_sender(t@)),
{
    if t.unicode_len() == 0 {
        append_part(m, keys, flag, "<>");
    } else {
        append_part(m, keys, flag, t);
    }
}

/// Appends the envelope values that both throttles and quotas separate by.
fn append_envelope(m: &mut Vec<u8>, keys: u16, v: &EnvelopeVars)
    ensures
        final(m)@ == old(m)@ + envelope_material(keys, *v),
{
    append_part(m, keys, THROTTLE_RCPT, v.rcpt.as_str());
    append_part(m, keys, THROTTLE_RCPT_DOMAIN, v.rcpt_domain.as_str());
    append_sender_part(m, keys, THROTTLE_SENDER, v.sender.as_str());
    append_sender_part(m, keys, THROTTLE_SENDER_DOMAIN, v.sender_domain.as_str());
    assert(final(m)@ =~= old(m)@ + envelope_material(keys, *v));
}

/// Appends the eight bytes of a number.
fn append_number(m: &mut Vec<u8>, n: u64)
    ensures
        final(m)@.len() == old(m)@.len() + 8,
        forall|i: int| 0 <= i < old(m)@.len() ==> #[trigger] final(m)@[i] == old(m)@[i],
{
    let b = ne_bytes(n);
    append_bytes(m, b.as_slice());
}

/// How many numbers a throttle's key ends with: the rate's requests and
/// period, and the concurrency limit, where it has them.
pub open spec fn throttle_numbers(t: Throttle) -> nat {
    (if t.rate is Some { 2nat } else { 0nat }) + (if t.concurrency is Some { 1nat } else { 0nat })
}

/// How many numbers a quota's key ends with: its message and size limits,
/// where it has them.
pub open spec fn quota_numbers(q: QueueQuota) -> nat {
    (if q.messages is Some { 1nat } else { 0nat }) + (if q.size is Some { 1nat } else { 0nat })
}

impl Throttle {
    /// The bytes this throttle is counted under for an envelope: the
    /// values it separates by, then its rate's period (seconds) and
    /// requests and its concurrency limit, each as eight bytes.
    pub fn key_material(&self, v: &EnvelopeVars) -> (r: Vec<u8>)
        ensures
            material_shape(r@, session_material(self.keys, *v), throttle_numbers(*self)),
    {
        let keys = self.keys;
        let mut m: Vec<u8> = Vec::new();
        append_envelope(&mut m, keys, v);
        append_part(&mut m, keys, THROTTLE_HELO_DOMAIN, v.helo_domain.as_str());
        append_part(&mut m, keys, THROTTLE_AUTH_AS, v.authenticated_as.as_str());
        append_part(&mut m, keys, THROTTLE_LISTENER, v.listener.as_str());
        append_part(&mut m, keys, THROTTLE_MX, v.mx.as_str());
        append_part(&mut m, keys, THROTTLE_REMOTE_IP, v.remote_ip.as_str());
        append_part(&mut m, keys, THROTTLE_LOCAL_IP, v.local_ip.as_str());
        let ghost text = m@;
        assert(text =~= session_material(keys, *v));
        if let Some(rate) = &self.rate {
            append_number(&mut m, rate.period_secs);
            append_number(&mut m, rate.requests);
        }
        if let Some(c) = self.concurrency {
            append_number(&mut m, c);
        }
        assert(m@.subrange(0, text.len() as int) =~= text);
        m
    }

    /// The key this throttle is counted under for an envelope: the BLAKE3
    /// hash of its key material.
    pub fn new_key(&self, v: &EnvelopeVars) -> (r: ThrottleKey)
        ensures
            exists|m: Seq<u8>|
                material_shape(m, session_material(self.keys, *v), throttle_numbers(*self))
                    && r.hash@ == blake3_digest(m),
    {
        let m = self.key_material(v);
        ThrottleKey { hash: blake3_hash(m.as_slice()) }
    }
}

impl QueueQuota {
    /// The bytes this quota is counted under for an envelope: the values it
    /// separates by, then its message and size limits, each as eight bytes.
    pub fn key_material(&self, v: &EnvelopeVars) -> (r: Vec<u8>)
        ensures
            material_shape(r@, envelope_material(self.keys, *v), quota_numbers(*self)),
    {
        let mut m: Vec<u8> = Vec::new();
        append_envelope(&mut m, self.keys, v);
        let ghost text = m@;
        assert(text =~= envelope_material(self.keys, *v));
        if let Some(n) = self.messages {
            append_number(&mut m, n);
        }
        if let Some(s) = self.size {
            append_number(&mut m, s);
        }
        assert(m@.subrange(0, text.len() as int) =~= text);
        m
    }

    /// The key this quota is counted under for an envelope: the BLAKE3
    /// hash of its key material.
    pub fn new_key(&self, v: &EnvelopeVars) -> (r: ThrottleKey)
        ensures
            exists|m: Seq<u8>|
                material_shape(m, envelope_material(self.keys, *v), quota_numbers(*self))
                    && r.hash@ == blake3_digest(m),
    {
        let m = self.key_material(v);
        ThrottleKey { hash: blake3_hash(m.as_slice()) }
    }
}

/// The stage of a session whose throttles apply.
#[derive(Clone, Copy, Debug, PartialEq, Eq, Structural)]
pub enum ThrottleStage {
    Connect,
    MailFrom,
    RcptTo,
}

/// The throttles that apply to a session: those of `RCPT TO` once it has
/// a recipient, else those of `MAIL FROM` once it has a sender, else those
/// of the connection.
pub fn throttle_stage(has_rcpt: bool, has_mail_from: bool) -> (r: ThrottleStage)
    ensures
        r == (if has_rcpt {
            ThrottleStage::RcptTo
        } else if has_mail_from {
            ThrottleStage::MailFrom
        } else {
            ThrottleStage::Connect
        }),
{
    if has_rcpt {
        ThrottleStage::RcptTo
    } else if has_mail_from {
        ThrottleStage::MailFrom
    } else {
        ThrottleStage::Connect
    }
}

/// How many of `domains` equal `d`.
pub open spec fn count_domain(domains: Seq<String>, d: Seq<char>) -> nat
    decreases domains.len(),
{
    if domains.len() == 0 {
        0
    } else {
        count_domain(domains.drop_last(), d) + (if domains.last()@ == d { 1nat } else { 0nat })
    }
}

/// The domain of the last recipient, or the empty text for none.
pub open spec fn last_domain(domains: Seq<String>) -> Seq<char> {
    if domains.len() == 0 {
        Seq::empty()
    } else {
        domains.last()@
    }
}

/// Whether a throttle by recipient domain was already counted for the
/// session's last recipient: another recipient has the same domain.
pub fn rcpt_domain_counted(domains: &Vec<String>) -> (r: bool)
    ensures
        r == (count_domain(domains@, last_domain(domains@)) > 1),
{
    if domains.len() == 0 {
        return false;
    }
    let d = domains[domains.len() - 1].as_str();
    let mut n: usize = 0;
    let mut i: usize = 0;
    while i < domains.len()
        invariant
            i <= domains@.len(),
            d@ == last_domain(domains@),
            n == count_domain(domains@.take(i as int), d@),
            n <= i,
        decreases domains.len() - i,
    {
        assert(domains@.take(i + 1).drop_last() =~= domains@.take(i as int));
        if str_eq(domains[i].as_str(), d) {
            n = n + 1;
        }
        i = i + 1;
    }
    assert(domains@.take(domains@.len() as int) =~= domains@);
    n > 1
}


/// Whether a session goes on after a rate check: a check that found the
/// limit exceeded (`Ok(Some(retry_in))`) stops it; one within the limit,
/// or one that failed to run (`Err`), lets it go on.
pub fn rate_check_allows<E>(outcome: &Result<Option<u64>, E>) -> (r: bool)
    ensures
        r == !(outcome matches Ok(Some(_))),
{
    match outcome {
        Ok(Some(_)) => false,
        _ => true,
    }
}

/// What a session's throttle decides: whether it applies (its condition is
/// empty or holds, and, for a recipient-domain throttle, the last
/// recipient's domain was not counted already), then whether the
/// concurrency limiter (where the throttle has one) admitted the session,
/// then the rate check (where it has one). `None` for a check the throttle
/// does not make.
pub open spec fn throttle_admits<E>(applies: bool, concurrency_ok: Option<bool>, rate: Option<Result<Option<u64>, E>>) -> bool {
    !applies || ((concurrency_ok != Some(false)) && match rate {
        Some(Ok(Some(_))) => false,
        _ => true,
    })
}

/// Whether a session's throttle lets it go on (see [`throttle_admits`]).
pub fn throttle_verdict<E>(applies: bool, concurrency_ok: Option<bool>, rate: &Option<Result<Option<u64>, E>>) -> (r: bool)
    ensures
        r == throttle_admits(applies, concurrency_ok, *rate),
{
    if !applies {
        return true;
    }
    if let Some(false) = concurrency_ok {
        return false;
    }
    match rate {
        Some(outcome) => rate_check_allows(outcome),
        None => true,
    }
}

} // verus!
