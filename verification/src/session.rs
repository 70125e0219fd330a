//! Addresses of an SMTP session and the outcomes that delivery attempts
//! report back to the queue.

use vstd::prelude::*;
use crate::external::{lowercase, str_from_utf8, to_lowercase, trim, trimmed};
use vstd::string::StrSliceExecFns;
use vstd::utf8::{decode_utf8, valid_utf8};
use vstd::std_specs::cmp::PartialEqSpecImpl;
use crate::queue::DeliveryStatus;
use crate::text::{domain_of, domain_part};

verus! {

/// An envelope address as the session received it.
pub struct SessionAddress {
    pub address: String,
    pub address_lcase: String,
    pub domain: String,
    pub flags: u64,
    pub dsn_info: Option<String>,
}

impl SessionAddress {
    /// The address with its lowercase form and the domain of that form, no
    /// flags and no DSN envelope id.
    pub fn new(address: String) -> (r: Self)
        ensures
            r.address@ == address@,
            r.address_lcase@ == lowercase(address@),
            r.domain@ == domain_of(lowercase(address@)),
            r.flags == 0,
            r.dsn_info is None,
    {
        let address_lcase = to_lowercase(address.as_str());
        let domain = String::from_str(domain_part(address_lcase.as_str()));
        SessionAddress { address, address_lcase, domain, flags: 0, dsn_info: None }
    }
}

/// Two session addresses are the same address when their lowercase forms
/// are.
impl PartialEq for SessionAddress {
    fn eq(&self, other: &Self) -> (r: bool) {
        self.address_lcase == other.address_lcase
    }
}

impl PartialEqSpecImpl for SessionAddress {
    open spec fn obeys_eq_spec() -> bool {
        true
    }

    open spec fn eq_spec(&self, other: &Self) -> bool {
        self.address_lcase@ == other.address_lcase@
    }
}

impl Eq for SessionAddress {
}

/// What a delivery attempt reports for some recipients of a message.
pub enum DeliveryResult {
    /// The outcome for the recipients of one domain.
    Domain { status: DeliveryStatus, rcpt_idxs: Vec<usize> },
    /// The outcome for the recipient of one local account.
    Account { status: DeliveryStatus, rcpt_idx: usize },
    /// The recipients could not be tried before `retry_at`.
    RateLimited { rcpt_idxs: Vec<usize>, retry_at: u64 },
}

impl DeliveryResult {
    pub fn domain(status: DeliveryStatus, rcpt_idxs: Vec<usize>) -> (r: Self)
        ensures
            r == (DeliveryResult::Domain { status, rcpt_idxs }),
    {
        DeliveryResult::Domain { status, rcpt_idxs }
    }

    pub fn rate_limited(rcpt_idxs: Vec<usize>, retry_at: u64) -> (r: Self)
        ensures
            r == (DeliveryResult::RateLimited { rcpt_idxs, retry_at }),
    {
        DeliveryResult::RateLimited { rcpt_idxs, retry_at }
    }

    pub fn account(status: DeliveryStatus, rcpt_idx: usize) -> (r: Self)
        ensures
            r == (DeliveryResult::Account { status, rcpt_idx }),
    {
        DeliveryResult::Account { status, rcpt_idx }
    }
}


/// How an address is recognised as one that receives reports.
pub enum AddressMatch {
    StartsWith(String),
    EndsWith(String),
    Equals(String),
}

/// Whether an address matches.
pub open spec fn address_matches(m: AddressMatch, a: Seq<char>) -> bool {
    match m {
        AddressMatch::StartsWith(p) => p@.len() <= a.len() && a.subrange(0, p@.len() as int) == p@,
        AddressMatch::EndsWith(x) => x@.len() <= a.len() && a.subrange(a.len() - x@.len(), a.len() as int) == x@,
        AddressMatch::Equals(v) => a == v@,
    }
}

/// Whether `a` holds `p` from position `at` on.
fn holds_at(a: &str, p: &str, at: usize) -> (r: bool)
    requires
        at + p@.len() <= a@.len(),
    ensures
        r == (a@.subrange(at as int, at + p@.len()) == p@),
{
    let n: usize = p.unicode_len();
    let alen: usize = a.unicode_len();
    let mut i: usize = 0;
    while i < n
        invariant
            n == p@.len(),
            alen == a@.len(),
            at + n <= a@.len(),
            i <= n,
            forall|j: int| 0 <= j < i ==> a@[at + j] == p@[j],
        decreases n - i,
    {
        if a.get_char(at + i) != p.get_char(i) {
            assert(a@.subrange(at as int, at + p@.len())[i as int] != p@[i as int]);
            return false;
        }
        i = i + 1;
    }
    assert(a@.subrange(at as int, at + p@.len()) =~= p@);
    true
}

/// Whether an address matches.
fn matches_address(m: &AddressMatch, a: &str) -> (r: bool)
    ensures
        r == address_matches(*m, a@),
{
    let len: usize = a.unicode_len();
    match m {
        AddressMatch::StartsWith(p) => {
            let n: usize = p.as_str().unicode_len();
            n <= len && holds_at(a, p.as_str(), 0)
        },
        AddressMatch::EndsWith(x) => {
            let n: usize = x.as_str().unicode_len();
            n <= len && holds_at(a, x.as_str(), len - n)
        },
        AddressMatch::Equals(v) => crate::text::str_eq(a, v.as_str()),
    }
}

/// Whether a message is addressed to a report address: one of its
/// recipients (by lowercase address) matches one of the patterns.
pub fn is_report(patterns: &Vec<AddressMatch>, rcpt_to: &Vec<SessionAddress>) -> (r: bool)
    ensures
        r == exists|i: int, j: int|
            0 <= i < patterns@.len() && 0 <= j < rcpt_to@.len()
                && address_matches(#[trigger] patterns@[i], (#[trigger] rcpt_to@[j]).address_lcase@),
{
    let mut i: usize = 0;
    while i < patterns.len()
        invariant
            i <= patterns@.len(),
            forall|a: int, b: int|
                0 <= a < i && 0 <= b < rcpt_to@.len() ==> !address_matches(
                    #[trigger] patterns@[a],
                    (#[trigger] rcpt_to@[b]).address_lcase@,
                ),
        decreases patterns.len() - i,
    {
        let mut j: usize = 0;
        while j < rcpt_to.len()
            invariant
                i < patterns@.len(),
                j <= rcpt_to@.len(),
                forall|a: int, b: int|
                    0 <= a < i && 0 <= b < rcpt_to@.len() ==> !address_matches(
                        #[trigger] patterns@[a],
                        (#[trigger] rcpt_to@[b]).address_lcase@,
                    ),
                forall|b: int| 0 <= b < j ==> !address_matches(patterns@[i as int], (#[trigger] rcpt_to@[b]).address_lcase@),
            decreases rcpt_to.len() - j,
        {
            if matches_address(&patterns[i], rcpt_to[j].address_lcase.as_str()) {
                assert(address_matches(patterns@[i as int], rcpt_to@[j as int].address_lcase@));
                return true;
            }
            j = j + 1;
        }
        i = i + 1;
    }
    false
}

/// The reply a session wrote, if it reports a failure: a reply that does
/// not start with `2` (trimmed); the buffer is emptied either way.
pub fn has_failed(tx_buf: &mut Vec<u8>) -> (r: Option<String>)
    requires
        old(tx_buf)@.len() > 0 && old(tx_buf)@[0] != 50u8 ==> valid_utf8(old(tx_buf)@),
    ensures
        final(tx_buf)@.len() == 0,
        r is None <==> (old(tx_buf)@.len() == 0 || old(tx_buf)@[0] == 50u8),
        r matches Some(t) ==> t@ == trimmed(decode_utf8(old(tx_buf)@)),
{
    if tx_buf.len() == 0 || tx_buf[0] == 50u8 {
        tx_buf.clear();
        None
    } else {
        let text = match str_from_utf8(tx_buf.as_slice()) {
            Some(s) => Some(String::from_str(trim(s))),
            None => None,
        };
        tx_buf.clear();
        text
    }
}


/// What resolving a recipient address found.
pub enum RcptResolution {
    Accept,
    Rewrite(String),
    Expand(Vec<String>),
    UnknownRecipient,
    UnknownDomain,
}

/// The address a `VRFY` or `EXPN` command looks up: in lower case.
pub fn vrfy_lookup_address(address: &str) -> (r: String)
    ensures
        r@ == lowercase(address@),
{
    to_lowercase(address)
}

/// The reply to `VRFY address`: refused where the command is disabled;
/// else, from the outcome of resolving the address (`Err` for a failed
/// lookup), `250` and the address for a known one, `550` for an unknown
/// one, `252` where it could not be checked.
pub open spec fn vrfy_reply_text(enabled: bool, address: Seq<char>, outcome: Result<RcptResolution, ()>) -> Seq<char> {
    if !enabled {
        "252 2.5.1 VRFY is disabled.\r\n"@
    } else {
        match outcome {
            Ok(RcptResolution::UnknownRecipient) | Ok(RcptResolution::UnknownDomain) => "550 5.1.2 Address not found.\r\n"@,
            Ok(_) => "250 "@ + address + "\r\n"@,
            Err(_) => "252 2.4.3 Unable to verify address at this time.\r\n"@,
        }
    }
}

/// The reply to `VRFY` (see [`vrfy_reply_text`]).
pub fn vrfy_reply(enabled: bool, address: &str, outcome: &Result<RcptResolution, ()>) -> (r: String)
    ensures
        r@ == vrfy_reply_text(enabled, address@, *outcome),
{
    if !enabled {
        return String::from_str("252 2.5.1 VRFY is disabled.\r\n");
    }
    match outcome {
        Ok(RcptResolution::UnknownRecipient) | Ok(RcptResolution::UnknownDomain) => String::from_str(
            "550 5.1.2 Address not found.\r\n",
        ),
        Ok(_) => {
            let mut t = String::from_str("250 ");
            crate::text::push_str(&mut t, address);
            crate::text::push_str(&mut t, "\r\n");
            t
        },
        Err(_) => String::from_str("252 2.4.3 Unable to verify address at this time.\r\n"),
    }
}

/// The lines listing a mailing list's members: `250-` before each but the
/// last, `250 ` before the last.
pub open spec fn expansion_lines(members: Seq<String>) -> Seq<char>
    decreases members.len(),
{
    if members.len() == 0 {
        Seq::empty()
    } else if members.len() == 1 {
        "250 "@ + members[0]@ + "\r\n"@
    } else {
        "250-"@ + members[0]@ + "\r\n"@ + expansion_lines(members.drop_first())
    }
}

/// The reply to `EXPN address`: refused where the command is disabled;
/// else the members of a mailing list, `550` where the address is not one,
/// `252` where the lookup failed.
pub open spec fn expn_reply_text(enabled: bool, outcome: Result<RcptResolution, ()>) -> Seq<char> {
    if !enabled {
        "252 2.5.1 EXPN is disabled.\r\n"@
    } else {
        match outcome {
            Ok(RcptResolution::Expand(members)) => expansion_lines(members@),
            Ok(_) => "550 5.1.2 Mailing list not found.\r\n"@,
            Err(_) => "252 2.4.3 Unable to expand mailing list at this time.\r\n"@,
        }
    }
}

/// The expansion lines of the members from position `k` on.
proof fn lemma_expansion_suffix(members: Seq<String>, k: int)
    requires
        0 <= k < members.len(),
    ensures
        expansion_lines(members.subrange(k, members.len() as int)) == (if k == members.len() - 1 {
            "250 "@ + members[k]@ + "\r\n"@
        } else {
            "250-"@ + members[k]@ + "\r\n"@ + expansion_lines(members.subrange(k + 1, members.len() as int))
        }),
{
    let s = members.subrange(k, members.len() as int);
    assert(s[0] == members[k]);
    if k < members.len() - 1 {
        assert(s.drop_first() =~= members.subrange(k + 1, members.len() as int));
    }
}

/// The reply to `EXPN` (see [`expn_reply_text`]).
pub fn expn_reply(enabled: bool, outcome: &Result<RcptResolution, ()>) -> (r: String)
    ensures
        r@ == expn_reply_text(enabled, *outcome),
{
    if !enabled {
        return String::from_str("252 2.5.1 EXPN is disabled.\r\n");
    }
    match outcome {
        Ok(RcptResolution::Expand(members)) => {
            let n = members.len();
            let mut t = String::new();
            let mut k: usize = 0;
            assert(members@.subrange(0, n as int) =~= members@);
            assert(t@ + expansion_lines(members@) =~= expansion_lines(members@));
            while k < n
                invariant
                    n == members@.len(),
                    k <= n,
                    t@ + expansion_lines(members@.subrange(k as int, n as int)) == expansion_lines(members@),
                decreases n - k,
            {
                proof {
                    lemma_expansion_suffix(members@, k as int);
                }
                let ghost before = t@;
                if k == n - 1 {
                    crate::text::push_str(&mut t, "250 ");
                } else {
                    crate::text::push_str(&mut t, "250-");
                }
                crate::text::push_str(&mut t, members[k].as_str());
                crate::text::push_str(&mut t, "\r\n");
                proof {
                    if k == n - 1 {
                        assert(members@.subrange(k + 1, n as int) =~= Seq::<String>::empty());
                        assert(t@ + expansion_lines(members@.subrange(k + 1, n as int)) =~= before + ("250 "@ + members@[k as int]@ + "\r\n"@));
                    } else {
                        assert(t@ + expansion_lines(members@.subrange(k + 1, n as int)) =~= before + ("250-"@ + members@[k as int]@ + "\r\n"@ + expansion_lines(members@.subrange(k + 1, n as int))));
                    }
                }
                k = k + 1;
            }
            assert(members@.subrange(n as int, n as int) =~= Seq::<String>::empty());
            assert(t@ =~= expansion_lines(members@)) by {
                assert(t@ + Seq::<char>::empty() =~= t@);
            }
            t
        },
        Ok(_) => String::from_str("550 5.1.2 Mailing list not found.\r\n"),
        Err(_) => String::from_str("252 2.4.3 Unable to expand mailing list at this time.\r\n"),
    }
}

} // verus!
