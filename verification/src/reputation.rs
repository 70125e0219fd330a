//! Reputation tags of the spam filter: which tags a message earns from the
//! sender's domain, its network (ASN) and IP address, and its country.

use vstd::prelude::*;
use crate::expression::{sld_or_default, EmailParts};
use crate::text::{decimal, push_decimal, push_str};
use vstd::string::StrSliceExecFns;

verus! {

/// How often a sender was seen in ham and in spam.
#[derive(Clone, Copy, Debug, PartialEq, Eq, Structural)]
pub struct ReputationCount {
    pub ham: u64,
    pub spam: u64,
}

/// How a sender's past messages rate it.
#[derive(Clone, Copy, Debug, PartialEq, Eq, Structural)]
pub enum ReputationLevel {
    VeryBad,
    Bad,
    Good,
    VeryGood,
}

/// The suffix of a reputation tag.
pub open spec fn level_suffix(l: ReputationLevel) -> Seq<char> {
    match l {
        ReputationLevel::VeryBad => "_VERY_BAD"@,
        ReputationLevel::Bad => "_BAD"@,
        ReputationLevel::Good => "_GOOD"@,
        ReputationLevel::VeryGood => "_VERY_GOOD"@,
    }
}

/// The tag of a reputation: the prefix and the level's suffix.
pub fn level_tag(prefix: &str, level: ReputationLevel) -> (r: String)
    ensures
        r@ == prefix@ + level_suffix(level),
{
    let mut t = String::new();
    push_str(&mut t, prefix);
    match level {
        ReputationLevel::VeryBad => push_str(&mut t, "_VERY_BAD"),
        ReputationLevel::Bad => push_str(&mut t, "_BAD"),
        ReputationLevel::Good => push_str(&mut t, "_GOOD"),
        ReputationLevel::VeryGood => push_str(&mut t, "_VERY_GOOD"),
    }
    assert(t@ =~= prefix@ + level_suffix(level));
    t
}

/// Whether a sender was seen often enough, ten times or more, for its
/// reputation to count.
pub open spec fn seen_enough(c: ReputationCount) -> bool {
    c.ham + c.spam >= 10
}

/// Whether a sender was seen often enough for its reputation to count.
pub fn has_enough_occurrences(c: &ReputationCount) -> (r: bool)
    ensures
        r == seen_enough(*c),
{
    c.ham >= 10 || c.spam >= 10 - c.ham
}

/// Whether reputations are looked up: ham and spam were both seen, fewer
/// than a hundred times in all.
pub open spec fn reputation_applies(total: ReputationCount) -> bool {
    total.ham > 0 && total.spam > 0 && total.ham + total.spam < 100
}

/// The domain whose reputation counts: the registrable part of the
/// envelope sender's domain, or of the From address's where the envelope
/// sender is empty.
pub open spec fn sender_domain_of(env_from: EmailParts, from: EmailParts) -> Seq<char> {
    if env_from.address@.len() > 0 {
        sld_or_default(env_from)
    } else {
        sld_or_default(from)
    }
}

/// The domain whose reputation counts for a message.
pub fn sender_domain<'a>(env_from: &'a EmailParts, from: &'a EmailParts) -> (r: &'a str)
    ensures
        r@ == sender_domain_of(*env_from, *from),
{
    let sender = if env_from.address.as_str().unicode_len() > 0 { env_from } else { from };
    match &sender.sld {
        Some(s) => s.as_str(),
        None => sender.fqdn.as_str(),
    }
}

/// The reputations found for a message's sender domain, network and IP
/// address, where a lookup found one that rates them.
pub struct ReputationFindings {
    pub domain: Option<ReputationLevel>,
    pub asn: Option<ReputationLevel>,
    pub ip: Option<ReputationLevel>,
}

/// One tag of a level found with `prefix`, or none.
pub open spec fn found_tag(prefix: Seq<char>, l: Option<ReputationLevel>) -> Seq<Seq<char>> {
    match l {
        Some(l) => seq![prefix + level_suffix(l)],
        None => Seq::empty(),
    }
}

/// The tag of a message's network.
pub open spec fn asn_tag(asn: u32) -> Seq<char> {
    "SOURCE_ASN_"@ + decimal(asn as nat)
}

/// The tags a message earns, in order: where reputations apply, the
/// domain's (only when DMARC passed), the network's own tag and its
/// reputation's, and the IP address's; else only the network's own tag;
/// then the country's.
pub open spec fn reputation_tag_list(
    total: ReputationCount,
    dmarc_pass: bool,
    asn: Option<u32>,
    country: Option<String>,
    found: ReputationFindings,
) -> Seq<Seq<char>> {
    let network = match asn {
        Some(a) => seq![asn_tag(a)],
        None => Seq::empty(),
    };
    let country_tags = match country {
        Some(c) => seq!["SOURCE_COUNTRY_"@ + c@],
        None => Seq::empty(),
    };
    if reputation_applies(total) {
        let domain = if dmarc_pass { found_tag("REP_DOMAIN"@, found.domain) } else { Seq::empty() };
        let network_rep = if asn is Some { found_tag("REP_ASN"@, found.asn) } else { Seq::empty() };
        domain + network + network_rep + found_tag("REP_IP"@, found.ip) + country_tags
    } else {
        network + country_tags
    }
}

/// The tags that a message earns, given the totals of ham and spam seen,
/// whether DMARC passed, its network and country, and the reputations
/// found of its sender domain, network and IP address.
pub fn reputation_tags(
    total: &ReputationCount,
    dmarc_pass: bool,
    asn: Option<u32>,
    country: &Option<String>,
    found: &ReputationFindings,
) -> (r: Vec<String>)
    ensures
        r@.map_values(|t: String| t@) == reputation_tag_list(*total, dmarc_pass, asn, *country, *found),
{
    let ghost want = reputation_tag_list(*total, dmarc_pass, asn, *country, *found);
    let mut tags: Vec<String> = Vec::new();
    let mut expect: Ghost<Seq<Seq<char>>> = Ghost(Seq::empty());
    let applies = total.ham > 0 && total.spam > 0 && total.ham < 100 && total.spam < 100 - total.ham;
    if applies && dmarc_pass {
        if let Some(l) = found.domain {
            tags.push(level_tag("REP_DOMAIN", l));
        }
        proof {
            expect@ = expect@ + found_tag("REP_DOMAIN"@, found.domain);
        }
    }
    if let Some(a) = asn {
        let mut t = String::new();
        push_str(&mut t, "SOURCE_ASN_");
        push_decimal(&mut t, a as u64);
        tags.push(t);
        proof {
            expect@ = expect@ + seq![asn_tag(a)];
        }
        if applies {
            if let Some(l) = found.asn {
                tags.push(level_tag("REP_ASN", l));
            }
            proof {
                expect@ = expect@ + found_tag("REP_ASN"@, found.asn);
            }
        }
    }
    if applies {
        if let Some(l) = found.ip {
            tags.push(level_tag("REP_IP", l));
        }
        proof {
            expect@ = expect@ + found_tag("REP_IP"@, found.ip);
        }
    }
    if let Some(c) = country {
        let mut t = String::new();
        push_str(&mut t, "SOURCE_COUNTRY_");
        push_str(&mut t, c.as_str());
        tags.push(t);
        proof {
            expect@ = expect@ + seq!["SOURCE_COUNTRY_"@ + c@];
        }
    }
    assert(tags@.map_values(|t: String| t@) =~= expect@);
    assert(expect@ =~= want);
    tags
}

} // verus!
