//! DNSSEC and DANE: how the security of a set of DNS answers is summed up,
//! which TLSA records a lookup keeps, how MX answers are grouped, and how a
//! host's certificates are matched against its TLSA records.

use vstd::prelude::*;
use crate::external::{sha256, sha256_digest, sha512, sha512_digest};
use crate::queue::{DeliveryStatus, Error, ErrorDetails, Status};
use crate::tls_report::{TlsaEntry, TlsaMatching};

use crate::tokens::{ascii_lowercase, push_ascii_lower};

verus! {

/// How far a DNS answer is proven by DNSSEC.
#[derive(Clone, Copy, Debug, PartialEq, Eq, Structural)]
pub enum DnssecStatus {
    Secure,
    Insecure,
    Bogus,
    Indeterminate,
}

/// The DNSSEC proof that came with a record.
#[derive(Clone, Copy, Debug, PartialEq, Eq, Structural)]
pub enum DnssecProof {
    Secure,
    Insecure,
    Bogus,
    Indeterminate,
}

/// How secure a status is: bogus, then indeterminate, then insecure, then
/// secure.
pub open spec fn security_rank(s: DnssecStatus) -> u8 {
    match s {
        DnssecStatus::Bogus => 0,
        DnssecStatus::Indeterminate => 1,
        DnssecStatus::Insecure => 2,
        DnssecStatus::Secure => 3,
    }
}

/// The less secure of two statuses (the first where they rank the same).
pub open spec fn least_secure_of(a: DnssecStatus, b: DnssecStatus) -> DnssecStatus {
    if security_rank(a) <= security_rank(b) {
        a
    } else {
        b
    }
}

/// The less secure of two statuses.
pub fn least_secure(a: DnssecStatus, b: DnssecStatus) -> (r: DnssecStatus)
    ensures
        r == least_secure_of(a, b),
{
    let ra: u8 = match a {
        DnssecStatus::Bogus => 0,
        DnssecStatus::Indeterminate => 1,
        DnssecStatus::Insecure => 2,
        DnssecStatus::Secure => 3,
    };
    let rb: u8 = match b {
        DnssecStatus::Bogus => 0,
        DnssecStatus::Indeterminate => 1,
        DnssecStatus::Insecure => 2,
        DnssecStatus::Secure => 3,
    };
    if ra <= rb {
        a
    } else {
        b
    }
}

/// Summing up security takes the weakest link: the result is one of the
/// two, no more secure than either, the same whichever comes first and
/// however a run is grouped, and a status summed with itself is itself.
pub proof fn lemma_least_secure_meet(a: DnssecStatus, b: DnssecStatus, c: DnssecStatus)
    ensures
        least_secure_of(a, b) == a || least_secure_of(a, b) == b,
        security_rank(least_secure_of(a, b)) <= security_rank(a),
        security_rank(least_secure_of(a, b)) <= security_rank(b),
        least_secure_of(a, b) == least_secure_of(b, a),
        least_secure_of(least_secure_of(a, b), c) == least_secure_of(a, least_secure_of(b, c)),
        least_secure_of(a, a) == a,
{
}

/// The status that a record's proof gives.
pub open spec fn proof_status(p: DnssecProof) -> DnssecStatus {
    match p {
        DnssecProof::Secure => DnssecStatus::Secure,
        DnssecProof::Insecure => DnssecStatus::Insecure,
        DnssecProof::Bogus => DnssecStatus::Bogus,
        DnssecProof::Indeterminate => DnssecStatus::Indeterminate,
    }
}

/// The status that a record's proof gives.
pub fn proof_to_dnssec_status(p: DnssecProof) -> (r: DnssecStatus)
    ensures
        r == proof_status(p),
{
    match p {
        DnssecProof::Secure => DnssecStatus::Secure,
        DnssecProof::Insecure => DnssecStatus::Insecure,
        DnssecProof::Bogus => DnssecStatus::Bogus,
        DnssecProof::Indeterminate => DnssecStatus::Indeterminate,
    }
}

/// The status of a set of records with these proofs: the least secure of
/// them, or none for no records.
pub open spec fn combined_status(ps: Seq<DnssecProof>) -> Option<DnssecStatus>
    decreases ps.len(),
{
    if ps.len() == 0 {
        None
    } else {
        match combined_status(ps.drop_last()) {
            Some(s) => Some(least_secure_of(s, proof_status(ps.last()))),
            None => Some(proof_status(ps.last())),
        }
    }
}

/// Who a TLSA record says the certificate belongs to.
#[derive(Clone, Copy, Debug, PartialEq, Eq, Structural)]
pub enum TlsaUsage {
    DaneTa,
    DaneEe,
    Other,
}

/// Which part of a certificate a TLSA record covers.
#[derive(Clone, Copy, Debug, PartialEq, Eq, Structural)]
pub enum TlsaSelector {
    Full,
    Spki,
    Other,
}

/// How a TLSA record's data is to be compared, as published.
#[derive(Clone, Copy, Debug, PartialEq, Eq, Structural)]
pub enum TlsaMatchingType {
    Raw,
    Sha256,
    Sha512,
    Other,
}

/// A TLSA record of a DNS answer, with its proof.
pub struct TlsaRecord {
    pub proof: DnssecProof,
    pub usage: TlsaUsage,
    pub selector: TlsaSelector,
    pub matching: TlsaMatchingType,
    pub data: Vec<u8>,
}

/// The TLSA records kept for a host, and whether any names the end entity
/// or a trust anchor.
pub struct Tlsa {
    pub entries: Vec<TlsaEntry>,
    pub has_end_entities: bool,
    pub has_intermediates: bool,
}

/// What a TLSA lookup found.
pub enum TlsaResult {
    Secure(Tlsa),
    Bogus,
    Missing,
}

/// The entry a record gives: none for a record without a secure proof, or
/// with a usage, selector or matching type that DANE for SMTP does not use;
/// else whether it names the end entity, whether it covers the public key,
/// its matching and its data.
pub open spec fn record_entry(r: TlsaRecord) -> Option<(bool, bool, TlsaMatching, Seq<u8>)> {
    if r.proof != DnssecProof::Secure || r.usage == TlsaUsage::Other || r.selector == TlsaSelector::Other
        || r.matching == TlsaMatchingType::Other {
        None
    } else {
        Some(
            (
                r.usage == TlsaUsage::DaneEe,
                r.selector == TlsaSelector::Spki,
                match r.matching {
                    TlsaMatchingType::Raw => TlsaMatching::Full,
                    TlsaMatchingType::Sha256 => TlsaMatching::Sha256,
                    _ => TlsaMatching::Sha512,
                },
                r.data@,
            ),
        )
    }
}

/// The entries that records give, in order.
pub open spec fn record_entries(rs: Seq<TlsaRecord>) -> Seq<(bool, bool, TlsaMatching, Seq<u8>)>
    decreases rs.len(),
{
    if rs.len() == 0 {
        Seq::empty()
    } else {
        match record_entry(rs.last()) {
            Some(e) => record_entries(rs.drop_last()).push(e),
            None => record_entries(rs.drop_last()),
        }
    }
}

/// The view of an entry.
pub open spec fn entry_view(e: TlsaEntry) -> (bool, bool, TlsaMatching, Seq<u8>) {
    (e.is_end_entity, e.is_spki, e.matching, e.data@)
}

/// The proofs of records.
pub open spec fn record_proofs(rs: Seq<TlsaRecord>) -> Seq<DnssecProof> {
    rs.map_values(|r: TlsaRecord| r.proof)
}

fn copy_bytes(v: &Vec<u8>) -> (r: Vec<u8>)
    ensures
        r@ == v@,
{
    let mut out: Vec<u8> = Vec::new();
    let mut i: usize = 0;
    while i < v.len()
        invariant
            i <= v@.len(),
            out@ == v@.take(i as int),
        decreases v.len() - i,
    {
        out.push(v[i]);
        assert(v@.take(i + 1) =~= v@.take(i as int).push(v@[i as int]));
        i = i + 1;
    }
    assert(v@.take(v@.len() as int) =~= v@);
    out
}

/// Whether some entry names the end entity (`end_entity`) or a trust
/// anchor (not `end_entity`).
pub open spec fn has_entry_of(es: Seq<(bool, bool, TlsaMatching, Seq<u8>)>, end_entity: bool) -> bool {
    exists|j: int| 0 <= j < es.len() && (#[trigger] es[j]).0 == end_entity
}

proof fn lemma_has_entry_push(
    es: Seq<(bool, bool, TlsaMatching, Seq<u8>)>,
    e: (bool, bool, TlsaMatching, Seq<u8>),
    end_entity: bool,
)
    ensures
        has_entry_of(es.push(e), end_entity) == (has_entry_of(es, end_entity) || e.0 == end_entity),
{
    let n = es.push(e);
    if has_entry_of(n, end_entity) {
        let j = choose|j: int| 0 <= j < n.len() && (#[trigger] n[j]).0 == end_entity;
        if j < es.len() {
            assert(es[j] == n[j]);
        }
    }
    if has_entry_of(es, end_entity) {
        let j = choose|j: int| 0 <= j < es.len() && (#[trigger] es[j]).0 == end_entity;
        assert(es[j] == n[j]);
    }
    if e.0 == end_entity {
        assert(n[es.len() as int] == e);
    }
}

/// What a TLSA lookup concludes from the records of its answer: bogus
/// where their least secure proof is bogus; the entries they give (see
/// [`record_entry`]) where it is secure; else nothing found.
pub fn tlsa_from_records(records: &Vec<TlsaRecord>) -> (r: TlsaResult)
    ensures
        match combined_status(record_proofs(records@)) {
            Some(DnssecStatus::Bogus) => r is Bogus,
            Some(DnssecStatus::Secure) => match r {
                TlsaResult::Secure(t) => {
                    &&& t.entries@.map_values(|e: TlsaEntry| entry_view(e)) == record_entries(records@)
                    &&& t.has_end_entities == has_entry_of(record_entries(records@), true)
                    &&& t.has_intermediates == has_entry_of(record_entries(records@), false)
                },
                _ => false,
            },
            _ => r is Missing,
        },
{
    let mut entries: Vec<TlsaEntry> = Vec::new();
    let mut has_end_entities = false;
    let mut has_intermediates = false;
    let mut status: Option<DnssecStatus> = None;
    let mut i: usize = 0;
    while i < records.len()
        invariant
            i <= records@.len(),
            status == combined_status(record_proofs(records@.take(i as int))),
            entries@.map_values(|e: TlsaEntry| entry_view(e)) == record_entries(records@.take(i as int)),
            has_end_entities == has_entry_of(record_entries(records@.take(i as int)), true),
            has_intermediates == has_entry_of(record_entries(records@.take(i as int)), false),
        decreases records.len() - i,
    {
        let rec = &records[i];
        let ghost prev = records@.take(i as int);
        let ghost next = records@.take(i + 1);
        proof {
            assert(next.drop_last() =~= prev);
            assert(record_proofs(next).drop_last() =~= record_proofs(prev));
            assert(record_proofs(next).last() == rec.proof);
        }
        let p = proof_to_dnssec_status(rec.proof);
        status = match status {
            Some(s) => Some(least_secure(s, p)),
            None => Some(p),
        };
        let secure = match rec.proof {
            DnssecProof::Secure => true,
            _ => false,
        };
        let usage_ok = match rec.usage {
            TlsaUsage::Other => false,
            _ => true,
        };
        let selector_ok = match rec.selector {
            TlsaSelector::Other => false,
            _ => true,
        };
        let matching_ok = match rec.matching {
            TlsaMatchingType::Other => false,
            _ => true,
        };
        let ghost es_prev = record_entries(prev);
        if secure && usage_ok && selector_ok && matching_ok {
            let is_end_entity = match rec.usage {
                TlsaUsage::DaneEe => true,
                _ => false,
            };
            let is_spki = match rec.selector {
                TlsaSelector::Spki => true,
                _ => false,
            };
            let matching = match rec.matching {
                TlsaMatchingType::Raw => TlsaMatching::Full,
                TlsaMatchingType::Sha256 => TlsaMatching::Sha256,
                _ => TlsaMatching::Sha512,
            };
            if is_end_entity {
                has_end_entities = true;
            } else {
                has_intermediates = true;
            }
            let ghost before = entries@;
            let entry = TlsaEntry { is_end_entity, is_spki, matching, data: copy_bytes(&rec.data) };
            entries.push(entry);
            proof {
                let e = record_entry(*rec)->Some_0;
                assert(record_entries(next) == es_prev.push(e));
                assert(entries@.map_values(|e: TlsaEntry| entry_view(e)) =~= before.map_values(
                    |e: TlsaEntry| entry_view(e),
                ).push(e));
                lemma_has_entry_push(es_prev, e, true);
                lemma_has_entry_push(es_prev, e, false);
            }
        } else {
            proof {
                assert(record_entry(*rec) is None);
                assert(record_entries(next) == es_prev);
            }
        }
        i = i + 1;
    }
    proof {
        assert(records@.take(records@.len() as int) =~= records@);
    }
    match status {
        Some(DnssecStatus::Bogus) => TlsaResult::Bogus,
        Some(DnssecStatus::Secure) => TlsaResult::Secure(Tlsa { entries, has_end_entities, has_intermediates }),
        _ => TlsaResult::Missing,
    }
}

/// The part of a certificate that a record is compared with: its public
/// key for a record that covers the key, else the whole certificate.
pub open spec fn selected_part(r: TlsaEntry, spki: Seq<u8>, raw: Seq<u8>) -> Seq<u8> {
    if r.is_spki {
        spki
    } else {
        raw
    }
}

/// Whether a record matches a certificate with public key `spki` and DER
/// form `raw`: the selected part itself, or its SHA-256 or SHA-512 digest,
/// equals the record's data.
pub open spec fn record_matches_spec(r: TlsaEntry, spki: Seq<u8>, raw: Seq<u8>) -> bool {
    let sel = selected_part(r, spki, raw);
    match r.matching {
        TlsaMatching::Full => sel == r.data@,
        TlsaMatching::Sha256 => sha256_digest(sel) == r.data@,
        TlsaMatching::Sha512 => sha512_digest(sel) == r.data@,
    }
}

fn bytes_eq(a: &[u8], b: &[u8]) -> (r: bool)
    ensures
        r == (a@ == b@),
{
    if a.len() != b.len() {
        return false;
    }
    let mut i: usize = 0;
    while i < a.len()
        invariant
            a@.len() == b@.len(),
            i <= a@.len(),
            forall|j: int| 0 <= j < i ==> a@[j] == b@[j],
        decreases a.len() - i,
    {
        if a[i] != b[i] {
            return false;
        }
        i = i + 1;
    }
    assert(a@ =~= b@);
    true
}

/// Whether a record matches a certificate (see [`record_matches_spec`]).
pub fn record_matches(record: &TlsaEntry, spki: &[u8], raw: &[u8]) -> (r: bool)
    ensures
        r == record_matches_spec(*record, spki@, raw@),
{
    let selected = if record.is_spki {
        spki
    } else {
        raw
    };
    match record.matching {
        TlsaMatching::Full => bytes_eq(selected, record.data.as_slice()),
        TlsaMatching::Sha256 => {
            let d = sha256(selected);
            bytes_eq(d.as_slice(), record.data.as_slice())
        },
        TlsaMatching::Sha512 => {
            let d = sha512(selected);
            bytes_eq(d.as_slice(), record.data.as_slice())
        },
    }
}

/// Whether the host's own certificate, with public key `spki` and DER form
/// `raw`, matches one of the end-entity records, where there are any.
pub fn verify_end_entity(tlsa: &Tlsa, spki: &[u8], raw: &[u8]) -> (r: bool)
    ensures
        r == (tlsa.has_end_entities && exists|i: int|
            0 <= i < tlsa.entries@.len() && (#[trigger] tlsa.entries@[i]).is_end_entity
                && record_matches_spec(tlsa.entries@[i], spki@, raw@)),
{
    if !tlsa.has_end_entities {
        return false;
    }
    let mut i: usize = 0;
    while i < tlsa.entries.len()
        invariant
            tlsa.has_end_entities,
            i <= tlsa.entries@.len(),
            forall|j: int|
                0 <= j < i ==> !((#[trigger] tlsa.entries@[j]).is_end_entity && record_matches_spec(
                    tlsa.entries@[j],
                    spki@,
                    raw@,
                )),
        decreases tlsa.entries.len() - i,
    {
        let rec = &tlsa.entries[i];
        if rec.is_end_entity && record_matches(rec, spki, raw) {
            return true;
        }
        i = i + 1;
    }
    false
}

/// The subject and issuer names of a certificate, in DER form.
pub struct CertNames {
    pub subject: Vec<u8>,
    pub issuer: Vec<u8>,
}

/// Whether the certificate at `depth` is the top of the chain: no other
/// certificate of the chain is its issuer.
pub fn is_chain_top(certs: &Vec<CertNames>, depth: usize) -> (r: bool)
    requires
        depth < certs@.len(),
    ensures
        r == !exists|o: int|
            0 <= o < certs@.len() && o != depth && (#[trigger] certs@[o]).subject@ == certs@[depth as int].issuer@,
{
    let issuer = certs[depth].issuer.as_slice();
    let mut i: usize = 0;
    while i < certs.len()
        invariant
            depth < certs@.len(),
            issuer@ == certs@[depth as int].issuer@,
            i <= certs@.len(),
            forall|o: int| 0 <= o < i && o != depth ==> (#[trigger] certs@[o]).subject@ != issuer@,
        decreases certs.len() - i,
    {
        if i != depth && bytes_eq(certs[i].subject.as_slice(), issuer) {
            assert(certs@[i as int].subject@ == certs@[depth as int].issuer@);
            return false;
        }
        i = i + 1;
    }
    true
}

/// Whether an outcome is a DANE failure of a host with a reason, temporary
/// or permanent.
pub open spec fn is_dane_failure(
    r: Result<(), DeliveryStatus>,
    temporary: bool,
    hostname: Seq<char>,
    reason: Seq<char>,
) -> bool {
    match r {
        Err(Status::TemporaryFailure(e)) => temporary && e.entity@ == hostname && e.details is DaneError
            && e.details->DaneError_0@ == reason,
        Err(Status::PermanentFailure(e)) => !temporary && e.entity@ == hostname && e.details is DaneError
            && e.details->DaneError_0@ == reason,
        _ => false,
    }
}

/// The outcome of authenticating a host by DANE: a temporary failure when
/// it presented no certificate, or one that could not be parsed; success
/// when its certificate or chain matched; else a permanent failure.
pub fn dane_outcome(
    hostname: &str,
    certificate_count: usize,
    all_parsed: bool,
    end_entity_match: bool,
    trust_anchor_match: bool,
) -> (r: Result<(), DeliveryStatus>)
    ensures
        certificate_count == 0 ==> is_dane_failure(r, true, hostname@, "No certificates were provided by host"@),
        certificate_count > 0 && !all_parsed ==> is_dane_failure(r, true, hostname@, "Failed to parse X.509 certificate"@),
        certificate_count > 0 && all_parsed && (end_entity_match || trust_anchor_match) ==> r is Ok,
        certificate_count > 0 && all_parsed && !end_entity_match && !trust_anchor_match ==> is_dane_failure(
            r,
            false,
            hostname@,
            "No matching certificates found in TLSA records"@,
        ),
{
    if certificate_count == 0 {
        Err(
            Status::TemporaryFailure(
                ErrorDetails {
                    entity: String::from_str(hostname),
                    details: Error::DaneError(String::from_str("No certificates were provided by host")),
                },
            ),
        )
    } else if !all_parsed {
        Err(
            Status::TemporaryFailure(
                ErrorDetails {
                    entity: String::from_str(hostname),
                    details: Error::DaneError(String::from_str("Failed to parse X.509 certificate")),
                },
            ),
        )
    } else if end_entity_match || trust_anchor_match {
        Ok(())
    } else {
        Err(
            Status::PermanentFailure(
                ErrorDetails {
                    entity: String::from_str(hostname),
                    details: Error::DaneError(String::from_str("No matching certificates found in TLSA records")),
                },
            ),
        )
    }
}


/// An MX record of a DNS answer: preference, exchange host and proof.
pub struct MxRecord {
    pub preference: u16,
    pub exchange: String,
    pub proof: DnssecProof,
}

/// The exchange hosts of one preference, in the order of the answer.
pub struct Mx {
    pub preference: u16,
    pub exchanges: Vec<String>,
}

/// MX hosts grouped by preference, with the security of the answer.
pub struct MxRecordSet {
    pub mx: Vec<Mx>,
    pub status: DnssecStatus,
}

/// The exchange hosts of the records with a preference, in order, in
/// lower case (ASCII letters lowered, as DNS names compare).
pub open spec fn exchanges_with(rs: Seq<MxRecord>, p: u16) -> Seq<Seq<char>>
    decreases rs.len(),
{
    if rs.len() == 0 {
        Seq::empty()
    } else if rs.last().preference == p {
        exchanges_with(rs.drop_last(), p).push(ascii_lowercase(rs.last().exchange@))
    } else {
        exchanges_with(rs.drop_last(), p)
    }
}

/// The views of a list of texts.
pub open spec fn texts(v: Seq<String>) -> Seq<Seq<char>> {
    v.map_values(|s: String| s@)
}

/// Whether some record has a preference.
pub open spec fn has_pref(rs: Seq<MxRecord>, p: u16) -> bool {
    exists|k: int| 0 <= k < rs.len() && (#[trigger] rs[k]).preference == p
}

/// Whether some group has a preference.
pub open spec fn has_group(mx: Seq<Mx>, p: u16) -> bool {
    exists|a: int| 0 <= a < mx.len() && (#[trigger] mx[a]).preference == p
}

/// Whether groups come in increasing preference.
pub open spec fn mx_sorted(mx: Seq<Mx>) -> bool {
    forall|i: int, j: int| 0 <= i < j < mx.len() ==> (#[trigger] mx[i]).preference < (#[trigger] mx[j]).preference
}

/// Whether groups are those of the records: one group per preference that
/// occurs, in increasing preference, each with the exchanges of its
/// preference in order.
pub open spec fn mx_grouped(rs: Seq<MxRecord>, mx: Seq<Mx>) -> bool {
    &&& mx_sorted(mx)
    &&& forall|i: int| 0 <= i < mx.len() ==> texts((#[trigger] mx[i]).exchanges@) == exchanges_with(rs, mx[i].preference)
    &&& forall|i: int| 0 <= i < mx.len() ==> has_pref(rs, (#[trigger] mx[i]).preference)
    &&& forall|k: int| 0 <= k < rs.len() ==> has_group(mx, (#[trigger] rs[k]).preference)
}

/// The proofs of MX records.
pub open spec fn mx_proofs(rs: Seq<MxRecord>) -> Seq<DnssecProof> {
    rs.map_values(|r: MxRecord| r.proof)
}

proof fn lemma_exchanges_absent(rs: Seq<MxRecord>, p: u16)
    requires
        forall|k: int| 0 <= k < rs.len() ==> (#[trigger] rs[k]).preference != p,
    ensures
        exchanges_with(rs, p).len() == 0,
    decreases rs.len(),
{
    if rs.len() > 0 {
        assert(rs[rs.len() - 1].preference != p);
        lemma_exchanges_absent(rs.drop_last(), p);
    }
}

fn lower_name(s: &String) -> (r: String)
    ensures
        r@ == ascii_lowercase(s@),
{
    let mut out = String::new();
    push_ascii_lower(&mut out, s.as_str());
    assert(out@ =~= ascii_lowercase(s@));
    out
}

proof fn lemma_has_pref_push(rs: Seq<MxRecord>, rec: MxRecord, p: u16)
    ensures
        has_pref(rs.push(rec), p) == (has_pref(rs, p) || rec.preference == p),
{
    let n = rs.push(rec);
    if has_pref(n, p) {
        let k = choose|k: int| 0 <= k < n.len() && (#[trigger] n[k]).preference == p;
        if k < rs.len() {
            assert(rs[k] == n[k]);
        }
    }
    if has_pref(rs, p) {
        let k = choose|k: int| 0 <= k < rs.len() && (#[trigger] rs[k]).preference == p;
        assert(rs[k] == n[k]);
    }
    if rec.preference == p {
        assert(n[rs.len() as int] == rec);
    }
}

proof fn lemma_has_group_update(mx: Seq<Mx>, g: int, grp: Mx, p: u16)
    requires
        0 <= g < mx.len(),
        grp.preference == mx[g].preference,
    ensures
        has_group(mx.update(g, grp), p) == has_group(mx, p),
{
    let n = mx.update(g, grp);
    if has_group(n, p) {
        let a = choose|a: int| 0 <= a < n.len() && (#[trigger] n[a]).preference == p;
        assert(mx[a].preference == n[a].preference);
    }
    if has_group(mx, p) {
        let a = choose|a: int| 0 <= a < mx.len() && (#[trigger] mx[a]).preference == p;
        assert(mx[a].preference == n[a].preference);
    }
}

proof fn lemma_has_group_insert(mx: Seq<Mx>, g: int, grp: Mx, p: u16)
    requires
        0 <= g <= mx.len(),
    ensures
        has_group(mx.insert(g, grp), p) == (has_group(mx, p) || grp.preference == p),
{
    let n = mx.insert(g, grp);
    if has_group(n, p) {
        let a = choose|a: int| 0 <= a < n.len() && (#[trigger] n[a]).preference == p;
        if a < g {
            assert(mx[a] == n[a]);
        } else if a > g {
            assert(mx[a - 1] == n[a]);
        }
    }
    if has_group(mx, p) {
        let a = choose|a: int| 0 <= a < mx.len() && (#[trigger] mx[a]).preference == p;
        if a < g {
            assert(mx[a] == n[a]);
        } else {
            assert(mx[a] == n[a + 1]);
        }
    }
    if grp.preference == p {
        assert(n[g] == grp);
    }
}

proof fn lemma_grouped_extend(prev: Seq<MxRecord>, old_mx: Seq<Mx>, g: int, rec: MxRecord, grp: Mx)
    requires
        mx_grouped(prev, old_mx),
        0 <= g < old_mx.len(),
        old_mx[g].preference == rec.preference,
        grp.preference == rec.preference,
        texts(grp.exchanges@) == texts(old_mx[g].exchanges@).push(ascii_lowercase(rec.exchange@)),
    ensures
        mx_grouped(prev.push(rec), old_mx.update(g, grp)),
{
    let next = prev.push(rec);
    let mx = old_mx.update(g, grp);
    assert(next.drop_last() =~= prev);
    assert forall|a: int| 0 <= a < mx.len() implies texts((#[trigger] mx[a]).exchanges@)
        == exchanges_with(next, mx[a].preference) by {
        if a != g {
            assert(mx[a] == old_mx[a]);
            if a < g {
                assert(old_mx[a].preference < old_mx[g].preference);
            } else {
                assert(old_mx[g].preference < old_mx[a].preference);
            }
        }
    }
    assert forall|a: int| 0 <= a < mx.len() implies has_pref(next, (#[trigger] mx[a]).preference) by {
        assert(mx[a].preference == old_mx[a].preference);
        assert(has_pref(prev, old_mx[a].preference));
        lemma_has_pref_push(prev, rec, mx[a].preference);
    }
    assert forall|k: int| 0 <= k < next.len() implies has_group(mx, (#[trigger] next[k]).preference) by {
        lemma_has_group_update(old_mx, g, grp, next[k].preference);
        if k < prev.len() {
            assert(next[k] == prev[k]);
        } else {
            assert(mx[g].preference == rec.preference);
        }
    }
    assert forall|a: int, b: int| 0 <= a < b < mx.len() implies (#[trigger] mx[a]).preference
        < (#[trigger] mx[b]).preference by {
        assert(old_mx[a].preference < old_mx[b].preference);
    }
}

proof fn lemma_grouped_insert_order(old_mx: Seq<Mx>, g: int, grp: Mx)
    requires
        0 <= g <= old_mx.len(),
        mx_sorted(old_mx),
        forall|j: int| 0 <= j < g ==> (#[trigger] old_mx[j]).preference < grp.preference,
        g < old_mx.len() ==> old_mx[g].preference > grp.preference,
    ensures
        mx_sorted(old_mx.insert(g, grp)),
{
    let mx = old_mx.insert(g, grp);
    assert forall|a: int, b: int| 0 <= a < b < mx.len() implies (#[trigger] mx[a]).preference
        < (#[trigger] mx[b]).preference by {
        if b < g {
            assert(mx[a] == old_mx[a]);
            assert(mx[b] == old_mx[b]);
        } else if b == g {
            assert(mx[a] == old_mx[a]);
        } else {
            assert(mx[b] == old_mx[b - 1]);
            if b - 1 > g {
                assert(old_mx[g].preference < old_mx[b - 1].preference);
            }
            if a < g {
                assert(mx[a] == old_mx[a]);
            } else if a > g {
                assert(mx[a] == old_mx[a - 1]);
                assert(old_mx[a - 1].preference < old_mx[b - 1].preference);
            }
        }
    }
}

proof fn lemma_grouped_insert(prev: Seq<MxRecord>, old_mx: Seq<Mx>, g: int, rec: MxRecord, grp: Mx)
    requires
        mx_grouped(prev, old_mx),
        0 <= g <= old_mx.len(),
        forall|j: int| 0 <= j < g ==> (#[trigger] old_mx[j]).preference < rec.preference,
        g < old_mx.len() ==> old_mx[g].preference > rec.preference,
        grp.preference == rec.preference,
        texts(grp.exchanges@) == seq![ascii_lowercase(rec.exchange@)],
    ensures
        mx_grouped(prev.push(rec), old_mx.insert(g, grp)),
{
    let next = prev.push(rec);
    let mx = old_mx.insert(g, grp);
    let pref = rec.preference;
    assert(next.drop_last() =~= prev);
    assert forall|k: int| 0 <= k < prev.len() implies (#[trigger] prev[k]).preference != pref by {
        assert(has_group(old_mx, prev[k].preference));
        let a = choose|a: int| 0 <= a < old_mx.len() && (#[trigger] old_mx[a]).preference == prev[k].preference;
        if a > g {
            assert(old_mx[g].preference < old_mx[a].preference);
        }
    }
    lemma_exchanges_absent(prev, pref);
    assert(exchanges_with(next, pref) =~= seq![ascii_lowercase(rec.exchange@)]);
    lemma_grouped_insert_order(old_mx, g, grp);
    assert forall|a: int| 0 <= a < mx.len() implies texts((#[trigger] mx[a]).exchanges@)
        == exchanges_with(next, mx[a].preference) by {
        if a < g {
            assert(mx[a] == old_mx[a]);
        } else if a > g {
            assert(mx[a] == old_mx[a - 1]);
            if a - 1 > g {
                assert(old_mx[g].preference < old_mx[a - 1].preference);
            }
        }
    }
    assert forall|a: int| 0 <= a < mx.len() implies has_pref(next, (#[trigger] mx[a]).preference) by {
        lemma_has_pref_push(prev, rec, mx[a].preference);
        if a < g {
            assert(mx[a] == old_mx[a]);
        } else if a > g {
            assert(mx[a] == old_mx[a - 1]);
        }
    }
    assert forall|k: int| 0 <= k < next.len() implies has_group(mx, (#[trigger] next[k]).preference) by {
        lemma_has_group_insert(old_mx, g, grp, next[k].preference);
        if k < prev.len() {
            assert(next[k] == prev[k]);
        }
    }
}

fn add_mx_record(mx: &mut Vec<Mx>, Ghost(prev): Ghost<Seq<MxRecord>>, rec: &MxRecord)
    requires
        mx_grouped(prev, old(mx)@),
    ensures
        mx_grouped(prev.push(*rec), final(mx)@),
{
    let pref = rec.preference;
    let mut g: usize = 0;
    while g < mx.len() && mx[g].preference < pref
        invariant
            g <= mx@.len(),
            forall|j: int| 0 <= j < g ==> (#[trigger] mx@[j]).preference < pref,
        decreases mx.len() - g,
    {
        g = g + 1;
    }
    let ghost old_mx = mx@;
    if g < mx.len() && mx[g].preference == pref {
        let mut grp = mx.remove(g);
        let ghost before_ex = grp.exchanges@;
        grp.exchanges.push(lower_name(&rec.exchange));
        proof {
            assert(texts(grp.exchanges@) =~= texts(before_ex).push(ascii_lowercase(rec.exchange@)));
            lemma_grouped_extend(prev, old_mx, g as int, *rec, grp);
        }
        mx.insert(g, grp);
        assert(mx@ =~= old_mx.update(g as int, grp));
    } else {
        let mut exchanges: Vec<String> = Vec::new();
        exchanges.push(lower_name(&rec.exchange));
        let grp = Mx { preference: pref, exchanges };
        proof {
            assert(texts(grp.exchanges@) =~= seq![ascii_lowercase(rec.exchange@)]);
            lemma_grouped_insert(prev, old_mx, g as int, *rec, grp);
        }
        mx.insert(g, grp);
    }
}

/// Groups the records of an MX answer by preference, in increasing
/// preference, and sums up the security of their proofs (indeterminate
/// for an empty answer).
pub fn group_mx(records: &Vec<MxRecord>) -> (r: MxRecordSet)
    ensures
        mx_grouped(records@, r.mx@),
        r.status == match combined_status(mx_proofs(records@)) {
            Some(s) => s,
            None => DnssecStatus::Indeterminate,
        },
{
    let mut mx: Vec<Mx> = Vec::new();
    let mut status: Option<DnssecStatus> = None;
    let mut i: usize = 0;
    while i < records.len()
        invariant
            i <= records@.len(),
            status == combined_status(mx_proofs(records@.take(i as int))),
            mx_grouped(records@.take(i as int), mx@),
        decreases records.len() - i,
    {
        let rec = &records[i];
        let ghost prev = records@.take(i as int);
        let ghost next = records@.take(i + 1);
        proof {
            assert(next.drop_last() =~= prev);
            assert(next.last() == *rec);
            assert(mx_proofs(next).drop_last() =~= mx_proofs(prev));
            assert(forall|k: int| 0 <= k < prev.len() ==> prev[k] == #[trigger] next[k]);
        }
        let p = proof_to_dnssec_status(rec.proof);
        status = match status {
            Some(s) => Some(least_secure(s, p)),
            None => Some(p),
        };
        proof {
            assert(next =~= prev.push(*rec));
        }
        add_mx_record(&mut mx, Ghost(prev), rec);
        i = i + 1;
    }
    proof {
        assert(records@.take(records@.len() as int) =~= records@);
    }
    let status = match status {
        Some(s) => s,
        None => DnssecStatus::Indeterminate,
    };
    MxRecordSet { mx, status }
}


/// A record of the authority section of a negative answer: whether it is
/// an NSEC or NSEC3 record, and its proof.
pub struct AuthorityRecord {
    pub is_nsec: bool,
    pub proof: DnssecProof,
}

/// The proofs of the NSEC and NSEC3 records of an authority section.
pub open spec fn nsec_proofs(rs: Seq<AuthorityRecord>) -> Seq<DnssecProof>
    decreases rs.len(),
{
    if rs.len() == 0 {
        Seq::empty()
    } else if rs.last().is_nsec {
        nsec_proofs(rs.drop_last()).push(rs.last().proof)
    } else {
        nsec_proofs(rs.drop_last())
    }
}

/// How secure a denial of existence is: the least secure proof of its
/// NSEC and NSEC3 records, or indeterminate when it has none.
pub fn denial_dnssec_status(authorities: &Vec<AuthorityRecord>) -> (r: DnssecStatus)
    ensures
        r == match combined_status(nsec_proofs(authorities@)) {
            Some(s) => s,
            None => DnssecStatus::Indeterminate,
        },
{
    let mut status: Option<DnssecStatus> = None;
    let mut i: usize = 0;
    while i < authorities.len()
        invariant
            i <= authorities@.len(),
            status == combined_status(nsec_proofs(authorities@.take(i as int))),
        decreases authorities.len() - i,
    {
        let rec = &authorities[i];
        let ghost prev = authorities@.take(i as int);
        proof {
            assert(authorities@.take(i + 1).drop_last() =~= prev);
        }
        if rec.is_nsec {
            let p = proof_to_dnssec_status(rec.proof);
            status = match status {
                Some(s) => Some(least_secure(s, p)),
                None => Some(p),
            };
            proof {
                let n = nsec_proofs(authorities@.take(i + 1));
                assert(n == nsec_proofs(prev).push(rec.proof));
                assert(n.drop_last() =~= nsec_proofs(prev));
            }
        }
        i = i + 1;
    }
    proof {
        assert(authorities@.take(authorities@.len() as int) =~= authorities@);
    }
    match status {
        Some(s) => s,
        None => DnssecStatus::Indeterminate,
    }
}

} // verus!
