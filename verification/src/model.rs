//! The mathematical model of chain extraction: what each certificate of a
//! chain contributes to the two result records, and the outcome of one whole
//! extraction pass.

use vstd::prelude::*;
use crate::decode::{core_of, issuer_of, san_of, short_name_of, subject_of};
use crate::text::day_text;

verus! {

/// One attribute of a relative distinguished name: its type as a dotted
/// decimal object identifier, and its value.
pub ghost struct AttrData {
    pub oid: Seq<char>,
    pub value: Seq<char>,
}

/// One entry of a subject-alternative-name extension: a DNS name, or an
/// entry of any other kind (which extraction ignores).
pub ghost enum SanDatum {
    Dns(Seq<char>),
    Other,
}

/// The scalar facets of a decoded certificate: the CA flag of its
/// basic-constraints extension, its validity window as Unix timestamps, and
/// its signature-algorithm object identifier.
pub ghost struct CoreData {
    pub is_ca: bool,
    pub not_before: int,
    pub not_after: int,
    pub sig_oid: Seq<char>,
}

/// Everything extraction reads of one decoded certificate.  The issuer and
/// subject names are sequences of relative distinguished names, each of
/// which is a sequence of attributes.
pub ghost struct CertFacets {
    pub is_ca: bool,
    pub not_before: int,
    pub not_after: int,
    pub sig_oid: Seq<char>,
    pub issuer: Seq<Seq<AttrData>>,
    pub subject: Seq<Seq<AttrData>>,
    pub san: Seq<SanDatum>,
}

/// The leaf certificate's summary record.
#[verifier::ext_equal]
pub ghost struct ServerData {
    pub common_name: Seq<char>,
    pub signature_algorithm: Seq<char>,
    pub sans: Seq<Seq<char>>,
    pub country: Seq<char>,
    pub state: Seq<char>,
    pub locality: Seq<char>,
    pub organization: Seq<char>,
    pub not_after: int,
    pub not_before: int,
    pub issuer: Seq<char>,
    pub is_valid: bool,
    pub time_to_expiration: Seq<char>,
}

/// The CA certificate's summary record.
#[verifier::ext_equal]
pub ghost struct IntermediateData {
    pub common_name: Seq<char>,
    pub signature_algorithm: Seq<char>,
    pub country: Seq<char>,
    pub state: Seq<char>,
    pub locality: Seq<char>,
    pub organization: Seq<char>,
    pub not_after: int,
    pub not_before: int,
    pub issuer: Seq<char>,
    pub is_valid: bool,
    pub time_to_expiration: Seq<char>,
}

/// The pair of records one extraction pass produces.
#[verifier::ext_equal]
pub ghost struct PairData {
    pub server: ServerData,
    pub intermediate: IntermediateData,
}

/// A certificate is valid at `now` exactly when `now` lies within its
/// validity window, both ends included.
pub open spec fn valid_at(not_before: int, not_after: int, now: int) -> bool {
    not_before <= now && now <= not_after
}

/// Whole days until expiration; fractional days are truncated.
pub open spec fn days_until(not_after: int, now: int) -> int {
    (not_after - now) / 86400
}

/// The reported time to expiration: a whole-day count while `not_after` is
/// strictly in the future, empty otherwise.
pub open spec fn expiration_text(not_after: int, now: int) -> Seq<char> {
    if not_after > now {
        day_text(days_until(not_after, now))
    } else {
        Seq::empty()
    }
}

/// The first attribute of each non-empty relative distinguished name, in
/// name order; only these attributes are consulted.
pub open spec fn first_attrs(rdns: Seq<Seq<AttrData>>) -> Seq<AttrData>
    decreases rdns.len(),
{
    if rdns.len() == 0 {
        Seq::empty()
    } else {
        let rest = first_attrs(rdns.drop_last());
        if rdns.last().len() > 0 {
            rest.push(rdns.last()[0])
        } else {
            rest
        }
    }
}

/// The value of the last attribute whose type resolves to the short name
/// `short`, or `dflt` when no attribute does.
pub open spec fn name_field(attrs: Seq<AttrData>, short: Seq<char>, dflt: Seq<char>) -> Seq<char>
    decreases attrs.len(),
{
    if attrs.len() == 0 {
        dflt
    } else if short_name_of(attrs.last().oid) == Some(short) {
        attrs.last().value
    } else {
        name_field(attrs.drop_last(), short, dflt)
    }
}

/// The attribute-type object identifiers of a run of attributes.
pub open spec fn oids_of(attrs: Seq<AttrData>) -> Seq<Seq<char>> {
    attrs.map_values(|a: AttrData| a.oid)
}

/// The first object identifier of a run that the resolver does not know,
/// if any.
pub open spec fn first_unresolved(oids: Seq<Seq<char>>) -> Option<Seq<char>>
    decreases oids.len(),
{
    if oids.len() == 0 {
        None
    } else if short_name_of(oids[0]) is None {
        Some(oids[0])
    } else {
        first_unresolved(oids.drop_first())
    }
}

/// When a run's first `i` identifiers resolve and its `i`-th does not, the
/// `i`-th is the first unresolved one.
pub proof fn lemma_first_unresolved_at(oids: Seq<Seq<char>>, i: int)
    requires
        0 <= i < oids.len(),
        forall|k: int| 0 <= k < i ==> short_name_of(oids[k]) is Some,
        short_name_of(oids[i]) is None,
    ensures
        first_unresolved(oids) == Some(oids[i]),
    decreases i,
{
    if i > 0 {
        assert(forall|k: int|
            0 <= k < i - 1 ==> oids.drop_first()[k] == oids[k + 1]);
        lemma_first_unresolved_at(oids.drop_first(), i - 1);
    }
}

/// When every identifier of a run resolves, none is unresolved.
pub proof fn lemma_first_unresolved_none(oids: Seq<Seq<char>>)
    requires
        forall|k: int| 0 <= k < oids.len() ==> short_name_of(oids[k]) is Some,
    ensures
        first_unresolved(oids) is None,
    decreases oids.len(),
{
    if oids.len() > 0 {
        assert(forall|k: int|
            0 <= k < oids.len() - 1 ==> oids.drop_first()[k] == oids[k + 1]);
        lemma_first_unresolved_none(oids.drop_first());
    }
}

/// The first unresolved identifier of a concatenation comes from the front
/// run when it has one, else from the back run.
pub proof fn lemma_first_unresolved_concat(a: Seq<Seq<char>>, b: Seq<Seq<char>>)
    ensures
        first_unresolved(a) is Some ==> first_unresolved(a + b) == first_unresolved(a),
        first_unresolved(a) is None ==> first_unresolved(a + b) == first_unresolved(b),
    decreases a.len(),
{
    if a.len() == 0 {
        assert(a + b =~= b);
    } else {
        assert((a + b)[0] == a[0]);
        assert((a + b).drop_first() =~= a.drop_first() + b);
        lemma_first_unresolved_concat(a.drop_first(), b);
    }
}

/// Every object identifier one certificate asks the resolver about, in the
/// order they are consulted: the signature algorithm, then the issuer's
/// attribute types, then the subject's.
pub open spec fn cert_oids(c: CertFacets) -> Seq<Seq<char>> {
    seq![c.sig_oid] + oids_of(first_attrs(c.issuer)) + oids_of(first_attrs(c.subject))
}

/// The DNS names of a subject-alternative-name extension, in extension
/// order; entries of any other kind are dropped.
pub open spec fn dns_names_of(san: Seq<SanDatum>) -> Seq<Seq<char>>
    decreases san.len(),
{
    if san.len() == 0 {
        Seq::empty()
    } else {
        let rest = dns_names_of(san.drop_last());
        match san.last() {
            SanDatum::Dns(s) => rest.push(s),
            SanDatum::Other => rest,
        }
    }
}

/// The short name an object identifier resolves to; empty when unknown.
pub open spec fn resolved(oid: Seq<char>) -> Seq<char> {
    match short_name_of(oid) {
        Some(s) => s,
        None => Seq::empty(),
    }
}

/// What a leaf certificate writes into the server record.  Name fields keep
/// their previous value when the certificate's name lacks the attribute;
/// DNS subject-alternative names are appended to those already collected.
pub open spec fn apply_leaf(s: ServerData, c: CertFacets, now: int) -> ServerData {
    ServerData {
        is_valid: valid_at(c.not_before, c.not_after, now),
        not_before: c.not_before,
        not_after: c.not_after,
        signature_algorithm: resolved(c.sig_oid),
        time_to_expiration: expiration_text(c.not_after, now),
        sans: s.sans + dns_names_of(c.san),
        issuer: name_field(first_attrs(c.issuer), "CN"@, s.issuer),
        common_name: name_field(first_attrs(c.subject), "CN"@, s.common_name),
        country: name_field(first_attrs(c.subject), "C"@, s.country),
        state: name_field(first_attrs(c.subject), "ST"@, s.state),
        locality: name_field(first_attrs(c.subject), "L"@, s.locality),
        organization: name_field(first_attrs(c.subject), "O"@, s.organization),
    }
}

/// What a CA certificate writes into the intermediate record.
pub open spec fn apply_ca(s: IntermediateData, c: CertFacets, now: int) -> IntermediateData {
    IntermediateData {
        is_valid: valid_at(c.not_before, c.not_after, now),
        not_before: c.not_before,
        not_after: c.not_after,
        signature_algorithm: resolved(c.sig_oid),
        time_to_expiration: expiration_text(c.not_after, now),
        issuer: name_field(first_attrs(c.issuer), "CN"@, s.issuer),
        common_name: name_field(first_attrs(c.subject), "CN"@, s.common_name),
        country: name_field(first_attrs(c.subject), "C"@, s.country),
        state: name_field(first_attrs(c.subject), "ST"@, s.state),
        locality: name_field(first_attrs(c.subject), "L"@, s.locality),
        organization: name_field(first_attrs(c.subject), "O"@, s.organization),
    }
}

/// One certificate's contribution: a CA certificate overwrites the
/// intermediate record, any other certificate overwrites the server record.
pub open spec fn apply_cert(p: PairData, c: CertFacets, now: int) -> PairData {
    if c.is_ca {
        PairData { intermediate: apply_ca(p.intermediate, c, now), ..p }
    } else {
        PairData { server: apply_leaf(p.server, c, now), ..p }
    }
}

/// What extraction reads of one raw certificate, when every facet decodes.
pub open spec fn cert_facets_of(der: Seq<u8>) -> Option<CertFacets> {
    if core_of(der) is Some && issuer_of(der) is Some && subject_of(der) is Some && san_of(
        der,
    ) is Some {
        let core = core_of(der)->Some_0;
        Some(
            CertFacets {
                is_ca: core.is_ca,
                not_before: core.not_before,
                not_after: core.not_after,
                sig_oid: core.sig_oid,
                issuer: issuer_of(der)->Some_0,
                subject: subject_of(der)->Some_0,
                san: san_of(der)->Some_0,
            },
        )
    } else {
        None
    }
}

/// The outcome of visiting one certificate.
pub ghost enum StepOutcome {
    /// The raw bytes could not be decoded.
    NoDecode,
    /// An object identifier (carried here) could not be resolved.
    NoName(Seq<char>),
    /// The records after this certificate's fields were written.
    Stepped(PairData),
}

/// Visit one certificate: decode it, resolve every object identifier it
/// consults, and write its fields into the proper record.
pub open spec fn step(p: PairData, der: Seq<u8>, now: int) -> StepOutcome {
    match cert_facets_of(der) {
        None => StepOutcome::NoDecode,
        Some(c) => match first_unresolved(cert_oids(c)) {
            Some(oid) => StepOutcome::NoName(oid),
            None => StepOutcome::Stepped(apply_cert(p, c, now)),
        },
    }
}

/// The outcome of one whole extraction pass over a chain.
pub ghost enum ChainOutcome {
    /// Some certificate could not be decoded; the pass aborts.
    Undecodable,
    /// Some object identifier (carried here) could not be resolved; the
    /// pass aborts.
    Unresolvable(Seq<char>),
    /// Every certificate was decoded and classified.
    Done(PairData),
}

/// Fold the chain in presentation order over the two records.
pub open spec fn fold_chain(p: PairData, chain: Seq<Seq<u8>>, now: int) -> ChainOutcome
    decreases chain.len(),
{
    if chain.len() == 0 {
        ChainOutcome::Done(p)
    } else {
        match step(p, chain[0], now) {
            StepOutcome::NoDecode => ChainOutcome::Undecodable,
            StepOutcome::NoName(oid) => ChainOutcome::Unresolvable(oid),
            StepOutcome::Stepped(p2) => fold_chain(p2, chain.drop_first(), now),
        }
    }
}

/// The fresh server record: empty strings, not valid, and a validity window
/// collapsed onto `now`.
pub open spec fn initial_server(now: int) -> ServerData {
    ServerData {
        common_name: Seq::empty(),
        signature_algorithm: Seq::empty(),
        sans: Seq::empty(),
        country: Seq::empty(),
        state: Seq::empty(),
        locality: Seq::empty(),
        organization: Seq::empty(),
        not_after: now,
        not_before: now,
        issuer: Seq::empty(),
        is_valid: false,
        time_to_expiration: Seq::empty(),
    }
}

/// The fresh intermediate record.
pub open spec fn initial_intermediate(now: int) -> IntermediateData {
    IntermediateData {
        common_name: Seq::empty(),
        signature_algorithm: Seq::empty(),
        country: Seq::empty(),
        state: Seq::empty(),
        locality: Seq::empty(),
        organization: Seq::empty(),
        not_after: now,
        not_before: now,
        issuer: Seq::empty(),
        is_valid: false,
        time_to_expiration: Seq::empty(),
    }
}

/// Both fresh records.
pub open spec fn initial_pair(now: int) -> PairData {
    PairData { server: initial_server(now), intermediate: initial_intermediate(now) }
}

/// The model of one extraction pass over a non-empty chain.
pub open spec fn extract_model(chain: Seq<Seq<u8>>, now: int) -> ChainOutcome {
    fold_chain(initial_pair(now), chain, now)
}

} // verus!
