//! Laws of the extraction model: what always holds of classification,
//! validity and the expiration countdown.

use vstd::prelude::*;
use vstd::arithmetic::div_mod::{
    lemma_div_is_ordered, lemma_div_plus_one, lemma_div_pos_is_pos,
};
use crate::model::{
    CertFacets, ChainOutcome, PairData, SanDatum, apply_ca, apply_cert, apply_leaf,
    cert_facets_of, cert_oids, days_until, dns_names_of, expiration_text, extract_model,
    first_unresolved, fold_chain, initial_intermediate, initial_pair, initial_server, step,
    valid_at,
};

verus! {

/// A chain of exactly one leaf and one CA certificate, each of which
/// decodes and whose identifiers all resolve, always extracts to a summary
/// whose server record is populated from the leaf and whose intermediate
/// record is populated from the CA, and never to an error.
pub proof fn lemma_one_leaf_one_ca(chain: Seq<Seq<u8>>, now: int, a: CertFacets, b: CertFacets)
    requires
        chain.len() == 2,
        cert_facets_of(chain[0]) == Some(a),
        cert_facets_of(chain[1]) == Some(b),
        first_unresolved(cert_oids(a)) is None,
        first_unresolved(cert_oids(b)) is None,
        a.is_ca != b.is_ca,
    ensures
        extract_model(chain, now) == ChainOutcome::Done(
            PairData {
                server: apply_leaf(initial_server(now), if a.is_ca { b } else { a }, now),
                intermediate: apply_ca(initial_intermediate(now), if a.is_ca { a } else { b }, now),
            },
        ),
{
    let p0 = initial_pair(now);
    let p1 = apply_cert(p0, a, now);
    let p2 = apply_cert(p1, b, now);
    let rest = chain.drop_first();
    assert(rest[0] == chain[1]);
    assert(rest.drop_first() =~= Seq::<Seq<u8>>::empty());
    assert(step(p0, chain[0], now) == crate::model::StepOutcome::Stepped(p1));
    assert(fold_chain(p0, chain, now) == fold_chain(p1, rest, now));
    assert(step(p1, rest[0], now) == crate::model::StepOutcome::Stepped(p2));
    assert(fold_chain(p1, rest, now) == fold_chain(p2, rest.drop_first(), now));
    assert(fold_chain(p2, rest.drop_first(), now) == ChainOutcome::Done(p2));
    assert(extract_model(chain, now) == ChainOutcome::Done(p2));
    if a.is_ca {
        assert(p2 =~= PairData {
            server: apply_leaf(initial_server(now), b, now),
            intermediate: apply_ca(initial_intermediate(now), a, now),
        });
    } else {
        assert(p2 =~= PairData {
            server: apply_leaf(initial_server(now), a, now),
            intermediate: apply_ca(initial_intermediate(now), b, now),
        });
    }
}

/// Extraction is a function of the chain and the instant alone: two passes
/// over the same chain at the same instant that both produce a summary
/// produce field-for-field the same summary.
pub proof fn lemma_extract_deterministic(
    chain: Seq<Seq<u8>>,
    now: int,
    p1: PairData,
    p2: PairData,
)
    requires
        extract_model(chain, now) == ChainOutcome::Done(p1),
        extract_model(chain, now) == ChainOutcome::Done(p2),
    ensures
        p1 == p2,
{
}

/// For a fixed validity window, the validity flag turns from true to false
/// only as the instant crosses the window's end; it never turns false
/// between the window's start and end, and once the window has been
/// entered and left it never turns true again.
pub proof fn lemma_validity_monotone(not_before: int, not_after: int, t1: int, t2: int)
    requires
        t1 <= t2,
    ensures
        valid_at(not_before, not_after, t1) && t2 <= not_after ==> valid_at(
            not_before,
            not_after,
            t2,
        ),
        valid_at(not_before, not_after, t1) && !valid_at(not_before, not_after, t2)
            ==> not_after < t2,
        not_before <= t1 && !valid_at(not_before, not_after, t1) ==> !valid_at(
            not_before,
            not_after,
            t2,
        ),
{
}

/// While the window's end is in the future the day count is non-negative;
/// it never grows as the instant advances, shrinks by at least one over a
/// whole day, and the text disappears once the end is no longer in the
/// future.
pub proof fn lemma_expiration_countdown(not_after: int, t1: int, t2: int)
    requires
        t1 <= t2,
    ensures
        t1 < not_after ==> days_until(not_after, t1) >= 0,
        t2 < not_after ==> days_until(not_after, t2) <= days_until(not_after, t1),
        t2 < not_after && t2 - t1 >= 86400 ==> days_until(not_after, t2) < days_until(
            not_after,
            t1,
        ),
        not_after <= t2 ==> expiration_text(not_after, t2) == Seq::<char>::empty(),
{
    if t1 < not_after {
        lemma_div_pos_is_pos(not_after - t1, 86400);
    }
    if t2 < not_after {
        lemma_div_is_ordered(not_after - t2, not_after - t1, 86400);
        if t2 - t1 >= 86400 {
            lemma_div_plus_one(not_after - t2, 86400);
            lemma_div_is_ordered(86400 + (not_after - t2), not_after - t1, 86400);
        }
    }
}

/// Extracting DNS names from a subject-alternative-name extension filters
/// out exactly the entries of other kinds and keeps the DNS names in
/// extension order.
pub proof fn lemma_dns_names_filter(san: Seq<SanDatum>)
    ensures
        dns_names_of(san) == san.filter(|g: SanDatum| g is Dns).map_values(
            |g: SanDatum|
                match g {
                    SanDatum::Dns(s) => s,
                    SanDatum::Other => Seq::<char>::empty(),
                },
        ),
    decreases san.len(),
{
    let pred = |g: SanDatum| g is Dns;
    let f = |g: SanDatum|
        match g {
            SanDatum::Dns(s) => s,
            SanDatum::Other => Seq::<char>::empty(),
        };
    reveal(Seq::filter);
    if san.len() == 0 {
        assert(san.filter(pred).map_values(f) =~= Seq::<Seq<char>>::empty());
        assert(dns_names_of(san) =~= Seq::<Seq<char>>::empty());
    } else {
        lemma_dns_names_filter(san.drop_last());
        assert(san.drop_last().filter(pred).map_values(f) == dns_names_of(san.drop_last()));
        match san.last() {
            SanDatum::Dns(s) => {
                assert(san.filter(pred) == san.drop_last().filter(pred).push(san.last()));
                assert(san.filter(pred).map_values(f) =~= san.drop_last().filter(
                    pred,
                ).map_values(f).push(s));
                assert(dns_names_of(san) =~= san.filter(pred).map_values(f));
            },
            SanDatum::Other => {
                assert(san.filter(pred) == san.drop_last().filter(pred));
                assert(dns_names_of(san) =~= san.filter(pred).map_values(f));
            },
        }
    }
}

} // verus!
