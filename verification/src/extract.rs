//! The chain classifier and field extractor: decode each certificate of a
//! chain, classify it as leaf or CA by its basic-constraints extension, and
//! write its fields into the server or the intermediate record.

use vstd::prelude::*;
use crate::decode::{self, NameAttr, SanName};
use crate::model::{
    PairData, StepOutcome, ChainOutcome, CertFacets, cert_facets_of, cert_oids, dns_names_of,
    extract_model, first_attrs, first_unresolved, fold_chain, initial_pair,
    lemma_first_unresolved_at, lemma_first_unresolved_concat, lemma_first_unresolved_none,
    name_field, oids_of, step,
};
use crate::records::{Cert, IntermediateCert, ServerCert};
use crate::validity::evaluate;

verus! {

/// Why one extraction pass failed.  Every failure aborts the whole pass:
/// no partial summary is ever produced.
#[derive(Debug, PartialEq, Eq)]
pub enum ExtractionError {
    /// The chain was empty.
    NoCertificatesFound,
    /// Some certificate could not be decoded; the detail carries the
    /// decoder's message.
    DecodeError(String),
    /// Some object identifier was not known to the resolver; the detail
    /// carries that identifier in dotted decimal.
    OidResolutionError(String),
}

fn is_name(s: &String, lit: &str) -> (b: bool)
    ensures
        b == (s@ == lit@),
{
    let other: String = lit.to_owned();
    *s == other
}

fn resolve_name(oid: &String) -> (r: Result<String, ExtractionError>)
    ensures
        r is Ok <==> decode::short_name_of(oid@) is Some,
        r matches Ok(s) ==> decode::short_name_of(oid@) == Some(s@),
        r matches Err(e) ==> e matches ExtractionError::OidResolutionError(d) && d@ == oid@,
{
    match decode::resolve_oid(oid) {
        Some(s) => Ok(s),
        None => Err(ExtractionError::OidResolutionError(oid.clone())),
    }
}

/// The first attribute of each non-empty relative distinguished name.
fn collect_first_attrs(rdns: &Vec<Vec<NameAttr>>) -> (r: Vec<NameAttr>)
    ensures
        r.deep_view() == first_attrs(rdns.deep_view()),
{
    let ghost dv = rdns.deep_view();
    let mut out: Vec<NameAttr> = Vec::new();
    proof {
        assert(out.deep_view() =~= first_attrs(dv.subrange(0, 0)));
    }
    let mut i: usize = 0;
    while i < rdns.len()
        invariant
            i <= rdns@.len(),
            dv == rdns.deep_view(),
            dv.len() == rdns@.len(),
            out.deep_view() == first_attrs(dv.subrange(0, i as int)),
        decreases rdns@.len() - i,
    {
        let ghost pre = dv.subrange(0, i as int);
        let ghost post = dv.subrange(0, i as int + 1);
        let ghost out_pre = out.deep_view();
        let rdn = &rdns[i];
        proof {
            assert(post.drop_last() =~= pre);
            assert(post.last() == dv[i as int]);
            assert(dv[i as int] == rdns@[i as int].deep_view());
            assert(dv[i as int].len() == rdn@.len());
        }
        if rdn.len() > 0 {
            let a = rdn[0].duplicate();
            proof {
                assert(a@ == rdn@[0].deep_view());
                assert(rdn@[0].deep_view() == dv[i as int][0]);
            }
            out.push(a);
            proof {
                assert(out.deep_view() =~= out_pre.push(dv[i as int][0]));
            }
        }
        proof {
            assert(out.deep_view() =~= first_attrs(post));
        }
        i += 1;
    }
    proof {
        assert(dv.subrange(0, dv.len() as int) =~= dv);
    }
    out
}

/// Walk a run of attributes, resolving each type; the value of the last
/// attribute resolving to "CN" becomes the issuer common name.
fn fold_issuer_cn(attrs: &Vec<NameAttr>, init: String) -> (r: Result<String, ExtractionError>)
    ensures
        r is Ok <==> first_unresolved(oids_of(attrs.deep_view())) is None,
        r matches Ok(s) ==> s@ == name_field(attrs.deep_view(), "CN"@, init@),
        r matches Err(e) ==> e matches ExtractionError::OidResolutionError(d)
            && first_unresolved(oids_of(attrs.deep_view())) == Some(d@),
{
    let ghost dv = attrs.deep_view();
    let ghost init_view = init@;
    let mut cur = init;
    let mut i: usize = 0;
    while i < attrs.len()
        invariant
            i <= attrs@.len(),
            dv == attrs.deep_view(),
            dv.len() == attrs@.len(),
            forall|k: int| 0 <= k < i ==> decode::short_name_of(dv[k].oid) is Some,
            cur@ == name_field(dv.subrange(0, i as int), "CN"@, init_view),
        decreases attrs@.len() - i,
    {
        let ghost pre = dv.subrange(0, i as int);
        let ghost post = dv.subrange(0, i as int + 1);
        let a = &attrs[i];
        proof {
            assert(post.drop_last() =~= pre);
            assert(post.last() == dv[i as int]);
            assert(dv[i as int] == attrs@[i as int].deep_view());
        }
        let short = match resolve_name(&a.oid) {
            Ok(s) => s,
            Err(e) => {
                proof {
                    assert forall|k: int| 0 <= k < i implies decode::short_name_of(
                        oids_of(dv)[k],
                    ) is Some by {
                        assert(oids_of(dv)[k] == dv[k].oid);
                    }
                    assert(oids_of(dv)[i as int] == dv[i as int].oid);
                    lemma_first_unresolved_at(oids_of(dv), i as int);
                }
                return Err(e);
            },
        };
        if is_name(&short, "CN") {
            cur = a.value.clone();
        }
        proof {
            assert(cur@ == name_field(post, "CN"@, init_view));
        }
        i += 1;
    }
    proof {
        assert(dv.subrange(0, dv.len() as int) =~= dv);
        assert forall|k: int| 0 <= k < oids_of(dv).len() implies decode::short_name_of(
            oids_of(dv)[k],
        ) is Some by {
            assert(oids_of(dv)[k] == dv[k].oid);
        }
        lemma_first_unresolved_none(oids_of(dv));
    }
    Ok(cur)
}

/// Walk a run of attributes, resolving each type, and map the short names
/// "CN", "C", "ST", "L" and "O" to the five subject fields; other
/// attribute types are ignored.
fn fold_subject(
    attrs: &Vec<NameAttr>,
    common_name: String,
    country: String,
    state_name: String,
    locality: String,
    organization: String,
) -> (r: Result<(String, String, String, String, String), ExtractionError>)
    ensures
        r is Ok <==> first_unresolved(oids_of(attrs.deep_view())) is None,
        r matches Ok(t) ==> t.0@ == name_field(attrs.deep_view(), "CN"@, common_name@)
            && t.1@ == name_field(attrs.deep_view(), "C"@, country@)
            && t.2@ == name_field(attrs.deep_view(), "ST"@, state_name@)
            && t.3@ == name_field(attrs.deep_view(), "L"@, locality@)
            && t.4@ == name_field(attrs.deep_view(), "O"@, organization@),
        r matches Err(e) ==> e matches ExtractionError::OidResolutionError(d)
            && first_unresolved(oids_of(attrs.deep_view())) == Some(d@),
{
    let ghost dv = attrs.deep_view();
    let ghost cn0 = common_name@;
    let ghost c0 = country@;
    let ghost st0 = state_name@;
    let ghost l0 = locality@;
    let ghost o0 = organization@;
    let mut cn = common_name;
    let mut co = country;
    let mut st = state_name;
    let mut lo = locality;
    let mut or_ = organization;
    let mut i: usize = 0;
    while i < attrs.len()
        invariant
            i <= attrs@.len(),
            dv == attrs.deep_view(),
            dv.len() == attrs@.len(),
            forall|k: int| 0 <= k < i ==> decode::short_name_of(dv[k].oid) is Some,
            cn@ == name_field(dv.subrange(0, i as int), "CN"@, cn0),
            co@ == name_field(dv.subrange(0, i as int), "C"@, c0),
            st@ == name_field(dv.subrange(0, i as int), "ST"@, st0),
            lo@ == name_field(dv.subrange(0, i as int), "L"@, l0),
            or_@ == name_field(dv.subrange(0, i as int), "O"@, o0),
        decreases attrs@.len() - i,
    {
        let ghost pre = dv.subrange(0, i as int);
        let ghost post = dv.subrange(0, i as int + 1);
        let a = &attrs[i];
        proof {
            assert(post.drop_last() =~= pre);
            assert(post.last() == dv[i as int]);
            assert(dv[i as int] == attrs@[i as int].deep_view());
        }
        let short = match resolve_name(&a.oid) {
            Ok(s) => s,
            Err(e) => {
                proof {
                    assert forall|k: int| 0 <= k < i implies decode::short_name_of(
                        oids_of(dv)[k],
                    ) is Some by {
                        assert(oids_of(dv)[k] == dv[k].oid);
                    }
                    assert(oids_of(dv)[i as int] == dv[i as int].oid);
                    lemma_first_unresolved_at(oids_of(dv), i as int);
                }
                return Err(e);
            },
        };
        let m_cn = is_name(&short, "CN");
        let m_c = is_name(&short, "C");
        let m_st = is_name(&short, "ST");
        let m_l = is_name(&short, "L");
        let m_o = is_name(&short, "O");
        if m_cn {
            cn = a.value.clone();
        }
        if m_c {
            co = a.value.clone();
        }
        if m_st {
            st = a.value.clone();
        }
        if m_l {
            lo = a.value.clone();
        }
        if m_o {
            or_ = a.value.clone();
        }
        proof {
            assert(cn@ == name_field(post, "CN"@, cn0));
            assert(co@ == name_field(post, "C"@, c0));
            assert(st@ == name_field(post, "ST"@, st0));
            assert(lo@ == name_field(post, "L"@, l0));
            assert(or_@ == name_field(post, "O"@, o0));
        }
        i += 1;
    }
    proof {
        assert(dv.subrange(0, dv.len() as int) =~= dv);
        assert forall|k: int| 0 <= k < oids_of(dv).len() implies decode::short_name_of(
            oids_of(dv)[k],
        ) is Some by {
            assert(oids_of(dv)[k] == dv[k].oid);
        }
        lemma_first_unresolved_none(oids_of(dv));
    }
    Ok((cn, co, st, lo, or_))
}

/// Append the DNS entries of a subject-alternative-name extension, in
/// extension order, to the names already collected.
fn append_dns(sans: &mut Vec<String>, san: &Vec<SanName>)
    ensures
        final(sans).deep_view() == old(sans).deep_view() + dns_names_of(san.deep_view()),
{
    let ghost dv = san.deep_view();
    let ghost base = old(sans).deep_view();
    let mut i: usize = 0;
    proof {
        assert(sans.deep_view() =~= base + dns_names_of(dv.subrange(0, 0)));
    }
    while i < san.len()
        invariant
            i <= san@.len(),
            dv == san.deep_view(),
            dv.len() == san@.len(),
            sans.deep_view() == base + dns_names_of(dv.subrange(0, i as int)),
        decreases san@.len() - i,
    {
        let ghost pre = dv.subrange(0, i as int);
        let ghost post = dv.subrange(0, i as int + 1);
        let ghost out_pre = sans.deep_view();
        proof {
            assert(post.drop_last() =~= pre);
            assert(post.last() == dv[i as int]);
            assert(dv[i as int] == san@[i as int].deep_view());
        }
        match &san[i] {
            SanName::Dns(d) => {
                sans.push(d.clone());
                proof {
                    assert(sans.deep_view() =~= out_pre.push(d@));
                    assert(sans.deep_view() =~= base + dns_names_of(post));
                }
            },
            SanName::Other => {
                proof {
                    assert(sans.deep_view() =~= base + dns_names_of(post));
                }
            },
        }
        i += 1;
    }
    proof {
        assert(dv.subrange(0, dv.len() as int) =~= dv);
    }
}

/// Visit one raw certificate: decode it, resolve what it consults, and
/// write its fields into the intermediate record when its CA flag is set,
/// else into the server record.  On an error the pass aborts and the
/// records carry no meaning.
fn process_cert(
    der: &Vec<u8>,
    now: i64,
    server: &mut ServerCert,
    intermediate: &mut IntermediateCert,
) -> (r: Result<(), ExtractionError>)
    ensures
        match step(
            PairData { server: old(server)@, intermediate: old(intermediate)@ },
            der@,
            now as int,
        ) {
            StepOutcome::NoDecode => r matches Err(e) && e is DecodeError,
            StepOutcome::NoName(oid) => r matches Err(e) && (e
                matches ExtractionError::OidResolutionError(d) && d@ == oid),
            StepOutcome::Stepped(p) => r is Ok && final(server)@ == p.server
                && final(intermediate)@ == p.intermediate,
        },
{
    let core = match decode::parse_core(der) {
        Ok(c) => c,
        Err(m) => {
            return Err(ExtractionError::DecodeError(m));
        },
    };
    let issuer_rdns = match decode::parse_issuer(der) {
        Ok(v) => v,
        Err(m) => {
            return Err(ExtractionError::DecodeError(m));
        },
    };
    let subject_rdns = match decode::parse_subject(der) {
        Ok(v) => v,
        Err(m) => {
            return Err(ExtractionError::DecodeError(m));
        },
    };
    let san = match decode::parse_san(der) {
        Ok(v) => v,
        Err(m) => {
            return Err(ExtractionError::DecodeError(m));
        },
    };
    let ghost facets = CertFacets {
        is_ca: core@.is_ca,
        not_before: core@.not_before,
        not_after: core@.not_after,
        sig_oid: core@.sig_oid,
        issuer: issuer_rdns.deep_view(),
        subject: subject_rdns.deep_view(),
        san: san.deep_view(),
    };
    proof {
        assert(cert_facets_of(der@) == Some(facets));
    }
    let ghost sig_run = seq![facets.sig_oid];
    let ghost issuer_run = oids_of(first_attrs(facets.issuer));
    let ghost subject_run = oids_of(first_attrs(facets.subject));
    proof {
        assert(cert_oids(facets) == sig_run + issuer_run + subject_run);
    }
    let sig_name = match resolve_name(&core.signature_oid) {
        Ok(s) => s,
        Err(e) => {
            proof {
                assert(first_unresolved(sig_run) == Some(facets.sig_oid));
                lemma_first_unresolved_concat(sig_run, issuer_run);
                lemma_first_unresolved_concat(sig_run + issuer_run, subject_run);
            }
            return Err(e);
        },
    };
    proof {
        assert(sig_run.drop_first() =~= Seq::<Seq<char>>::empty());
        assert(first_unresolved(sig_run.drop_first()) is None);
        assert(first_unresolved(sig_run) is None);
        lemma_first_unresolved_concat(sig_run, issuer_run);
        lemma_first_unresolved_concat(sig_run + issuer_run, subject_run);
    }
    let ifirsts = collect_first_attrs(&issuer_rdns);
    let sfirsts = collect_first_attrs(&subject_rdns);
    let (flag, tte) = evaluate(core.not_before, core.not_after, now);
    if core.is_ca {
        let cn = match fold_issuer_cn(&ifirsts, intermediate.issuer.clone()) {
            Ok(s) => s,
            Err(e) => {
                proof {
                    lemma_first_unresolved_concat(issuer_run, subject_run);
                }
                return Err(e);
            },
        };
        let sf = match fold_subject(
            &sfirsts,
            intermediate.common_name.clone(),
            intermediate.country.clone(),
            intermediate.state.clone(),
            intermediate.locality.clone(),
            intermediate.organization.clone(),
        ) {
            Ok(t) => t,
            Err(e) => {
                proof {
                    lemma_first_unresolved_concat(issuer_run, subject_run);
                }
                return Err(e);
            },
        };
        proof {
            lemma_first_unresolved_concat(issuer_run, subject_run);
        }
        intermediate.is_valid = flag;
        intermediate.not_before = core.not_before;
        intermediate.not_after = core.not_after;
        intermediate.signature_algorithm = sig_name;
        intermediate.time_to_expiration = tte;
        intermediate.issuer = cn;
        intermediate.common_name = sf.0;
        intermediate.country = sf.1;
        intermediate.state = sf.2;
        intermediate.locality = sf.3;
        intermediate.organization = sf.4;
        proof {
            let p = step(
                PairData { server: old(server)@, intermediate: old(intermediate)@ },
                der@,
                now as int,
            );
            assert(p matches StepOutcome::Stepped(q) && q.server =~= server@
                && q.intermediate =~= intermediate@);
        }
        Ok(())
    } else {
        let cn = match fold_issuer_cn(&ifirsts, server.issuer.clone()) {
            Ok(s) => s,
            Err(e) => {
                proof {
                    lemma_first_unresolved_concat(issuer_run, subject_run);
                }
                return Err(e);
            },
        };
        let sf = match fold_subject(
            &sfirsts,
            server.common_name.clone(),
            server.country.clone(),
            server.state.clone(),
            server.locality.clone(),
            server.organization.clone(),
        ) {
            Ok(t) => t,
            Err(e) => {
                proof {
                    lemma_first_unresolved_concat(issuer_run, subject_run);
                }
                return Err(e);
            },
        };
        proof {
            lemma_first_unresolved_concat(issuer_run, subject_run);
        }
        append_dns(&mut server.sans, &san);
        server.is_valid = flag;
        server.not_before = core.not_before;
        server.not_after = core.not_after;
        server.signature_algorithm = sig_name;
        server.time_to_expiration = tte;
        server.issuer = cn;
        server.common_name = sf.0;
        server.country = sf.1;
        server.state = sf.2;
        server.locality = sf.3;
        server.organization = sf.4;
        proof {
            let p = step(
                PairData { server: old(server)@, intermediate: old(intermediate)@ },
                der@,
                now as int,
            );
            assert(p matches StepOutcome::Stepped(q) && q.server =~= server@
                && q.intermediate =~= intermediate@);
        }
        Ok(())
    }
}

/// Extract the summary of a certificate chain, as presented by a
/// handshake, at the instant `now` (a Unix timestamp in seconds).
///
/// An empty chain yields `NoCertificatesFound`; a certificate that does
/// not decode aborts the pass with `DecodeError`; an object identifier the
/// resolver does not know aborts it with `OidResolutionError`.  Otherwise
/// every certificate is visited in presentation order: each CA certificate
/// overwrites the intermediate record, each other certificate overwrites
/// the server record, and the summary pairs the two.
pub fn extract(chain: &Vec<Vec<u8>>, now: i64) -> (r: Result<Cert, ExtractionError>)
    ensures
        chain@.len() == 0 ==> (r matches Err(e) && e is NoCertificatesFound),
        chain@.len() > 0 ==> match extract_model(chain.deep_view(), now as int) {
            ChainOutcome::Undecodable => r matches Err(e) && e is DecodeError,
            ChainOutcome::Unresolvable(oid) => r matches Err(e) && (e
                matches ExtractionError::OidResolutionError(d) && d@ == oid),
            ChainOutcome::Done(p) => r matches Ok(c) && c@ == p,
        },
{
    let ghost dv = chain.deep_view();
    if chain.len() == 0 {
        return Err(ExtractionError::NoCertificatesFound);
    }
    let mut server = ServerCert::new(now);
    let mut intermediate = IntermediateCert::new(now);
    proof {
        assert(PairData { server: server@, intermediate: intermediate@ } =~= initial_pair(
            now as int,
        ));
        assert(dv.skip(0) =~= dv);
    }
    let mut i: usize = 0;
    while i < chain.len()
        invariant
            i <= chain@.len(),
            dv == chain.deep_view(),
            dv.len() == chain@.len(),
            fold_chain(
                PairData { server: server@, intermediate: intermediate@ },
                dv.skip(i as int),
                now as int,
            ) == extract_model(dv, now as int),
        decreases chain@.len() - i,
    {
        let ghost pair = PairData { server: server@, intermediate: intermediate@ };
        let ghost rest = dv.skip(i as int);
        proof {
            assert(rest[0] == dv[i as int]);
            assert(dv[i as int] == chain@[i as int].deep_view());
            assert(chain@[i as int].deep_view() =~= chain@[i as int]@);
        }
        match process_cert(&chain[i], now, &mut server, &mut intermediate) {
            Ok(()) => {},
            Err(e) => {
                return Err(e);
            },
        }
        proof {
            assert(rest.drop_first() =~= dv.skip(i as int + 1));
        }
        i += 1;
    }
    proof {
        assert(dv.skip(dv.len() as int) =~= Seq::<Seq<u8>>::empty());
    }
    let c = Cert { server, intermediate };
    Ok(c)
}

} // verus!
