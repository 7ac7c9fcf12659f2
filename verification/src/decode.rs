//! The trusted boundary to the DER decoder and the OID-to-name resolver.
//!
//! Each function here parses one raw certificate (or resolves one object
//! identifier) through the `x509-parser` crate and hands the result out as
//! plain values.  Parsing and resolution are pure: what comes back depends
//! on the bytes alone, which the uninterpreted functions below name.

use vstd::prelude::*;
use crate::model::{AttrData, CoreData, SanDatum};

verus! {

/// The scalar facets of one parsed certificate.
pub struct CertCore {
    pub is_ca: bool,
    pub not_before: i64,
    pub not_after: i64,
    pub signature_oid: String,
}

impl View for CertCore {
    type V = CoreData;

    open spec fn view(&self) -> CoreData {
        CoreData {
            is_ca: self.is_ca,
            not_before: self.not_before as int,
            not_after: self.not_after as int,
            sig_oid: self.signature_oid@,
        }
    }
}

/// One name attribute: its type as a dotted decimal object identifier, and
/// its value (empty when the value is not a readable string).
pub struct NameAttr {
    pub oid: String,
    pub value: String,
}

impl View for NameAttr {
    type V = AttrData;

    open spec fn view(&self) -> AttrData {
        AttrData { oid: self.oid@, value: self.value@ }
    }
}

impl DeepView for NameAttr {
    type V = AttrData;

    open spec fn deep_view(&self) -> AttrData {
        self@
    }
}

impl NameAttr {
    /// A field-for-field copy.
    pub fn duplicate(&self) -> (r: NameAttr)
        ensures
            r@ == self@,
    {
        NameAttr { oid: self.oid.clone(), value: self.value.clone() }
    }
}

/// One entry of a subject-alternative-name extension.
pub enum SanName {
    Dns(String),
    Other,
}

impl View for SanName {
    type V = SanDatum;

    open spec fn view(&self) -> SanDatum {
        match self {
            SanName::Dns(s) => SanDatum::Dns(s@),
            SanName::Other => SanDatum::Other,
        }
    }
}

impl DeepView for SanName {
    type V = SanDatum;

    open spec fn deep_view(&self) -> SanDatum {
        self@
    }
}

/// The scalar facets the decoder reads out of a raw certificate, when it
/// parses.
pub uninterp spec fn core_of(der: Seq<u8>) -> Option<CoreData>;

/// The issuer name the decoder reads out of a raw certificate.
pub uninterp spec fn issuer_of(der: Seq<u8>) -> Option<Seq<Seq<AttrData>>>;

/// The subject name the decoder reads out of a raw certificate.
pub uninterp spec fn subject_of(der: Seq<u8>) -> Option<Seq<Seq<AttrData>>>;

/// The subject-alternative-name entries the decoder reads out of a raw
/// certificate (empty when the extension is absent).
pub uninterp spec fn san_of(der: Seq<u8>) -> Option<Seq<SanDatum>>;

/// The short name the resolver's fixed registry gives an object
/// identifier, written in dotted decimal.
pub uninterp spec fn short_name_of(oid: Seq<char>) -> Option<Seq<char>>;

/// Relies on `x509_parser::parse_x509_certificate` together with the
/// accessors `basic_constraints` (the CA flag; absent or unreadable
/// extension means not a CA), `validity` with `ASN1Time::timestamp`, and
/// `Oid::to_id_string` on the signature algorithm.  Parsing is a pure
/// function of the bytes.
#[verifier::external_body]
pub(crate) fn parse_core(der: &Vec<u8>) -> (r: Result<CertCore, String>)
    ensures
        r matches Ok(c) ==> core_of(der@) == Some(c@),
        r is Err <==> core_of(der@) is None,
{
    match x509_parser::parse_x509_certificate(der) {
        Ok((_, c)) => Ok(CertCore {
            is_ca: (matches!(c.basic_constraints(), Ok(Some(e)) if e.value.ca)),
            not_before: c.validity().not_before.timestamp(),
            not_after: c.validity().not_after.timestamp(),
            signature_oid: c.signature_algorithm.algorithm.to_id_string(),
        }),
        Err(e) => Err(e.to_string()),
    }
}

/// Relies on `x509_parser::parse_x509_certificate` and, on the issuer
/// name, `X509Name::iter_rdn`, `RelativeDistinguishedName::iter`,
/// `Oid::to_id_string` and `AttributeTypeAndValue::as_str` (a value that is
/// not a readable string becomes empty).
#[verifier::external_body]
pub(crate) fn parse_issuer(der: &Vec<u8>) -> (r: Result<Vec<Vec<NameAttr>>, String>)
    ensures
        r matches Ok(v) ==> issuer_of(der@) == Some(v.deep_view()),
        r is Err <==> issuer_of(der@) is None,
{
    match x509_parser::parse_x509_certificate(der) {
        Ok((_, c)) => Ok(c.issuer().iter_rdn().map(|rdn| rdn.iter().map(|a| NameAttr {
            oid: a.attr_type().to_id_string(),
            value: a.as_str().unwrap_or("").to_string(),
        }).collect()).collect()),
        Err(e) => Err(e.to_string()),
    }
}

/// Relies on the same functions as `parse_issuer`, on the subject name.
#[verifier::external_body]
pub(crate) fn parse_subject(der: &Vec<u8>) -> (r: Result<Vec<Vec<NameAttr>>, String>)
    ensures
        r matches Ok(v) ==> subject_of(der@) == Some(v.deep_view()),
        r is Err <==> subject_of(der@) is None,
{
    match x509_parser::parse_x509_certificate(der) {
        Ok((_, c)) => Ok(c.subject().iter_rdn().map(|rdn| rdn.iter().map(|a| NameAttr {
            oid: a.attr_type().to_id_string(),
            value: a.as_str().unwrap_or("").to_string(),
        }).collect()).collect()),
        Err(e) => Err(e.to_string()),
    }
}

/// Relies on `x509_parser::parse_x509_certificate` and
/// `subject_alternative_name`: each general name becomes a DNS entry or an
/// entry of another kind; an absent (or unreadable) extension becomes no
/// entries.
#[verifier::external_body]
pub(crate) fn parse_san(der: &Vec<u8>) -> (r: Result<Vec<SanName>, String>)
    ensures
        r matches Ok(v) ==> san_of(der@) == Some(v.deep_view()),
        r is Err <==> san_of(der@) is None,
{
    match x509_parser::parse_x509_certificate(der) {
        Ok((_, c)) => Ok(match c.subject_alternative_name() {
            Ok(Some(ext)) => ext.value.general_names.iter().map(|g| match g {
                x509_parser::extensions::GeneralName::DNSName(d) => SanName::Dns(d.to_string()),
                _ => SanName::Other,
            }).collect(),
            _ => Vec::new(),
        }),
        Err(e) => Err(e.to_string()),
    }
}

/// Relies on `str::parse::<Oid>` (dotted decimal) and
/// `x509_parser::objects::oid2abbrev` over the crate's fixed registry: the
/// abbreviation ("CN", "O", ...) when the registry has one, else the
/// registry's short name, else nothing.
#[verifier::external_body]
pub(crate) fn resolve_oid(oid: &String) -> (r: Option<String>)
    ensures
        r matches Some(s) ==> short_name_of(oid@) == Some(s@),
        r is None <==> short_name_of(oid@) is None,
{
    let parsed: x509_parser::asn1_rs::Oid = match oid.as_str().parse() {
        Ok(o) => o,
        Err(_) => return None,
    };
    match x509_parser::objects::oid2abbrev(&parsed, x509_parser::objects::oid_registry()) {
        Ok(s) => Some(s.to_string()),
        Err(_) => None,
    }
}

} // verus!
