//! Chain extraction scenarios over hand-encoded DER certificates.

use checkssl::extract::{extract, ExtractionError};

// ---- DER encoding helpers ----

fn tlv(tag: u8, content: &[u8]) -> Vec<u8> {
    let mut out = vec![tag];
    let len = content.len();
    if len < 128 {
        out.push(len as u8);
    } else if len < 256 {
        out.push(0x81);
        out.push(len as u8);
    } else {
        out.push(0x82);
        out.push((len >> 8) as u8);
        out.push((len & 0xff) as u8);
    }
    out.extend_from_slice(content);
    out
}

fn cat(parts: &[Vec<u8>]) -> Vec<u8> {
    let mut out = Vec::new();
    for p in parts {
        out.extend_from_slice(p);
    }
    out
}

const OID_CN: &[u8] = &[0x55, 0x04, 0x03];
const OID_C: &[u8] = &[0x55, 0x04, 0x06];
const OID_L: &[u8] = &[0x55, 0x04, 0x07];
const OID_ST: &[u8] = &[0x55, 0x04, 0x08];
const OID_O: &[u8] = &[0x55, 0x04, 0x0a];
const OID_UNKNOWN: &[u8] = &[0x2a, 0x03, 0x04, 0x05, 0x06, 0x07, 0x08, 0x09];
const OID_SHA256_RSA: &[u8] = &[0x2a, 0x86, 0x48, 0x86, 0xf7, 0x0d, 0x01, 0x01, 0x0b];
const OID_RSA: &[u8] = &[0x2a, 0x86, 0x48, 0x86, 0xf7, 0x0d, 0x01, 0x01, 0x01];
const OID_BASIC_CONSTRAINTS: &[u8] = &[0x55, 0x1d, 0x13];
const OID_SAN: &[u8] = &[0x55, 0x1d, 0x11];

fn oid(bytes: &[u8]) -> Vec<u8> {
    tlv(0x06, bytes)
}

fn utf8(s: &str) -> Vec<u8> {
    tlv(0x0c, s.as_bytes())
}

fn utctime(s: &str) -> Vec<u8> {
    tlv(0x17, s.as_bytes())
}

/// A name: one relative distinguished name per attribute.
fn name(attrs: &[(&[u8], &str)]) -> Vec<u8> {
    let mut rdns = Vec::new();
    for (attr_oid, value) in attrs {
        let atv = tlv(0x30, &cat(&[oid(attr_oid), utf8(value)]));
        rdns.push(tlv(0x31, &atv));
    }
    tlv(0x30, &cat(&rdns))
}

fn algorithm_id(alg: &[u8]) -> Vec<u8> {
    tlv(0x30, &cat(&[oid(alg), vec![0x05, 0x00]]))
}

fn bit_string(data: &[u8]) -> Vec<u8> {
    let mut content = vec![0x00];
    content.extend_from_slice(data);
    tlv(0x03, &content)
}

fn extension(ext_oid: &[u8], value: Vec<u8>) -> Vec<u8> {
    tlv(0x30, &cat(&[oid(ext_oid), tlv(0x04, &value)]))
}

fn basic_constraints_ext(ca: bool) -> Vec<u8> {
    let inner = if ca { tlv(0x30, &[0x01, 0x01, 0xff]) } else { tlv(0x30, &[]) };
    extension(OID_BASIC_CONSTRAINTS, inner)
}

fn san_dns(host: &str) -> Vec<u8> {
    tlv(0x82, host.as_bytes())
}

fn san_ip(addr: &[u8]) -> Vec<u8> {
    tlv(0x87, addr)
}

fn san_ext(entries: &[Vec<u8>]) -> Vec<u8> {
    extension(OID_SAN, tlv(0x30, &cat(entries)))
}

/// A minimal X.509 v3 certificate that the decoder accepts; the signature
/// bytes are arbitrary, since extraction never verifies them.
fn make_cert(
    subject: &[(&[u8], &str)],
    issuer: &[(&[u8], &str)],
    not_before: &str,
    not_after: &str,
    extensions: &[Vec<u8>],
) -> Vec<u8> {
    let version = tlv(0xa0, &[0x02, 0x01, 0x02]);
    let serial = vec![0x02, 0x01, 0x01];
    let validity = tlv(0x30, &cat(&[utctime(not_before), utctime(not_after)]));
    let spki = tlv(0x30, &cat(&[algorithm_id(OID_RSA), bit_string(&[0x00])]));
    let exts = tlv(0xa3, &tlv(0x30, &cat(extensions)));
    let tbs = tlv(
        0x30,
        &cat(&[
            version,
            serial,
            algorithm_id(OID_SHA256_RSA),
            name(issuer),
            validity,
            name(subject),
            spki,
            exts,
        ]),
    );
    tlv(0x30, &cat(&[tbs, algorithm_id(OID_SHA256_RSA), bit_string(&[0x00])]))
}

// Unix timestamps, midnight UTC.
const TS_2020_01_01: i64 = 1577836800;
const TS_2024_01_01: i64 = 1704067200;
const TS_2025_01_01: i64 = 1735689600;
const TS_2030_01_01: i64 = 1893456000;
const TS_2035_01_01: i64 = 2051222400;

fn leaf_example_com() -> Vec<u8> {
    make_cert(
        &[
            (OID_CN, "example.com"),
            (OID_C, "US"),
            (OID_ST, "California"),
            (OID_L, "San Francisco"),
            (OID_O, "Example Org"),
        ],
        &[(OID_CN, "Example CA")],
        "240101000000Z",
        "300101000000Z",
        &[basic_constraints_ext(false), san_ext(&[san_dns("example.com")])],
    )
}

fn ca_example() -> Vec<u8> {
    make_cert(
        &[(OID_CN, "Example CA"), (OID_O, "Example Trust")],
        &[(OID_CN, "Example Root")],
        "200101000000Z",
        "350101000000Z",
        &[basic_constraints_ext(true)],
    )
}

// ---- scenarios ----

#[test]
fn two_cert_chain_populates_both_records() {
    let chain = vec![leaf_example_com(), ca_example()];
    let cert = extract(&chain, TS_2025_01_01).unwrap();

    assert!(cert.server.is_valid);
    assert_eq!(cert.server.common_name, "example.com");
    assert_eq!(cert.server.country, "US");
    assert_eq!(cert.server.state, "California");
    assert_eq!(cert.server.locality, "San Francisco");
    assert_eq!(cert.server.organization, "Example Org");
    assert_eq!(cert.server.issuer, "Example CA");
    assert_eq!(cert.server.signature_algorithm, "sha256WithRSAEncryption");
    assert_eq!(cert.server.not_before, TS_2024_01_01);
    assert_eq!(cert.server.not_after, TS_2030_01_01);
    assert_eq!(cert.server.sans, vec!["example.com".to_string()]);
    // 2025-01-01 to 2030-01-01 is five years with one leap day.
    assert_eq!(cert.server.time_to_expiration, "1826 day(s)");

    assert!(cert.intermediate.is_valid);
    assert_eq!(cert.intermediate.common_name, "Example CA");
    assert_eq!(cert.intermediate.organization, "Example Trust");
    assert_eq!(cert.intermediate.issuer, "Example Root");
    assert_eq!(cert.intermediate.not_before, TS_2020_01_01);
    assert_eq!(cert.intermediate.not_after, TS_2035_01_01);
    assert_eq!(cert.intermediate.signature_algorithm, "sha256WithRSAEncryption");
}

#[test]
fn chain_order_does_not_matter_for_slots() {
    let chain = vec![ca_example(), leaf_example_com()];
    let cert = extract(&chain, TS_2025_01_01).unwrap();
    assert_eq!(cert.server.common_name, "example.com");
    assert_eq!(cert.intermediate.common_name, "Example CA");
}

#[test]
fn expired_leaf_reports_invalid_without_error() {
    let leaf = make_cert(
        &[(OID_CN, "old.example.com")],
        &[(OID_CN, "Example CA")],
        "200101000000Z",
        "240101000000Z",
        &[basic_constraints_ext(false)],
    );
    let chain = vec![leaf, ca_example()];
    let cert = extract(&chain, TS_2025_01_01).unwrap();
    assert!(!cert.server.is_valid);
    assert_eq!(cert.server.time_to_expiration, "");
    assert_eq!(cert.server.not_after, TS_2024_01_01);
}

#[test]
fn truncated_certificate_aborts_with_decode_error() {
    let mut broken = leaf_example_com();
    broken.truncate(broken.len() / 2);
    let chain = vec![ca_example(), broken];
    let r = extract(&chain, TS_2025_01_01);
    assert!(matches!(r, Err(ExtractionError::DecodeError(_))));
}

#[test]
fn empty_chain_is_an_error() {
    let chain: Vec<Vec<u8>> = Vec::new();
    let r = extract(&chain, TS_2025_01_01);
    assert_eq!(r, Err(ExtractionError::NoCertificatesFound));
}

#[test]
fn san_keeps_dns_entries_in_order_and_drops_others() {
    let leaf = make_cert(
        &[(OID_CN, "a.com")],
        &[(OID_CN, "Example CA")],
        "240101000000Z",
        "300101000000Z",
        &[
            basic_constraints_ext(false),
            san_ext(&[san_dns("a.com"), san_ip(&[1, 2, 3, 4]), san_dns("b.com")]),
        ],
    );
    let chain = vec![leaf];
    let cert = extract(&chain, TS_2025_01_01).unwrap();
    assert_eq!(cert.server.sans, vec!["a.com".to_string(), "b.com".to_string()]);
}

#[test]
fn extraction_is_idempotent() {
    let chain = vec![leaf_example_com(), ca_example()];
    let first = extract(&chain, TS_2025_01_01);
    let second = extract(&chain, TS_2025_01_01);
    assert_eq!(first, second);
}

#[test]
fn unknown_attribute_type_aborts_with_its_identifier() {
    let leaf = make_cert(
        &[(OID_CN, "example.com"), (OID_UNKNOWN, "mystery")],
        &[(OID_CN, "Example CA")],
        "240101000000Z",
        "300101000000Z",
        &[basic_constraints_ext(false)],
    );
    let chain = vec![leaf];
    let r = extract(&chain, TS_2025_01_01);
    assert_eq!(
        r,
        Err(ExtractionError::OidResolutionError("1.2.3.4.5.6.7.8.9".to_string()))
    );
}

#[test]
fn later_ca_certificate_overwrites_the_intermediate_slot() {
    let ca1 = make_cert(
        &[(OID_CN, "First CA")],
        &[(OID_CN, "Example Root")],
        "200101000000Z",
        "350101000000Z",
        &[basic_constraints_ext(true)],
    );
    let ca2 = make_cert(
        &[(OID_CN, "Second CA")],
        &[(OID_CN, "Example Root")],
        "200101000000Z",
        "350101000000Z",
        &[basic_constraints_ext(true)],
    );
    let chain = vec![leaf_example_com(), ca1, ca2];
    let cert = extract(&chain, TS_2025_01_01).unwrap();
    assert_eq!(cert.intermediate.common_name, "Second CA");
}

#[test]
fn certificate_without_basic_constraints_is_a_leaf() {
    let leaf = make_cert(
        &[(OID_CN, "plain.example.com")],
        &[(OID_CN, "Example CA")],
        "240101000000Z",
        "300101000000Z",
        &[],
    );
    let chain = vec![leaf];
    let cert = extract(&chain, TS_2025_01_01).unwrap();
    assert_eq!(cert.server.common_name, "plain.example.com");
    assert_eq!(cert.intermediate.common_name, "");
}

#[test]
fn expiring_today_counts_zero_days() {
    let leaf = make_cert(
        &[(OID_CN, "example.com")],
        &[(OID_CN, "Example CA")],
        "240101000000Z",
        "250101010000Z",
        &[basic_constraints_ext(false)],
    );
    let chain = vec![leaf];
    let cert = extract(&chain, TS_2025_01_01).unwrap();
    assert!(cert.server.is_valid);
    assert_eq!(cert.server.time_to_expiration, "0 day(s)");
}

#[test]
fn expiring_exactly_now_is_valid_with_no_countdown() {
    let leaf = make_cert(
        &[(OID_CN, "example.com")],
        &[(OID_CN, "Example CA")],
        "240101000000Z",
        "250101000000Z",
        &[basic_constraints_ext(false)],
    );
    let chain = vec![leaf];
    let cert = extract(&chain, TS_2025_01_01).unwrap();
    assert!(cert.server.is_valid);
    assert_eq!(cert.server.time_to_expiration, "");
}
