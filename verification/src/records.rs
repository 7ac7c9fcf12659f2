//! The result records: the leaf (server) certificate's summary, the CA
//! (intermediate) certificate's summary, and the pair the extraction pass
//! returns.  Instants are Unix timestamps in seconds.

use vstd::prelude::*;
use crate::model::{
    IntermediateData, PairData, ServerData, initial_intermediate, initial_server,
};

verus! {

/// Summary of the leaf certificate.
#[derive(Debug, PartialEq, Eq)]
pub struct ServerCert {
    pub common_name: String,
    pub signature_algorithm: String,
    pub sans: Vec<String>,
    pub country: String,
    pub state: String,
    pub locality: String,
    pub organization: String,
    pub not_after: i64,
    pub not_before: i64,
    pub issuer: String,
    pub is_valid: bool,
    pub time_to_expiration: String,
}

impl View for ServerCert {
    type V = ServerData;

    open spec fn view(&self) -> ServerData {
        ServerData {
            common_name: self.common_name@,
            signature_algorithm: self.signature_algorithm@,
            sans: self.sans.deep_view(),
            country: self.country@,
            state: self.state@,
            locality: self.locality@,
            organization: self.organization@,
            not_after: self.not_after as int,
            not_before: self.not_before as int,
            issuer: self.issuer@,
            is_valid: self.is_valid,
            time_to_expiration: self.time_to_expiration@,
        }
    }
}

impl ServerCert {
    /// A fresh record: empty fields, not valid, the window collapsed onto
    /// `now`.
    pub fn new(now: i64) -> (r: ServerCert)
        ensures
            r@ == initial_server(now as int),
    {
        let r = ServerCert {
            common_name: String::new(),
            signature_algorithm: String::new(),
            sans: Vec::new(),
            country: String::new(),
            state: String::new(),
            locality: String::new(),
            organization: String::new(),
            not_after: now,
            not_before: now,
            issuer: String::new(),
            is_valid: false,
            time_to_expiration: String::new(),
        };
        proof {
            assert(r.sans.deep_view() =~= Seq::<Seq<char>>::empty());
            assert(r@ =~= initial_server(now as int));
        }
        r
    }
}

/// Summary of the CA certificate found in the same chain.
#[derive(Debug, PartialEq, Eq)]
pub struct IntermediateCert {
    pub common_name: String,
    pub signature_algorithm: String,
    pub country: String,
    pub state: String,
    pub locality: String,
    pub organization: String,
    pub not_after: i64,
    pub not_before: i64,
    pub issuer: String,
    pub is_valid: bool,
    pub time_to_expiration: String,
}

impl View for IntermediateCert {
    type V = IntermediateData;

    open spec fn view(&self) -> IntermediateData {
        IntermediateData {
            common_name: self.common_name@,
            signature_algorithm: self.signature_algorithm@,
            country: self.country@,
            state: self.state@,
            locality: self.locality@,
            organization: self.organization@,
            not_after: self.not_after as int,
            not_before: self.not_before as int,
            issuer: self.issuer@,
            is_valid: self.is_valid,
            time_to_expiration: self.time_to_expiration@,
        }
    }
}

impl IntermediateCert {
    /// A fresh record.
    pub fn new(now: i64) -> (r: IntermediateCert)
        ensures
            r@ == initial_intermediate(now as int),
    {
        let r = IntermediateCert {
            common_name: String::new(),
            signature_algorithm: String::new(),
            country: String::new(),
            state: String::new(),
            locality: String::new(),
            organization: String::new(),
            not_after: now,
            not_before: now,
            issuer: String::new(),
            is_valid: false,
            time_to_expiration: String::new(),
        };
        proof {
            assert(r@ =~= initial_intermediate(now as int));
        }
        r
    }
}

/// The pair of records one extraction pass produces: exactly one server
/// record and one intermediate record.
#[derive(Debug, PartialEq, Eq)]
pub struct Cert {
    pub server: ServerCert,
    pub intermediate: IntermediateCert,
}

impl View for Cert {
    type V = PairData;

    open spec fn view(&self) -> PairData {
        PairData { server: self.server@, intermediate: self.intermediate@ }
    }
}

} // verus!
