//! The TXT resolution capability, delegated to the `trust_dns_resolver`
//! crate behind a thin trusted boundary.
//!
//! What a lookup returns depends on the network, so the trusted items
//! promise nothing of it; everything computed from a lookup's result is
//! verified code taking that result as an argument.

use vstd::prelude::*;
use trust_dns_resolver::Resolver;
use trust_dns_resolver::config::{NameServerConfig, Protocol, ResolverConfig, ResolverOpts};
use crate::ipv4::Ipv4Address;
use crate::outcome::Outcome;
use crate::text::{join_spaced, join_with_spaces};

verus! {

#[verifier::external_type_specification]
#[verifier::external_body]
pub struct ExResolver(Resolver);

/// Relies on `trust_dns_resolver::Resolver::new` with a configuration of
/// one nameserver (the given address and port, UDP), a per-lookup timeout
/// of `timeout_secs` seconds and `attempts` retries after a failed try.
/// Construction may fail for environmental reasons, so nothing is
/// promised of the result.
#[verifier::external_body]
pub(crate) fn make_resolver(ns: &Ipv4Address, port: u16, timeout_secs: u64, attempts: usize) -> (r:
    Result<Resolver, String>)
{
    let ip = core::net::Ipv4Addr::new(ns.a, ns.b, ns.c, ns.d);
    let sock = core::net::SocketAddr::from((ip, port));
    let group = vec![NameServerConfig::new(sock, Protocol::Udp)];
    let config = ResolverConfig::from_parts(None, Vec::new(), group);
    let mut opts = ResolverOpts::default();
    opts.timeout = core::time::Duration::from_secs(timeout_secs);
    opts.attempts = attempts;
    Resolver::new(config, opts).map_err(|e| format!("{:?}", e))
}

/// Relies on `trust_dns_resolver::Resolver::txt_lookup`: queries the
/// resolver's nameserver for the TXT records of `name`; each answer
/// record's character strings are concatenated into one `String`, in
/// answer order. The outcome depends on the network, so nothing is
/// promised of it.
#[verifier::external_body]
pub(crate) fn txt_lookup(resolver: &Resolver, name: &str) -> (r: Result<Vec<String>, String>) {
    match resolver.txt_lookup(name) {
        Ok(lookup) => Ok(lookup.iter().map(|txt| txt.to_string()).collect()),
        Err(e) => Err(format!("{:?}", e)),
    }
}

/// Looks up the TXT records of `name`, describing a failure with a
/// message that names the query.
pub fn resolve_txt(resolver: &Resolver, name: &str) -> (r: Result<Vec<String>, String>)
    ensures
        r matches Err(m) ==> exists|detail: Seq<char>|
            m@ == "Error resolving TXT record for "@ + name@ + ": "@ + detail,
{
    match txt_lookup(resolver, name) {
        Ok(v) => Ok(v),
        Err(e) => {
            let mut m = String::from_str("Error resolving TXT record for ");
            m.append(name);
            m.append(": ");
            m.append(e.as_str());
            proof {
                assert(m@ == "Error resolving TXT record for "@ + name@ + ": "@ + e@);
            }
            Err(m)
        },
    }
}

/// Turns one lookup result into the outcome recorded for its key: a
/// failure passes its message through, an empty answer is the distinct
/// no-records error, and a non-empty answer becomes the space-joined
/// record text in answer order.
pub fn outcome_of_lookup(r: Result<Vec<String>, String>) -> (o: Outcome)
    ensures
        match r {
            Ok(v) => if v@.len() == 0 {
                o matches Outcome::Error(m) && m@ == "No TXT records found"@
            } else {
                o matches Outcome::Value(val) && val@ == join_spaced(v.deep_view())
            },
            Err(e) => o matches Outcome::Error(m) && m@ == e@,
        },
{
    match r {
        Ok(v) => {
            if v.len() == 0 {
                Outcome::Error(String::from_str("No TXT records found"))
            } else {
                Outcome::Value(join_with_spaces(&v))
            }
        },
        Err(e) => Outcome::Error(e),
    }
}

} // verus!
