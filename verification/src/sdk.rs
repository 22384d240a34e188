//! The batch resolver: one identifier, a set of record keys, one
//! outcome per key.
//!
//! Each key is handled independently — validate the identifier, derive
//! the query name, look the TXT records up, record a value or an error —
//! and one key's failure never disturbs another's outcome. The
//! nameserver is chosen per call from the optional override and passed
//! down, never stored mutably, so concurrent calls cannot observe each
//! other's override.

use vstd::prelude::*;
use vstd::seq_lib::lemma_seq_contains_after_push;
use trust_dns_resolver::Resolver;
use crate::dns::{make_resolver, outcome_of_lookup, resolve_txt};
use crate::ipv4::{default_nameserver, effective_nameserver, Ipv4Address};
use crate::outcome::Outcome;
use crate::query_name::{get_txt_record_key, query_name_spec};
use crate::validate::{
    identifier_valid, invalid_domain_message_spec, validate_domain_or_subdomain,
    validate_email_address,
};

verus! {

/// The port TXT lookups are sent to.
pub const DNS_PORT: u16 = 53;

/// The conservative per-lookup timeout used until one is configured.
pub const DEFAULT_LOOKUP_TIMEOUT_SECS: u64 = 3;

/// The four well-known record keys looked up when the caller names none.
pub open spec fn default_keys_spec() -> Seq<Seq<char>> {
    seq!["bitcoin-payment"@, "pgp"@, "nostr"@, "node-uri"@]
}

/// The key list a call works through: the caller's, or the default set.
pub open spec fn requested_keys_spec(filters: Option<Seq<Seq<char>>>) -> Seq<Seq<char>> {
    match filters {
        Some(f) => f,
        None => default_keys_spec(),
    }
}

/// The requested keys with later duplicates dropped, first occurrences
/// kept in order.
pub open spec fn dedup_keys(s: Seq<Seq<char>>) -> Seq<Seq<char>>
    decreases s.len(),
{
    if s.len() == 0 {
        Seq::empty()
    } else if s.drop_last().contains(s.last()) {
        dedup_keys(s.drop_last())
    } else {
        dedup_keys(s.drop_last()).push(s.last())
    }
}

/// The outcome recorded for `key` when the identifier fits neither
/// shape: the domain-shape error message naming that key.
pub open spec fn is_domain_error_for(o: Outcome, key: Seq<char>) -> bool {
    o matches Outcome::Error(m) && m@ == invalid_domain_message_spec(key)
}

/// An error message of the lookup-failure shape: it names the query
/// name that was looked up and carries the collaborator's description.
pub open spec fn is_lookup_failure_for(o: Outcome, qname: Seq<char>) -> bool {
    o matches Outcome::Error(m) && exists|detail: Seq<char>|
        m@ == "Error resolving TXT record for "@ + qname + ": "@ + detail
}

/// An error message reporting that no resolver could be built for the
/// chosen nameserver.
pub open spec fn is_construction_failure(o: Outcome) -> bool {
    o matches Outcome::Error(m) && exists|detail: Seq<char>|
        m@ == "Error constructing resolver: "@ + detail
}

/// What a valid identifier's entry may hold, and nothing else: a
/// resolved value, the distinct no-records error, a lookup failure
/// naming exactly the query name derived for that key, or a
/// resolver-construction failure. In particular a validation error
/// never appears for a valid identifier.
pub open spec fn is_resolved_outcome_for(o: Outcome, name: Seq<char>, key: Seq<char>) -> bool {
    ||| o matches Outcome::Value(_)
    ||| o matches Outcome::Error(m) && m@ == "No TXT records found"@
    ||| is_lookup_failure_for(o, query_name_spec(name, key))
    ||| is_construction_failure(o)
}

/// The key column of a batch result.
pub open spec fn result_keys(r: Seq<(String, Outcome)>) -> Seq<Seq<char>> {
    r.map_values(|p: (String, Outcome)| p.0@)
}

/// Deduplication keeps membership: a key is in the deduplicated list
/// exactly when it was requested.
pub proof fn lemma_dedup_keys_contains(s: Seq<Seq<char>>, x: Seq<char>)
    ensures
        dedup_keys(s).contains(x) <==> s.contains(x),
    decreases s.len(),
{
    if s.len() > 0 {
        lemma_dedup_keys_contains(s.drop_last(), x);
        assert(s.drop_last().push(s.last()) =~= s);
        lemma_seq_contains_after_push(s.drop_last(), s.last(), x);
        if !s.drop_last().contains(s.last()) {
            lemma_seq_contains_after_push(dedup_keys(s.drop_last()), s.last(), x);
        }
    }
}

/// Deduplication leaves no duplicates behind.
pub proof fn lemma_dedup_keys_distinct(s: Seq<Seq<char>>)
    ensures
        forall|i: int, j: int|
            0 <= i < j < dedup_keys(s).len() ==> dedup_keys(s)[i] != dedup_keys(s)[j],
    decreases s.len(),
{
    if s.len() > 0 {
        let d = s.drop_last();
        let x = s.last();
        lemma_dedup_keys_distinct(d);
        if !d.contains(x) {
            assert forall|i: int, j: int|
                0 <= i < j < dedup_keys(s).len() implies dedup_keys(s)[i] != dedup_keys(s)[j] by {
                if j == dedup_keys(s).len() - 1 {
                    assert(dedup_keys(d).contains(dedup_keys(d)[i]));
                    lemma_dedup_keys_contains(d, dedup_keys(d)[i]);
                    assert(dedup_keys(s)[j] == x);
                }
            }
        }
    }
}

/// Law: a batch result holds exactly the requested key set — every
/// requested key appears, nothing else appears, and no key twice.
pub proof fn lemma_batch_keys_exact(keys: Seq<Seq<char>>)
    ensures
        forall|x: Seq<char>| #[trigger] dedup_keys(keys).contains(x) <==> keys.contains(x),
        forall|i: int, j: int|
            0 <= i < j < dedup_keys(keys).len() ==> dedup_keys(keys)[i] != dedup_keys(keys)[j],
{
    assert forall|x: Seq<char>| #[trigger] dedup_keys(keys).contains(x) <==> keys.contains(
        x,
    ) by {
        lemma_dedup_keys_contains(keys, x);
    }
    lemma_dedup_keys_distinct(keys);
}

/// Builds the default key list.
pub fn default_records() -> (v: Vec<String>)
    ensures
        v.deep_view() == default_keys_spec(),
{
    let mut v: Vec<String> = Vec::new();
    v.push(String::from_str("bitcoin-payment"));
    v.push(String::from_str("pgp"));
    v.push(String::from_str("nostr"));
    v.push(String::from_str("node-uri"));
    proof {
        assert(v.deep_view() =~= default_keys_spec());
    }
    v
}

fn contains_key(results: &Vec<(String, Outcome)>, key: &String) -> (b: bool)
    ensures
        b == result_keys(results@).contains(key@),
{
    let mut i: usize = 0;
    let mut found = false;
    while i < results.len()
        invariant
            i <= results.len(),
            found <==> exists|m: int| 0 <= m < i && #[trigger] results@[m].0@ == key@,
        decreases results.len() - i,
    {
        if results[i].0 == *key {
            found = true;
        }
        i += 1;
    }
    proof {
        if found {
            let m = choose|m: int| 0 <= m < results@.len() && results@[m].0@ == key@;
            assert(result_keys(results@)[m] == key@);
        }
        if result_keys(results@).contains(key@) {
            let m = choose|m: int|
                0 <= m < result_keys(results@).len() && result_keys(results@)[m] == key@;
            assert(results@[m].0@ == key@);
        }
    }
    found
}

/// Resolves one key: a doubly rejected identifier yields the
/// domain-shape error without any lookup; otherwise the derived query
/// name is looked up and the lookup's result becomes the outcome.
fn resolve_one(resolver: &Result<Resolver, String>, name: &str, key: &String) -> (o: Outcome)
    ensures
        !identifier_valid(name@) ==> is_domain_error_for(o, key@),
        identifier_valid(name@) ==> is_resolved_outcome_for(o, name@, key@),
{
    let domain_check = validate_domain_or_subdomain(key.as_str(), name);
    let email_check = validate_email_address(key.as_str(), name);
    match (domain_check, email_check) {
        (Some(dmsg), Some(_)) => Outcome::Error(dmsg),
        _ => {
            let qname = get_txt_record_key(name, key.as_str());
            match resolver {
                Ok(res) => {
                    let looked_up = resolve_txt(res, qname.as_str());
                    let o = outcome_of_lookup(looked_up);
                    proof {
                        assert(is_resolved_outcome_for(o, name@, key@));
                    }
                    o
                },
                Err(e) => {
                    let mut m = String::from_str("Error constructing resolver: ");
                    m.append(e.as_str());
                    proof {
                        assert(m@ == "Error constructing resolver: "@ + e@);
                    }
                    Outcome::Error(m)
                },
            }
        },
    }
}

/// Resolves decentralized identity records: TXT lookups of per-key
/// query names derived from one identifier.
pub struct SelfieRecordsSDK {
    /// The nameserver used when a call brings no usable override.
    pub nameserver: Ipv4Address,
    /// Whether the embedding surface should log verbosely.
    pub debug: bool,
    /// Seconds one TXT lookup may take before it fails.
    pub lookup_timeout_secs: u64,
}

impl SelfieRecordsSDK {
    /// A resolver over the built-in default nameserver.
    pub fn new(debug: bool) -> (sdk: Self)
        ensures
            sdk.debug == debug,
            sdk.nameserver == crate::ipv4::default_nameserver_spec(),
            sdk.lookup_timeout_secs == DEFAULT_LOOKUP_TIMEOUT_SECS,
    {
        SelfieRecordsSDK {
            nameserver: default_nameserver(),
            debug,
            lookup_timeout_secs: DEFAULT_LOOKUP_TIMEOUT_SECS,
        }
    }

    /// A resolver over a chosen initial nameserver.
    pub fn with_nameserver(debug: bool, nameserver: Ipv4Address) -> (sdk: Self)
        ensures
            sdk.debug == debug,
            sdk.nameserver == nameserver,
            sdk.lookup_timeout_secs == DEFAULT_LOOKUP_TIMEOUT_SECS,
    {
        SelfieRecordsSDK { nameserver, debug, lookup_timeout_secs: DEFAULT_LOOKUP_TIMEOUT_SECS }
    }

    /// Reconfigures the per-lookup timeout, leaving the rest untouched.
    pub fn set_lookup_timeout(&mut self, secs: u64)
        ensures
            final (self).lookup_timeout_secs == secs,
            final (self).nameserver == old(self).nameserver,
            final (self).debug == old(self).debug,
    {
        self.lookup_timeout_secs = secs;
    }

    /// Resolves every requested key for `name` against one nameserver.
    ///
    /// The result holds one entry per distinct requested key, in first
    /// request order. An identifier that fits neither shape gives every
    /// key the domain-shape error — the deliberate tie-break between
    /// the two validators — and no lookup is attempted for it. For a
    /// valid identifier every entry is a resolved outcome: a value, the
    /// no-records error, a lookup failure naming that key's derived
    /// query name, or a resolver-construction failure.
    pub fn get_records(
        &self,
        name: &str,
        filters: Option<Vec<&str>>,
        dns_server: Option<&str>,
    ) -> (results: Vec<(String, Outcome)>)
        ensures
            result_keys(results@) == dedup_keys(requested_keys_spec(filters.deep_view())),
            forall|i: int|
                0 <= i < results@.len() ==> (!identifier_valid(name@) ==> is_domain_error_for(
                    #[trigger] results@[i].1,
                    results@[i].0@,
                )),
            forall|i: int|
                0 <= i < results@.len() ==> (identifier_valid(name@) ==> is_resolved_outcome_for(
                    #[trigger] results@[i].1,
                    name@,
                    results@[i].0@,
                )),
    {
        let keys: Vec<String> = match filters {
            None => default_records(),
            Some(f) => {
                let mut v: Vec<String> = Vec::new();
                let mut i: usize = 0;
                while i < f.len()
                    invariant
                        i <= f.len(),
                        v@.len() == i,
                        forall|m: int| 0 <= m < i ==> (#[trigger] v@[m])@ == f@[m]@,
                    decreases f.len() - i,
                {
                    let elem = f[i].to_owned();
                    v.push(elem);
                    i += 1;
                }
                proof {
                    assert forall|m: int|
                        0 <= m < v.deep_view().len() implies v.deep_view()[m]
                        == f.deep_view()[m] by {
                        assert(v.deep_view()[m] == v@[m]@);
                        assert(f.deep_view()[m] == f@[m]@);
                    }
                    assert(v.deep_view() =~= f.deep_view());
                }
                v
            },
        };
        let ns = effective_nameserver(dns_server, self.nameserver);
        let resolver = make_resolver(&ns, DNS_PORT, self.lookup_timeout_secs, 0);
        let mut results: Vec<(String, Outcome)> = Vec::new();
        let mut idx: usize = 0;
        while idx < keys.len()
            invariant
                idx <= keys.len(),
                keys.deep_view() == requested_keys_spec(filters.deep_view()),
                result_keys(results@) == dedup_keys(keys.deep_view().take(idx as int)),
                forall|i: int|
                    0 <= i < results@.len() ==> (!identifier_valid(name@)
                        ==> is_domain_error_for(#[trigger] results@[i].1, results@[i].0@)),
                forall|i: int|
                    0 <= i < results@.len() ==> (identifier_valid(name@)
                        ==> is_resolved_outcome_for(#[trigger] results@[i].1, name@, results@[i].0@)),
            decreases keys.len() - idx,
        {
            let key: &String = &keys[idx];
            let ghost prefix = keys.deep_view().take(idx as int);
            let ghost extended = keys.deep_view().take(idx as int + 1);
            proof {
                assert(extended =~= prefix.push(keys.deep_view()[idx as int]));
                assert(keys.deep_view()[idx as int] == key@);
            }
            if !contains_key(&results, key) {
                let outcome = resolve_one(&resolver, name, key);
                let ghost old_results = results@;
                results.push((key.clone(), outcome));
                proof {
                    assert(result_keys(results@) =~= result_keys(old_results).push(key@));
                    lemma_dedup_keys_contains(prefix, key@);
                    assert(extended.drop_last() =~= prefix);
                }
            } else {
                proof {
                    lemma_dedup_keys_contains(prefix, key@);
                    assert(extended.drop_last() =~= prefix);
                }
            }
            idx += 1;
        }
        proof {
            assert(keys.deep_view().take(keys@.len() as int) =~= keys.deep_view());
        }
        results
    }
}

} // verus!
