//! Resolution of decentralized identity records over DNS TXT lookups.
//!
//! Given a human-readable identifier (a dotted domain name or an
//! email-shaped `local@domain` string) and a set of record keys such as
//! `"pgp"`, the library derives one DNS query name per key, looks up its
//! TXT records against a configurable nameserver, and returns one
//! outcome per key: either the space-joined record text or an error
//! message. Failures are isolated per key; no key's failure disturbs
//! another's result.

pub mod dns;
pub mod ipv4;
pub mod outcome;
pub mod query_name;
pub mod sdk;
pub mod text;
pub mod validate;

pub use dns::{outcome_of_lookup, resolve_txt};
pub use ipv4::{parse_ipv4, Ipv4Address};
pub use outcome::Outcome;
pub use query_name::get_txt_record_key;
pub use sdk::SelfieRecordsSDK;
pub use text::join_with_spaces;
pub use validate::{validate_domain_or_subdomain, validate_email_address};
