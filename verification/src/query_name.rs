//! Derivation of the DNS query name for one (identifier, key) pair.
//!
//! An email-shaped identifier `local@domain` with key `k` is looked up
//! under `local.user._k.domain`; a domain-shaped identifier `d` under
//! `_k.d`. No escaping or punycode normalization is applied.

use vstd::prelude::*;
use crate::text::{find_char, lemma_find_char};

verus! {

/// The query name derived for `name` and `key`: the identifier is split
/// at its first `@` if it has one, else used whole.
pub open spec fn query_name_spec(name: Seq<char>, key: Seq<char>) -> Seq<char> {
    match find_char(name, '@') {
        Some(a) => name.subrange(0, a) + ".user._"@ + key + "."@ + name.subrange(
            a + 1,
            name.len() as int,
        ),
        None => "_"@ + key + "."@ + name,
    }
}

/// Derives the DNS query name to look up for `name` and `key`.
pub fn get_txt_record_key(name: &str, key: &str) -> (r: String)
    ensures
        r@ == query_name_spec(name@, key@),
{
    let len = name.unicode_len();
    let mut at_pos: Option<usize> = None;
    let mut i: usize = 0;
    while i < len
        invariant
            i <= len,
            len == name@.len(),
            match at_pos {
                Some(p) => p < i && name@[p as int] == '@' && (forall|m: int|
                    0 <= m < p ==> name@[m] != '@'),
                None => forall|m: int| 0 <= m < i ==> name@[m] != '@',
            },
        decreases len - i,
    {
        if name.get_char(i) == '@' && at_pos.is_none() {
            at_pos = Some(i);
        }
        i += 1;
    }
    proof {
        lemma_find_char(name@, '@');
    }
    match at_pos {
        Some(p) => {
            let local = name.substring_char(0, p);
            let domain = name.substring_char(p + 1, len);
            let mut r = local.to_owned();
            r.append(".user._");
            r.append(key);
            r.append(".");
            r.append(domain);
            proof {
                assert(find_char(name@, '@') == Some(p as int));
            }
            r
        },
        None => {
            let mut r = String::from_str("_");
            r.append(key);
            r.append(".");
            r.append(name);
            r
        },
    }
}

} // verus!
