//! Identifier classification and validation.
//!
//! An identifier may be domain-shaped (dot-separated labels of
//! alphanumerics, hyphen and underscore, at least two labels) or
//! email-shaped (`local@domain` with exactly one `@`, no whitespace, and
//! a dot in the domain). Both shape checks run independently; an
//! identifier is rejected only when both fail, and then the
//! domain-shape message wins — a tie-break kept deliberately.

use vstd::prelude::*;
use crate::text::{find_char, is_space_char, is_word_char, lemma_find_char};

verus! {

/// A domain-shaped identifier: two or more non-empty dot-separated
/// labels over alphanumerics, hyphen and underscore, and no leading
/// URI scheme separator.
pub open spec fn domain_shaped(s: Seq<char>) -> bool {
    &&& s.len() > 0
    &&& !(s.len() >= 3 && s[0] == ':' && s[1] == '/' && s[2] == '/')
    &&& (forall|i: int| 0 <= i < s.len() ==> is_word_char(#[trigger] s[i]) || s[i] == '.')
    &&& s[0] != '.'
    &&& s[s.len() - 1] != '.'
    &&& (forall|i: int| 0 <= i < s.len() - 1 ==> !(#[trigger] s[i] == '.' && s[i + 1] == '.'))
    &&& (exists|i: int| 0 <= i < s.len() && s[i] == '.')
}

/// An email-shaped identifier: exactly one `@`, a non-empty local part
/// before it, a non-empty domain with at least one dot after it, and no
/// whitespace anywhere.
pub open spec fn email_shaped(s: Seq<char>) -> bool {
    match find_char(s, '@') {
        None => false,
        Some(a) => {
            &&& a >= 1
            &&& a + 1 < s.len()
            &&& find_char(s.subrange(a + 1, s.len() as int), '@') is None
            &&& find_char(s.subrange(a + 1, s.len() as int), '.') is Some
            &&& (forall|i: int| 0 <= i < s.len() ==> !is_space_char(#[trigger] s[i]))
        },
    }
}

/// An identifier good for a lookup: at least one of the two shapes fits.
pub open spec fn identifier_valid(s: Seq<char>) -> bool {
    domain_shaped(s) || email_shaped(s)
}

/// The message reported when the domain-shape check rejects `key`'s lookup.
pub open spec fn invalid_domain_message_spec(key: Seq<char>) -> Seq<char> {
    "Invalid domain or subdomain name for key: "@ + key
}

/// The message reported when the email-shape check rejects `key`'s lookup.
pub open spec fn invalid_email_message_spec(key: Seq<char>) -> Seq<char> {
    "Invalid email name for key: "@ + key
}

fn is_space(c: char) -> (b: bool)
    ensures
        b == is_space_char(c),
{
    c == ' ' || c == '\t' || c == '\n' || c == '\r' || c == '\u{b}' || c == '\u{c}'
}

fn is_word(c: char) -> (b: bool)
    ensures
        b == is_word_char(c),
{
    ('a' <= c && c <= 'z') || ('A' <= c && c <= 'Z') || ('0' <= c && c <= '9') || c == '-' || c
        == '_'
}

/// Checks `name` against the domain shape; on failure reports the
/// domain-shape message naming `key`.
pub fn validate_domain_or_subdomain(key: &str, name: &str) -> (r: Option<String>)
    ensures
        match r {
            None => domain_shaped(name@),
            Some(m) => !domain_shaped(name@) && m@ == invalid_domain_message_spec(key@),
        },
{
    let len = name.unicode_len();
    let mut valid = len > 0;
    let mut has_dot = false;
    let mut prev_dot = false;
    let mut i: usize = 0;
    while i < len
        invariant
            i <= len,
            len == name@.len(),
            valid <==> (len > 0 && (forall|m: int|
                0 <= m < i ==> is_word_char(#[trigger] name@[m]) || name@[m] == '.') && (i > 0
                ==> name@[0] != '.') && (forall|m: int|
                0 <= m < i - 1 ==> !(#[trigger] name@[m] == '.' && name@[m + 1] == '.'))),
            has_dot <==> (exists|m: int| 0 <= m < i && name@[m] == '.'),
            prev_dot <==> (i > 0 && name@[i - 1] == '.'),
        decreases len - i,
    {
        let c = name.get_char(i);
        if c == '.' {
            if i == 0 || prev_dot {
                valid = false;
            }
            has_dot = true;
            prev_dot = true;
        } else {
            if !is_word(c) {
                valid = false;
            }
            prev_dot = false;
        }
        i += 1;
    }
    let scheme = len >= 3 && name.get_char(0) == ':' && name.get_char(1) == '/' && name.get_char(
        2,
    ) == '/';
    let ok = valid && has_dot && !prev_dot && !scheme;
    if ok {
        None
    } else {
        Some(invalid_domain_message(key))
    }
}

/// Checks `name` against the email shape; on failure reports the
/// email-shape message naming `key`.
pub fn validate_email_address(key: &str, name: &str) -> (r: Option<String>)
    ensures
        match r {
            None => email_shaped(name@),
            Some(m) => !email_shaped(name@) && m@ == invalid_email_message_spec(key@),
        },
{
    let len = name.unicode_len();
    let mut at_pos: Option<usize> = None;
    let mut second_at = false;
    let mut dot_after_at = false;
    let mut has_ws = false;
    let mut i: usize = 0;
    while i < len
        invariant
            i <= len,
            len == name@.len(),
            match at_pos {
                Some(p) => p < i && name@[p as int] == '@' && (forall|m: int|
                    0 <= m < p ==> name@[m] != '@'),
                None => forall|m: int| 0 <= m < i ==> name@[m] != '@',
            },
            second_at <==> (at_pos matches Some(p) && exists|m: int|
                p < m < i && name@[m] == '@'),
            dot_after_at <==> (at_pos matches Some(p) && exists|m: int|
                p < m < i && name@[m] == '.'),
            has_ws <==> (exists|m: int| 0 <= m < i && is_space_char(#[trigger] name@[m])),
        decreases len - i,
    {
        let c = name.get_char(i);
        if c == '@' {
            if at_pos.is_some() {
                second_at = true;
            } else {
                at_pos = Some(i);
            }
        } else if c == '.' {
            if at_pos.is_some() {
                dot_after_at = true;
            }
        }
        if is_space(c) {
            has_ws = true;
        }
        i += 1;
    }
    let ok = match at_pos {
        Some(p) => p >= 1 && !second_at && p + 1 < len && dot_after_at && !has_ws,
        None => false,
    };
    proof {
        lemma_find_char(name@, '@');
        match at_pos {
            Some(p) => {
                let a = p as int;
                assert(find_char(name@, '@') == Some(a));
                let tail = name@.subrange(a + 1, name@.len() as int);
                lemma_find_char(tail, '@');
                lemma_find_char(tail, '.');
                if second_at {
                    let m = choose|m: int| a < m < name@.len() && name@[m] == '@';
                    assert(tail[m - a - 1] == '@');
                } else {
                    match find_char(tail, '@') {
                        Some(j) => {
                            assert(name@[a + 1 + j] == '@');
                        },
                        None => {},
                    }
                }
                if dot_after_at {
                    let m = choose|m: int| a < m < name@.len() && name@[m] == '.';
                    assert(tail[m - a - 1] == '.');
                } else {
                    match find_char(tail, '.') {
                        Some(j) => {
                            assert(name@[a + 1 + j] == '.');
                        },
                        None => {},
                    }
                }
            },
            None => {},
        }
    }
    if ok {
        None
    } else {
        Some(invalid_email_message(key))
    }
}

/// Builds the domain-shape rejection message for `key`.
pub fn invalid_domain_message(key: &str) -> (r: String)
    ensures
        r@ == invalid_domain_message_spec(key@),
{
    let mut m = String::from_str("Invalid domain or subdomain name for key: ");
    m.append(key);
    m
}

/// Builds the email-shape rejection message for `key`.
pub fn invalid_email_message(key: &str) -> (r: String)
    ensures
        r@ == invalid_email_message_spec(key@),
{
    let mut m = String::from_str("Invalid email name for key: ");
    m.append(key);
    m
}

} // verus!
