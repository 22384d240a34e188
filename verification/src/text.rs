//! Character classes and sequence helpers shared by the validator, the
//! query-name deriver and the nameserver parser.

use vstd::prelude::*;

verus! {

/// The whitespace characters the identifier validator rejects.
pub open spec fn is_space_char(c: char) -> bool {
    c == ' ' || c == '\t' || c == '\n' || c == '\r' || c == '\u{b}' || c == '\u{c}'
}

/// Characters allowed inside a DNS label: alphanumerics, hyphen, underscore.
pub open spec fn is_word_char(c: char) -> bool {
    ||| 'a' <= c && c <= 'z'
    ||| 'A' <= c && c <= 'Z'
    ||| '0' <= c && c <= '9'
    ||| c == '-'
    ||| c == '_'
}

/// Index of the first occurrence of `c` in `s`, if any.
pub open spec fn find_char(s: Seq<char>, c: char) -> Option<int>
    decreases s.len(),
{
    if s.len() == 0 {
        None
    } else if s[0] == c {
        Some(0)
    } else {
        match find_char(s.drop_first(), c) {
            None => None,
            Some(i) => Some(i + 1),
        }
    }
}

/// `find_char` returns the least index holding `c`, and `None` exactly
/// when `c` does not occur.
pub proof fn lemma_find_char(s: Seq<char>, c: char)
    ensures
        match find_char(s, c) {
            Some(i) => 0 <= i < s.len() && s[i] == c && forall|m: int| 0 <= m < i ==> s[m] != c,
            None => forall|m: int| 0 <= m < s.len() ==> s[m] != c,
        },
    decreases s.len(),
{
    if s.len() > 0 && s[0] != c {
        let d = s.drop_first();
        lemma_find_char(d, c);
        match find_char(d, c) {
            Some(i) => {
                assert(s[i + 1] == d[i]);
                assert forall|m: int| 0 <= m < i + 1 implies s[m] != c by {
                    if m >= 1 {
                        assert(d[m - 1] == s[m]);
                    }
                }
            },
            None => {
                assert forall|m: int| 0 <= m < s.len() implies s[m] != c by {
                    if m >= 1 {
                        assert(d[m - 1] == s[m]);
                    }
                }
            },
        }
    }
}

/// Scans `s` from position `from` for the first occurrence of `c`,
/// reporting the position in `s` and pinning `find_char` on the suffix.
pub fn find_char_from(s: &str, from: usize, c: char) -> (r: Option<usize>)
    requires
        from <= s@.len(),
    ensures
        match r {
            Some(p) => {
                &&& from <= p < s@.len()
                &&& s@[p as int] == c
                &&& (forall|m: int| from <= m < p ==> s@[m] != c)
                &&& find_char(s@.subrange(from as int, s@.len() as int), c) == Some(p - from)
            },
            None => {
                &&& (forall|m: int| from <= m < s@.len() ==> s@[m] != c)
                &&& find_char(s@.subrange(from as int, s@.len() as int), c) is None
            },
        },
{
    let len = s.unicode_len();
    let mut i: usize = from;
    let mut hit: Option<usize> = None;
    while i < len
        invariant
            from <= i <= len,
            len == s@.len(),
            match hit {
                Some(p) => from <= p < len && s@[p as int] == c && (forall|m: int|
                    from <= m < p ==> s@[m] != c),
                None => forall|m: int| from <= m < i ==> s@[m] != c,
            },
            hit is Some ==> i == len,
        decreases len - i,
    {
        if s.get_char(i) == c {
            hit = Some(i);
            i = len;
        } else {
            i += 1;
        }
    }
    proof {
        let sub = s@.subrange(from as int, s@.len() as int);
        lemma_find_char(sub, c);
        match hit {
            Some(p) => {
                assert(sub[p - from] == c);
                match find_char(sub, c) {
                    Some(j) => {
                        assert(s@[from + j] == sub[j]);
                    },
                    None => {},
                }
            },
            None => {
                match find_char(sub, c) {
                    Some(j) => {
                        assert(s@[from + j] == sub[j]);
                    },
                    None => {},
                }
            },
        }
    }
    hit
}

/// The parts joined with a single space between neighbours, in order.
pub open spec fn join_spaced(parts: Seq<Seq<char>>) -> Seq<char>
    decreases parts.len(),
{
    if parts.len() == 0 {
        Seq::empty()
    } else if parts.len() == 1 {
        parts[0]
    } else {
        parts[0] + " "@ + join_spaced(parts.drop_first())
    }
}

/// Appending one more part extends the join by one space and that part.
pub proof fn lemma_join_spaced_push(parts: Seq<Seq<char>>, x: Seq<char>)
    ensures
        join_spaced(parts.push(x)) == if parts.len() == 0 {
            x
        } else {
            join_spaced(parts) + " "@ + x
        },
    decreases parts.len(),
{
    let whole = parts.push(x);
    if parts.len() == 0 {
        assert(whole[0] == x);
        assert(join_spaced(whole) == x);
    } else {
        assert(whole.drop_first() =~= parts.drop_first().push(x));
        lemma_join_spaced_push(parts.drop_first(), x);
        if parts.len() == 1 {
            assert(join_spaced(whole) == whole[0] + " "@ + join_spaced(whole.drop_first()));
            assert(join_spaced(whole.drop_first()) == x);
            assert(join_spaced(parts) == parts[0]);
        } else {
            assert(join_spaced(whole) == whole[0] + " "@ + join_spaced(whole.drop_first()));
            assert(join_spaced(whole.drop_first()) == join_spaced(parts.drop_first()) + " "@ + x);
            assert(join_spaced(parts) == parts[0] + " "@ + join_spaced(parts.drop_first()));
            assert((parts[0] + " "@ + join_spaced(parts.drop_first())) + " "@ + x =~= parts[0]
                + " "@ + (join_spaced(parts.drop_first()) + " "@ + x));
        }
    }
}

/// Joins the strings with a single space between neighbours, keeping order.
pub fn join_with_spaces(parts: &Vec<String>) -> (r: String)
    ensures
        r@ == join_spaced(parts.deep_view()),
{
    let mut r = String::new();
    let mut i: usize = 0;
    while i < parts.len()
        invariant
            i <= parts.len(),
            r@ == join_spaced(parts.deep_view().take(i as int)),
        decreases parts.len() - i,
    {
        if i > 0 {
            r.append(" ");
        }
        r.append(parts[i].as_str());
        proof {
            let prefix = parts.deep_view().take(i as int);
            lemma_join_spaced_push(prefix, parts.deep_view()[i as int]);
            assert(parts.deep_view().take(i + 1) =~= prefix.push(parts.deep_view()[i as int]));
            assert(parts.deep_view()[i as int] == parts@[i as int]@);
        }
        i += 1;
    }
    proof {
        assert(parts.deep_view().take(parts.len() as int) =~= parts.deep_view());
    }
    r
}

} // verus!
