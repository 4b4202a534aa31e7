//! The matching rule applied to every derived address: match-all, a literal
//! prefix or suffix, or a dictionary of fixed-width tokens checked against
//! both ends of the address.
use vstd::prelude::*;
use vstd::string::StrSliceExecFns;
use crate::cli::Cli;
use crate::wallet::Wallet;

verus! {

/// Length of an address's canonical textual encoding: a 2-character scheme
/// marker followed by a 40-character body.
pub open spec fn addr_len() -> int {
    42
}

/// Width every dictionary token must have.
pub open spec fn token_len() -> int {
    4
}

/// The four characters of the address body just after the scheme marker.
pub open spec fn addr_head(addr: Seq<char>) -> Seq<char> {
    addr.subrange(2, 6)
}

/// The last four characters of the 42-character encoding.
pub open spec fn addr_tail(addr: Seq<char>) -> Seq<char> {
    addr.subrange(addr_len() - 4, addr_len())
}

/// Every character of `s` equals its first; vacuously true of an empty
/// sequence.
pub open spec fn all_same_char(s: Seq<char>) -> bool {
    forall|i: int| 0 <= i < s.len() ==> #[trigger] s[i] == s[0]
}

/// The address, its scheme marker excluded, starts with `p`.
pub open spec fn has_prefix(addr: Seq<char>, p: Seq<char>) -> bool {
    &&& 2 + p.len() <= addr.len()
    &&& addr.subrange(2, 2 + p.len() as int) == p
}

/// The 42-character encoding ends with `s`.
pub open spec fn has_suffix(addr: Seq<char>, s: Seq<char>) -> bool {
    &&& s.len() <= addr_len()
    &&& addr.subrange(addr_len() - s.len(), addr_len()) == s
}

/// Some token of the dictionary reads `w`.
pub open spec fn dict_contains(d: Seq<String>, w: Seq<char>) -> bool {
    exists|i: int| 0 <= i < d.len() && d[i]@ == w
}

/// The dictionary-pair rule: head and tail are both dictionary tokens, or
/// both are runs of one repeated character (the fallback that rewards
/// naturally pretty addresses independent of the dictionary).
pub open spec fn dict_matches(d: Seq<String>, addr: Seq<char>) -> bool {
    ||| (dict_contains(d, addr_head(addr)) && dict_contains(d, addr_tail(addr)))
    ||| (all_same_char(addr_head(addr)) && all_same_char(addr_tail(addr)))
}

/// An immutable matching rule, built once from configuration.
#[derive(Debug)]
pub enum Selector {
    MatchAll,
    Prefix(String),
    Suffix(String),
    Dictionary(Vec<String>),
}

/// What each selector variant accepts, over the address's canonical
/// textual encoding.
pub open spec fn selector_matches(sel: Selector, addr: Seq<char>) -> bool {
    match sel {
        Selector::MatchAll => true,
        Selector::Prefix(p) => has_prefix(addr, p@),
        Selector::Suffix(s) => has_suffix(addr, s@),
        Selector::Dictionary(d) => dict_matches(d@, addr),
    }
}

/// A dictionary token of the wrong width, rejected at load time: the
/// offending token together with its actual length.
#[derive(Debug)]
pub struct LoadError {
    pub token: String,
    pub length: usize,
}

/// Every line has exactly the required token width.
pub open spec fn all_tokens_valid(lines: Seq<String>) -> bool {
    forall|i: int| 0 <= i < lines.len() ==> lines[i]@.len() == token_len()
}

/// `d` is `lines` with duplicates collapsed: every token of `d` occurs in
/// `lines`, every line occurs in `d`, no token occurs in `d` twice, and
/// every token has the required width.
pub open spec fn dictionary_of(d: Seq<String>, lines: Seq<String>) -> bool {
    &&& forall|i: int| 0 <= i < d.len() ==> dict_contains(lines, #[trigger] d[i]@)
    &&& forall|j: int| 0 <= j < lines.len() ==> dict_contains(d, #[trigger] lines[j]@)
    &&& forall|i: int, j: int| 0 <= i < j < d.len() ==> d[i]@ != d[j]@
    &&& all_tokens_valid(d)
}

/// `e` reports the first line whose width is wrong.
pub open spec fn reports_first_invalid(e: LoadError, lines: Seq<String>) -> bool {
    exists|i: int|
        {
            &&& 0 <= i < lines.len()
            &&& lines[i]@.len() != token_len()
            &&& e.token@ == lines[i]@
            &&& e.length == lines[i]@.len()
            &&& (forall|j: int| 0 <= j < i ==> lines[j]@.len() == token_len())
        }
}

/// Collapsing duplicates loses nothing: a dictionary built from a line
/// list contains exactly the tokens the lines contain.
pub proof fn lemma_dictionary_membership(d: Seq<String>, lines: Seq<String>, w: Seq<char>)
    requires
        dictionary_of(d, lines),
    ensures
        dict_contains(d, w) <==> dict_contains(lines, w),
{
    if dict_contains(d, w) {
        let i = choose|i: int| 0 <= i < d.len() && d[i]@ == w;
        assert(dict_contains(lines, d[i]@));
    }
    if dict_contains(lines, w) {
        let j = choose|j: int| 0 <= j < lines.len() && lines[j]@ == w;
        assert(dict_contains(d, lines[j]@));
    }
}

/// Hence the dictionary-pair rule decides alike over the collapsed
/// dictionary and over the raw lines it was loaded from.
pub proof fn lemma_dictionary_matches_lines(d: Seq<String>, lines: Seq<String>, addr: Seq<char>)
    requires
        dictionary_of(d, lines),
    ensures
        dict_matches(d, addr) == dict_matches(lines, addr),
{
    lemma_dictionary_membership(d, lines, addr_head(addr));
    lemma_dictionary_membership(d, lines, addr_tail(addr));
}

/// Whether every character of `s` equals its first (an empty string counts).
pub fn is_all_same_char(s: &str) -> (r: bool)
    ensures
        r == all_same_char(s@),
{
    let n = s.unicode_len();
    if n == 0 {
        return true;
    }
    let first = s.get_char(0);
    let mut i: usize = 1;
    while i < n
        invariant
            1 <= i <= n,
            n == s@.len(),
            first == s@[0],
            forall|j: int| 0 <= j < i ==> #[trigger] s@[j] == s@[0],
        decreases n - i,
    {
        if s.get_char(i) != first {
            proof {
                assert(s@[i as int] != s@[0]);
            }
            return false;
        }
        i += 1;
    }
    true
}

/// Whether the address, its first two characters excluded, starts with
/// `prefix`.
pub fn addr_has_prefix(addr: &str, prefix: &str) -> (r: bool)
    requires
        addr@.len() >= 2,
    ensures
        r == has_prefix(addr@, prefix@),
{
    let alen = addr.unicode_len();
    let plen = prefix.unicode_len();
    if plen > alen - 2 {
        return false;
    }
    let mut i: usize = 0;
    while i < plen
        invariant
            0 <= i <= plen,
            plen + 2 <= alen,
            alen == addr@.len(),
            plen == prefix@.len(),
            forall|j: int| 0 <= j < i ==> addr@[2 + j] == prefix@[j],
        decreases plen - i,
    {
        if addr.get_char(2 + i) != prefix.get_char(i) {
            proof {
                assert(addr@.subrange(2, 2 + prefix@.len() as int)[i as int] == addr@[2 + i]);
            }
            return false;
        }
        i += 1;
    }
    proof {
        assert(addr@.subrange(2, 2 + prefix@.len() as int) =~= prefix@);
    }
    true
}

/// Whether the 42-character encoding ends with `suffix`.
pub fn addr_has_suffix(addr: &str, suffix: &str) -> (r: bool)
    requires
        addr@.len() == addr_len(),
    ensures
        r == has_suffix(addr@, suffix@),
{
    let slen = suffix.unicode_len();
    if slen > 42 {
        return false;
    }
    let start = 42 - slen;
    let mut i: usize = 0;
    while i < slen
        invariant
            0 <= i <= slen,
            slen <= 42,
            start == 42 - slen,
            addr@.len() == 42,
            slen == suffix@.len(),
            forall|j: int| 0 <= j < i ==> addr@[start + j] == suffix@[j],
        decreases slen - i,
    {
        if addr.get_char(start + i) != suffix.get_char(i) {
            proof {
                assert(addr@.subrange(addr_len() - suffix@.len(), addr_len())[i as int]
                    == addr@[start + i]);
            }
            return false;
        }
        i += 1;
    }
    proof {
        assert(addr@.subrange(addr_len() - suffix@.len(), addr_len()) =~= suffix@);
    }
    true
}

/// Whether some token of `d` reads as `w`.
fn dict_contains_token(d: &Vec<String>, w: &str) -> (r: bool)
    ensures
        r == dict_contains(d@, w@),
{
    let wo: String = w.to_owned();
    let mut i: usize = 0;
    while i < d.len()
        invariant
            0 <= i <= d@.len(),
            wo@ == w@,
            forall|j: int| 0 <= j < i ==> d@[j]@ != w@,
        decreases d@.len() - i,
    {
        if d[i] == wo {
            return true;
        }
        i += 1;
    }
    false
}

/// The dictionary-pair test: both head and tail of the address are tokens
/// of the dictionary, or both are runs of one repeated character.
pub fn addr_matches_map(prefixes: &Vec<String>, addr: &str) -> (r: bool)
    requires
        addr@.len() == addr_len(),
    ensures
        r == dict_matches(prefixes@, addr@),
{
    let head = addr.substring_char(2, 6);
    let tail = addr.substring_char(38, 42);
    (dict_contains_token(prefixes, head) && dict_contains_token(prefixes, tail)) || (
    is_all_same_char(head) && is_all_same_char(tail))
}

/// Collapses the lines of a dictionary file into a duplicate-free token
/// list, rejecting the first line whose width is not exactly the token
/// width, with that token and its length in the error.
pub fn load_prefixes(lines: &Vec<String>) -> (r: Result<Vec<String>, LoadError>)
    ensures
        r is Ok <==> all_tokens_valid(lines@),
        r matches Ok(d) ==> dictionary_of(d@, lines@),
        r matches Err(e) ==> reports_first_invalid(e, lines@),
{
    let mut prefixes: Vec<String> = Vec::new();
    let mut i: usize = 0;
    while i < lines.len()
        invariant
            0 <= i <= lines@.len(),
            forall|j: int| 0 <= j < i ==> lines@[j]@.len() == token_len(),
            forall|k: int| 0 <= k < prefixes@.len() ==> dict_contains(
                lines@.take(i as int),
                #[trigger] prefixes@[k]@,
            ),
            forall|j: int| 0 <= j < i ==> dict_contains(prefixes@, #[trigger] lines@[j]@),
            forall|k: int, l: int| 0 <= k < l < prefixes@.len() ==> prefixes@[k]@ != prefixes@[l]@,
            all_tokens_valid(prefixes@),
        decreases lines@.len() - i,
    {
        let word = &lines[i];
        if word.unicode_len() != 4 {
            return Err(LoadError { token: word.clone(), length: word.unicode_len() });
        }
        let ghost pre = prefixes@;
        let already = dict_contains_token(&prefixes, word.as_str());
        if !already {
            prefixes.push(word.clone());
        }
        proof {
            assert forall|j: int| 0 <= j < i + 1 implies dict_contains(
                prefixes@,
                #[trigger] lines@[j]@,
            ) by {
                if j < i {
                    let w = choose|w: int| 0 <= w < pre.len() && pre[w]@ == lines@[j]@;
                    assert(prefixes@[w]@ == lines@[j]@);
                } else if already {
                    let w = choose|w: int| 0 <= w < pre.len() && pre[w]@ == lines@[i as int]@;
                    assert(prefixes@[w]@ == lines@[j]@);
                } else {
                    assert(prefixes@[prefixes@.len() - 1]@ == lines@[j]@);
                }
            }
        }
        proof {
            assert(lines@.take(i + 1) =~= lines@.take(i as int).push(lines@[i as int]));
            assert forall|k: int| 0 <= k < prefixes@.len() implies dict_contains(
                lines@.take(i + 1),
                #[trigger] prefixes@[k]@,
            ) by {
                if dict_contains(lines@.take(i as int), prefixes@[k]@) {
                    let w = choose|w: int|
                        0 <= w < lines@.take(i as int).len() && lines@.take(i as int)[w]@
                            == prefixes@[k]@;
                    assert(lines@.take(i + 1)[w]@ == prefixes@[k]@);
                } else {
                    assert(lines@.take(i + 1)[i as int]@ == prefixes@[k]@);
                }
            }
        }
        i += 1;
    }
    proof {
        assert(lines@.take(lines@.len() as int) =~= lines@);
    }
    Ok(prefixes)
}

/// Builds the matching rule from the configuration and, when a dictionary
/// file was named, its lines.  Precedence: dictionary, then suffix, then
/// prefix, then match-all.  Only the dictionary variant can fail, on the
/// first token of the wrong width.
pub fn create_selector(args: &Cli, dict_lines: &Option<Vec<String>>) -> (r: Result<
    Selector,
    LoadError,
>)
    requires
        dict_lines is Some <==> args.input is Some,
    ensures
        args.input is Some ==> (r is Ok <==> all_tokens_valid(dict_lines.unwrap()@)),
        args.input is Some ==> (r matches Ok(s) ==> (s matches Selector::Dictionary(d)
            && dictionary_of(d@, dict_lines.unwrap()@))),
        r matches Err(e) ==> args.input is Some && reports_first_invalid(
            e,
            dict_lines.unwrap()@,
        ),
        args.input is None && args.suffix is Some ==> (r matches Ok(s) && (s matches
        Selector::Suffix(x) && x@ == args.suffix.unwrap()@)),
        args.input is None && args.suffix is None && args.prefix is Some ==> (r matches Ok(s) && (
        s matches Selector::Prefix(x) && x@ == args.prefix.unwrap()@)),
        args.input is None && args.suffix is None && args.prefix is None ==> (r matches Ok(s) && (
        s matches Selector::MatchAll)),
{
    if args.input.is_some() {
        match dict_lines {
            Some(lines) => match load_prefixes(lines) {
                Ok(d) => Ok(Selector::Dictionary(d)),
                Err(e) => Err(e),
            },
            None => vstd::pervasive::unreached(),
        }
    } else if let Some(suffix) = &args.suffix {
        Ok(Selector::Suffix(suffix.clone()))
    } else if let Some(prefix) = &args.prefix {
        Ok(Selector::Prefix(prefix.clone()))
    } else {
        Ok(Selector::MatchAll)
    }
}

impl Selector {
    /// Whether a wallet's address satisfies this rule.
    pub fn matches(&self, wallet: &Wallet) -> (r: bool)
        requires
            wallet.address@.len() == addr_len(),
        ensures
            r == selector_matches(*self, wallet.address@),
    {
        match self {
            Selector::MatchAll => true,
            Selector::Prefix(p) => addr_has_prefix(wallet.address.as_str(), p.as_str()),
            Selector::Suffix(s) => addr_has_suffix(wallet.address.as_str(), s.as_str()),
            Selector::Dictionary(d) => addr_matches_map(d, wallet.address.as_str()),
        }
    }
}

} // verus!
