//! Glob patterns over dotted translation keys.

use vstd::prelude::*;
use crate::strmap::StrSet;
use crate::text::{chars_of};

verus! {

/// `*` matches any run of characters without a `.`; other characters match themselves.
pub open spec fn glob_match_at(p: Seq<char>, i: int, k: Seq<char>, j: int) -> bool
    decreases p.len() - i + k.len() - j, (if i < p.len() && p[i] == '*' { 1int } else { 0int }),
{
    if i < 0 || j < 0 || i > p.len() || j > k.len() {
        false
    } else if i == p.len() {
        j == k.len()
    } else if p[i] == '*' {
        glob_match_at(p, i + 1, k, j) || (j < k.len() && k[j] != '.' && glob_match_at(p, i, k, j + 1))
    } else {
        j < k.len() && k[j] == p[i] && glob_match_at(p, i + 1, k, j + 1)
    }
}

pub open spec fn glob_match(p: Seq<char>, k: Seq<char>) -> bool {
    glob_match_at(p, 0, k, 0)
}

/// A pattern is a glob if it contains `*`.
pub open spec fn spec_is_glob(p: Seq<char>) -> bool {
    p.contains('*')
}

/// Whether the pattern contains a wildcard.
pub fn is_glob_pattern(p: &str) -> (r: bool)
    ensures
        r == spec_is_glob(p@),
{
    let v = chars_of(p);
    let mut i: usize = 0;
    while i < v.len()
        invariant
            v@ == p@,
            i <= v@.len(),
            forall|j: int| 0 <= j < i ==> v@[j] != '*',
        decreases v@.len() - i,
    {
        if v[i] == '*' {
            assert(p@[i as int] == '*');
            return true;
        }
        i = i + 1;
    }
    false
}

fn glob_match_exec(p: &Vec<char>, i: usize, k: &Vec<char>, j: usize) -> (r: bool)
    requires
        i <= p@.len(),
        j <= k@.len(),
    ensures
        r == glob_match_at(p@, i as int, k@, j as int),
    decreases p@.len() - i + k@.len() - j, (if i < p@.len() && p@[i as int] == '*' { 1int } else { 0int }),
{
    if i == p.len() {
        j == k.len()
    } else if p[i] == '*' {
        if glob_match_exec(p, i + 1, k, j) {
            true
        } else if j < k.len() && k[j] != '.' {
            glob_match_exec(p, i, k, j + 1)
        } else {
            false
        }
    } else {
        j < k.len() && k[j] == p[i] && glob_match_exec(p, i + 1, k, j + 1)
    }
}

/// Whether `key` matches the glob `pattern`.
pub fn glob_matches(pattern: &str, key: &str) -> (r: bool)
    ensures
        r == glob_match(pattern@, key@),
{
    let p = chars_of(pattern);
    let k = chars_of(key);
    glob_match_exec(&p, 0, &k, 0)
}

/// The keys of `s` that match `p`, in insertion order.
pub open spec fn matching_keys(s: Seq<(String, ())>, p: Seq<char>) -> Seq<Seq<char>>
    decreases s.len(),
{
    if s.len() == 0 {
        Seq::empty()
    } else if glob_match(p, s.last().0@) {
        matching_keys(s.drop_last(), p).push(s.last().0@)
    } else {
        matching_keys(s.drop_last(), p)
    }
}

/// Expands a glob pattern against the available keys.
pub fn expand_glob_pattern(pattern: &str, available_keys: &StrSet) -> (r: Vec<String>)
    ensures
        r@.map_values(|x: String| x@) == matching_keys(available_keys.spec_items(), pattern@),
{
    let items = available_keys.items();
    let mut r: Vec<String> = Vec::new();
    let mut i: usize = 0;
    while i < items.len()
        invariant
            items@ == available_keys.spec_items(),
            i <= items@.len(),
            r@.map_values(|x: String| x@) == matching_keys(items@.take(i as int), pattern@),
        decreases items@.len() - i,
    {
        let ghost old_r = r@;
        proof {
            assert(items@.take(i + 1).drop_last() =~= items@.take(i as int));
        }
        if glob_matches(pattern, items[i].0.as_str()) {
            r.push(items[i].0.clone());
            assert(r@.map_values(|x: String| x@) =~= old_r.map_values(|x: String| x@).push(items@[i as int].0@));
        }
        i = i + 1;
    }
    assert(items@.take(items@.len() as int) =~= items@);
    r
}

} // verus!
