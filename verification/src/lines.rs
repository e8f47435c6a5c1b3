//! Character scanning helpers: searching, blanks, literals, and lines.

use vstd::prelude::*;

verus! {

/// Index of the first `c` at or after `i`, or -1.
pub open spec fn find_from(s: Seq<char>, i: int, c: char) -> int
    decreases s.len() - i,
{
    if i < 0 || i >= s.len() {
        -1
    } else if s[i] == c {
        i
    } else {
        find_from(s, i + 1, c)
    }
}

pub proof fn lemma_find_from(s: Seq<char>, i: int, c: char)
    requires
        0 <= i,
    ensures
        find_from(s, i, c) == -1 || (i <= find_from(s, i, c) < s.len() && s[find_from(s, i, c)] == c),
        forall|j: int| i <= j < s.len() && (find_from(s, i, c) == -1 || j < find_from(s, i, c)) ==> s[j] != c,
    decreases s.len() - i,
{
    if i < s.len() && s[i] != c {
        lemma_find_from(s, i + 1, c);
    }
}

/// Finds the first `c` at or after `i`.
pub fn find_char_from(s: &Vec<char>, i: usize, c: char) -> (r: Option<usize>)
    requires
        i <= s@.len(),
    ensures
        match r {
            Some(p) => p as int == find_from(s@, i as int, c) && i <= p < s@.len(),
            None => find_from(s@, i as int, c) == -1,
        },
{
    let mut j = i;
    while j < s.len()
        invariant
            i <= j <= s@.len(),
            find_from(s@, i as int, c) == find_from(s@, j as int, c),
        decreases s@.len() - j,
    {
        if s[j] == c {
            return Some(j);
        }
        j = j + 1;
    }
    None
}

/// Blank characters inside a line.
pub open spec fn is_blank(c: char) -> bool {
    c == ' ' || c == '\t' || c == '\r'
}

/// Index of the first non-blank character at or after `i`.
pub open spec fn skip_blank(s: Seq<char>, i: int) -> int
    decreases s.len() - i,
{
    if 0 <= i < s.len() && is_blank(s[i]) {
        skip_blank(s, i + 1)
    } else {
        i
    }
}

pub proof fn lemma_skip_blank(s: Seq<char>, i: int)
    requires
        0 <= i <= s.len(),
    ensures
        i <= skip_blank(s, i) <= s.len(),
    decreases s.len() - i,
{
    if i < s.len() && is_blank(s[i]) {
        lemma_skip_blank(s, i + 1);
    }
}

pub fn skip_blank_exec(s: &Vec<char>, i: usize) -> (r: usize)
    requires
        i <= s@.len(),
    ensures
        r as int == skip_blank(s@, i as int),
        i <= r <= s@.len(),
{
    let mut j = i;
    while j < s.len() && (s[j] == ' ' || s[j] == '\t' || s[j] == '\r')
        invariant
            i <= j <= s@.len(),
            skip_blank(s@, i as int) == skip_blank(s@, j as int),
        decreases s@.len() - j,
    {
        j = j + 1;
    }
    j
}

/// `lit` occurs in `s` at index `i`.
pub open spec fn has_at(s: Seq<char>, i: int, lit: Seq<char>) -> bool {
    0 <= i && i + lit.len() <= s.len() && s.subrange(i, i + lit.len()) == lit
}

pub fn has_at_exec(s: &Vec<char>, i: usize, lit: &Vec<char>) -> (r: bool)
    ensures
        r == has_at(s@, i as int, lit@),
{
    if i > s.len() || lit.len() > s.len() - i {
        return false;
    }
    let mut j: usize = 0;
    let n = s.len();
    while j < lit.len()
        invariant
            n == s@.len(),
            i + lit@.len() <= s@.len(),
            j <= lit@.len(),
            forall|m: int| 0 <= m < j ==> s@[i + m] == lit@[m],
        decreases lit@.len() - j,
    {
        assert(i + j < s@.len());
        if s[i + j] != lit[j] {
            assert(s@.subrange(i as int, i + lit@.len())[j as int] != lit@[j as int]);
            return false;
        }
        j = j + 1;
    }
    assert(s@.subrange(i as int, i + lit@.len()) =~= lit@);
    true
}

/// The lines of `s` from index `i` on, split at `\n`.
pub open spec fn lines_from(s: Seq<char>, i: int) -> Seq<Seq<char>>
    decreases s.len() - i,
{
    if i < 0 || i > s.len() {
        Seq::empty()
    } else {
        let e = find_from(s, i, '\n');
        proof { lemma_find_from(s, i, '\n'); }
        if e < i {
            seq![s.subrange(i, s.len() as int)]
        } else {
            seq![s.subrange(i, e)].add(lines_from(s, e + 1))
        }
    }
}

/// The lines of a text.
pub open spec fn spec_lines(s: Seq<char>) -> Seq<Seq<char>> {
    lines_from(s, 0)
}

/// Splits a text into its lines at `\n` (a final newline gives a final empty line).
pub fn split_lines(s: &Vec<char>) -> (r: Vec<Vec<char>>)
    ensures
        r@.map_values(|l: Vec<char>| l@) == spec_lines(s@),
{
    let mut r: Vec<Vec<char>> = Vec::new();
    let mut i: usize = 0;
    let n = s.len();
    loop
        invariant
            n == s@.len(),
            i <= s@.len(),
            spec_lines(s@) == r@.map_values(|l: Vec<char>| l@) + lines_from(s@, i as int),
        decreases s@.len() - i,
    {
        proof { lemma_find_from(s@, i as int, '\n'); }
        let ghost old_r = r@;
        match find_char_from(s, i, '\n') {
            Some(e) => {
                let line = s_range(s, i, e);
                r.push(line);
                assert(r@.map_values(|l: Vec<char>| l@) =~= old_r.map_values(|l: Vec<char>| l@).push(s@.subrange(i as int, e as int)));
                assert(lines_from(s@, i as int) == seq![s@.subrange(i as int, e as int)].add(lines_from(s@, e + 1)));
                assert(spec_lines(s@) =~= r@.map_values(|l: Vec<char>| l@) + lines_from(s@, e + 1));
                i = e + 1;
            },
            None => {
                let line = s_range(s, i, s.len());
                r.push(line);
                assert(r@.map_values(|l: Vec<char>| l@) =~= old_r.map_values(|l: Vec<char>| l@).push(s@.subrange(i as int, s@.len() as int)));
                assert(spec_lines(s@) =~= r@.map_values(|l: Vec<char>| l@));
                return r;
            },
        }
    }
}

/// Copies `s[from..to]`.
pub fn s_range(s: &Vec<char>, from: usize, to: usize) -> (r: Vec<char>)
    requires
        from <= to <= s@.len(),
    ensures
        r@ == s@.subrange(from as int, to as int),
{
    let mut r: Vec<char> = Vec::new();
    let mut j = from;
    while j < to
        invariant
            from <= j <= to <= s@.len(),
            r@ == s@.subrange(from as int, j as int),
        decreases to - j,
    {
        r.push(s[j]);
        assert(s@.subrange(from as int, j + 1) =~= s@.subrange(from as int, j as int).push(s@[j as int]));
        j = j + 1;
    }
    r
}

/// Line `n` (1-based) of a text, or the empty line when there is none.
pub open spec fn spec_line_at(lines: Seq<Seq<char>>, n: int) -> Seq<char> {
    if 1 <= n <= lines.len() { lines[n - 1] } else { Seq::empty() }
}

} // verus!
