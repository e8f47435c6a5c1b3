//! `glot-disable-next-line` comments, as far as the extraction reads them.

use vstd::prelude::*;
use crate::lines::{has_at, has_at_exec, skip_blank, skip_blank_exec, spec_line_at};
use crate::text::chars_of;

verus! {

/// Index of the first occurrence of `lit` in `s` at or after `i`, or -1.
pub open spec fn find_text_from(s: Seq<char>, lit: Seq<char>, i: int) -> int
    decreases s.len() - i,
{
    if i < 0 || i >= s.len() || i + lit.len() > s.len() {
        -1
    } else if has_at(s, i, lit) {
        i
    } else {
        find_text_from(s, lit, i + 1)
    }
}

fn find_text(s: &Vec<char>, lit: &Vec<char>, from: usize) -> (r: Option<usize>)
    ensures
        match r {
            Some(i) => i as int == find_text_from(s@, lit@, from as int),
            None => find_text_from(s@, lit@, from as int) == -1,
        },
{
    let mut i = from;
    while i < s.len()
        invariant
            from <= i,
            find_text_from(s@, lit@, from as int) == find_text_from(s@, lit@, i as int),
        decreases s@.len() - i,
    {
        if lit.len() > s.len() - i {
            return None;
        }
        if has_at_exec(s, i, lit) {
            return Some(i);
        }
        i = i + 1;
    }
    None
}

/// A comment line that switches the `untranslated` rule off for the next line:
/// `glot-disable-next-line` followed by no rule name (the end of the line or
/// of the comment), or naming `untranslated`.
pub open spec fn disables_untranslated(line: Seq<char>) -> bool {
    let d = find_text_from(line, "glot-disable-next-line"@, 0);
    d >= 0 && {
        let after = d + "glot-disable-next-line"@.len();
        let j = skip_blank(line, after);
        j >= line.len() || has_at(line, j, "*/"@) || find_text_from(line, "untranslated"@, after) >= 0
    }
}

/// Whether the line before line `n` (1-based) disables the `untranslated` rule for it.
pub open spec fn spec_untranslated_disabled(lines: Seq<Seq<char>>, n: int) -> bool {
    n >= 2 && n - 1 <= lines.len() && disables_untranslated(spec_line_at(lines, n - 1))
}

/// Reads a directive line (see [`disables_untranslated`]).
pub fn line_disables_untranslated(line: &Vec<char>) -> (r: bool)
    ensures
        r == disables_untranslated(line@),
{
    let directive = chars_of("glot-disable-next-line");
    let n = line.len();
    match find_text(line, &directive, 0) {
        None => false,
        Some(d) => {
            proof {
                lemma_find_bounds(line@, directive@, 0);
                assert(find_text_from(line@, directive@, 0) == d as int);
                assert(d as int + directive@.len() <= line@.len());
            }
            let after = d + directive.len();
            let j = skip_blank_exec(line, after);
            if j >= line.len() {
                return true;
            }
            let close = chars_of("*/");
            if has_at_exec(line, j, &close) {
                return true;
            }
            let rule = chars_of("untranslated");
            match find_text(line, &rule, after) {
                Some(_) => true,
                None => false,
            }
        },
    }
}

proof fn lemma_find_bounds(s: Seq<char>, lit: Seq<char>, i: int)
    ensures
        find_text_from(s, lit, i) >= 0 ==> i <= find_text_from(s, lit, i)
            && find_text_from(s, lit, i) + lit.len() <= s.len(),
    decreases s.len() - i,
{
    if !(i < 0 || i >= s.len() || i + lit.len() > s.len()) && !has_at(s, i, lit) {
        lemma_find_bounds(s, lit, i + 1);
    }
}

/// Whether line `n` of a text (its lines given) is exempt from the `untranslated` rule.
pub fn untranslated_disabled_at(lines: &Vec<Vec<char>>, n: usize) -> (r: bool)
    ensures
        r == spec_untranslated_disabled(lines@.map_values(|l: Vec<char>| l@), n as int),
{
    if n >= 2 && n - 1 <= lines.len() {
        line_disables_untranslated(&lines[n - 2])
    } else {
        false
    }
}

} // verus!
