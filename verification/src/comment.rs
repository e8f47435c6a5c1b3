//! `glot-message-keys` annotations in source comments.
//!
//! A line such as `// glot-message-keys "Common.a", "Common.b"` or
//! `{/* glot-message-keys "Common.*" */}` declares the keys that a dynamic
//! translation call on the same or the next line may use.

use vstd::prelude::*;
use crate::lines::{find_char_from, find_from, has_at, has_at_exec, lemma_find_from, s_range, skip_blank, skip_blank_exec, spec_lines, split_lines};
use crate::text::{chars_of, string_from_chars, text};

verus! {

/// The directive word.
pub open spec fn directive() -> Seq<char> {
    "glot-message-keys"@
}

/// Index where the text after a comment opener (`//`, `{/*` or `/*`) begins, or -1.
pub open spec fn comment_body_start(s: Seq<char>) -> int {
    let t = skip_blank(s, 0);
    if has_at(s, t, "//"@) {
        t + 2
    } else if has_at(s, t, "{/*"@) {
        t + 3
    } else if has_at(s, t, "/*"@) {
        t + 2
    } else {
        -1
    }
}

/// Index just after the directive word of an annotation line, or -1.
pub open spec fn directive_end(s: Seq<char>) -> int {
    let b = comment_body_start(s);
    if b < 0 {
        -1
    } else {
        let k = skip_blank(s, b);
        if has_at(s, k, directive()) { k + directive().len() } else { -1 }
    }
}

/// The double-quoted strings of `s` from index `i` on.
pub open spec fn quoted_from(s: Seq<char>, i: int) -> Seq<Seq<char>>
    decreases s.len() - i,
{
    if i < 0 || i > s.len() {
        Seq::empty()
    } else {
        let a = find_from(s, i, '"');
        proof { lemma_find_from(s, i, '"'); }
        if a < i {
            Seq::empty()
        } else {
            let b = find_from(s, a + 1, '"');
            proof { lemma_find_from(s, a + 1, '"'); }
            if b <= a {
                Seq::empty()
            } else {
                seq![s.subrange(a + 1, b)].add(quoted_from(s, b + 1))
            }
        }
    }
}

/// The patterns written on one line (none if the line is no annotation).
pub open spec fn line_patterns(s: Seq<char>) -> Seq<Seq<char>> {
    let e = directive_end(s);
    if e < 0 { Seq::empty() } else { quoted_from(s, e) }
}

/// A pattern that may not be used: empty, `*`, or starting with a wildcard segment.
pub open spec fn spec_invalid_pattern(p: Seq<char>) -> bool {
    p.len() == 0 || p == "*"@ || has_at(p, 0, "*."@)
}

/// The valid patterns, in order.
pub open spec fn valid_patterns(ps: Seq<Seq<char>>) -> Seq<Seq<char>>
    decreases ps.len(),
{
    if ps.len() == 0 {
        Seq::empty()
    } else if spec_invalid_pattern(ps.last()) {
        valid_patterns(ps.drop_last())
    } else {
        valid_patterns(ps.drop_last()).push(ps.last())
    }
}

/// The invalid patterns, in order.
pub open spec fn invalid_patterns(ps: Seq<Seq<char>>) -> Seq<Seq<char>>
    decreases ps.len(),
{
    if ps.len() == 0 {
        Seq::empty()
    } else if spec_invalid_pattern(ps.last()) {
        invalid_patterns(ps.drop_last()).push(ps.last())
    } else {
        invalid_patterns(ps.drop_last())
    }
}

/// The message of the warning for an invalid pattern.
pub open spec fn spec_warning_message(p: Seq<char>) -> Seq<char> {
    if p.len() == 0 {
        "empty pattern in glot-message-keys"@
    } else {
        "pattern must not start with a wildcard segment"@
    }
}

/// One annotation: the (1-based) line and its valid patterns.
#[derive(Debug)]
pub struct MessageKeysAnnotation {
    pub line: usize,
    pub patterns: Vec<String>,
}

/// A pattern that was rejected.
#[derive(Debug)]
pub struct PatternWarning {
    pub file_path: String,
    pub line: usize,
    pub pattern: String,
    pub message: String,
}

/// All annotations of a file and the warnings about rejected patterns.
#[derive(Debug)]
pub struct ExtractResult {
    pub annotations: Vec<MessageKeysAnnotation>,
    pub warnings: Vec<PatternWarning>,
}

/// Annotations of lines `0..n` (line numbers are 1-based).
pub open spec fn annotations_upto(lines: Seq<Seq<char>>, n: int) -> Seq<(int, Seq<Seq<char>>)>
    decreases n,
{
    if n <= 0 {
        Seq::empty()
    } else {
        let prev = annotations_upto(lines, n - 1);
        let ps = valid_patterns(line_patterns(lines[n - 1]));
        if ps.len() > 0 { prev.push((n, ps)) } else { prev }
    }
}

/// Rejected patterns of lines `0..n`, with their line numbers.
pub open spec fn warnings_upto(lines: Seq<Seq<char>>, n: int) -> Seq<(int, Seq<char>)>
    decreases n,
{
    if n <= 0 {
        Seq::empty()
    } else {
        warnings_upto(lines, n - 1) + invalid_patterns(line_patterns(lines[n - 1])).map_values(|p: Seq<char>| (n, p))
    }
}

pub open spec fn annotation_view(a: MessageKeysAnnotation) -> (int, Seq<Seq<char>>) {
    (a.line as int, a.patterns@.map_values(|p: String| p@))
}

pub open spec fn warning_view(w: PatternWarning) -> (int, Seq<char>) {
    (w.line as int, w.pattern@)
}

fn quoted_exec(s: &Vec<char>, i: usize) -> (r: Vec<Vec<char>>)
    requires
        i <= s@.len(),
    ensures
        r@.map_values(|p: Vec<char>| p@) == quoted_from(s@, i as int),
    decreases s@.len() - i,
{
    let len = s.len();
    proof { lemma_find_from(s@, i as int, '"'); }
    match find_char_from(s, i, '"') {
        None => Vec::new(),
        Some(a) => {
            proof { lemma_find_from(s@, a + 1, '"'); }
            match find_char_from(s, a + 1, '"') {
                None => {
                    let r: Vec<Vec<char>> = Vec::new();
                    assert(r@.map_values(|p: Vec<char>| p@) =~= Seq::<Seq<char>>::empty());
                    r
                },
                Some(b) => {
                    let first = s_range(s, a + 1, b);
                    let rest = quoted_exec(s, b + 1);
                    let mut r: Vec<Vec<char>> = Vec::new();
                    r.push(first);
                    let ghost rv = r@;
                    let mut rest2 = rest;
                    let ghost restv = rest2@;
                    r.append(&mut rest2);
                    assert(r@ =~= rv + restv);
                    assert(r@.map_values(|p: Vec<char>| p@) =~= seq![s@.subrange(a + 1, b as int)].add(quoted_from(s@, b + 1)));
                    r
                },
            }
        },
    }
}

fn comment_body_start_exec(s: &Vec<char>) -> (r: Option<usize>)
    ensures
        match r {
            Some(b) => b as int == comment_body_start(s@) && b <= s@.len(),
            None => comment_body_start(s@) < 0,
        },
{
    proof { reveal_strlit("//"); reveal_strlit("{/*"); reveal_strlit("/*"); }
    let len = s.len();
    let t = skip_blank_exec(s, 0);
    let slash2 = chars_of("//");
    let brace = chars_of("{/*");
    let block = chars_of("/*");
    if has_at_exec(s, t, &slash2) {
        Some(t + 2)
    } else if has_at_exec(s, t, &brace) {
        Some(t + 3)
    } else if has_at_exec(s, t, &block) {
        Some(t + 2)
    } else {
        None
    }
}

/// The patterns written on one annotation line.
pub fn line_patterns_exec(s: &Vec<char>) -> (r: Vec<Vec<char>>)
    ensures
        r@.map_values(|p: Vec<char>| p@) == line_patterns(s@),
{
    proof { reveal_strlit("glot-message-keys"); }
    let len = s.len();
    match comment_body_start_exec(s) {
        None => {
            let r: Vec<Vec<char>> = Vec::new();
            assert(r@.map_values(|p: Vec<char>| p@) =~= Seq::<Seq<char>>::empty());
            r
        },
        Some(b) => {
            let k = skip_blank_exec(s, b);
            let d = chars_of("glot-message-keys");
            if has_at_exec(s, k, &d) {
                quoted_exec(s, k + 17)
            } else {
                let r: Vec<Vec<char>> = Vec::new();
                assert(r@.map_values(|p: Vec<char>| p@) =~= Seq::<Seq<char>>::empty());
                r
            }
        },
    }
}

/// Whether a pattern is rejected: empty, `*`, or starting with `*.`.
pub fn is_invalid_pattern(p: &Vec<char>) -> (r: bool)
    ensures
        r == spec_invalid_pattern(p@),
{
    proof { reveal_strlit("*"); reveal_strlit("*."); }
    if p.len() == 0 {
        return true;
    }
    if p.len() == 1 && p[0] == '*' {
        assert(p@ =~= "*"@);
        return true;
    }
    let pre = chars_of("*.");
    let r = has_at_exec(p, 0, &pre);
    if !r {
        assert(p@ != "*"@) by {
            if p@ == "*"@ { assert(p@.len() == 1); }
        }
    }
    r
}

/// Extracts all `glot-message-keys` annotations of a source text.
pub fn extract_glot_message_keys(source: &str, file_path: &str) -> (r: ExtractResult)
    ensures
        r.annotations@.map_values(|a: MessageKeysAnnotation| annotation_view(a))
            == annotations_upto(spec_lines(source@), spec_lines(source@).len() as int),
        r.warnings@.map_values(|w: PatternWarning| warning_view(w))
            == warnings_upto(spec_lines(source@), spec_lines(source@).len() as int),
        forall|i: int| 0 <= i < r.warnings@.len() ==> (#[trigger] r.warnings@[i]).file_path@ == file_path@
            && r.warnings@[i].message@ == spec_warning_message(r.warnings@[i].pattern@),
{
    let chars = chars_of(source);
    let lines = split_lines(&chars);
    let ghost lv = lines@.map_values(|l: Vec<char>| l@);
    let mut annotations: Vec<MessageKeysAnnotation> = Vec::new();
    let mut warnings: Vec<PatternWarning> = Vec::new();
    let mut n: usize = 0;
    let nl = lines.len();
    while n < lines.len()
        invariant
            nl == lines@.len(),
            lv == spec_lines(source@),
            lv == lines@.map_values(|l: Vec<char>| l@),
            n <= lines@.len(),
            annotations@.map_values(|a: MessageKeysAnnotation| annotation_view(a)) == annotations_upto(lv, n as int),
            warnings@.map_values(|w: PatternWarning| warning_view(w)) == warnings_upto(lv, n as int),
            forall|i: int| 0 <= i < warnings@.len() ==> (#[trigger] warnings@[i]).file_path@ == file_path@
                && warnings@[i].message@ == spec_warning_message(warnings@[i].pattern@),
        decreases lines@.len() - n,
    {
        let ps = line_patterns_exec(&lines[n]);
        let ghost psv = ps@.map_values(|p: Vec<char>| p@);
        assert(psv == line_patterns(lv[n as int]));
        let mut valid: Vec<String> = Vec::new();
        let ghost w0 = warnings@;
        let mut j: usize = 0;
        while j < ps.len()
            invariant
                psv == ps@.map_values(|p: Vec<char>| p@),
                j <= ps@.len(),
                valid@.map_values(|p: String| p@) == valid_patterns(psv.take(j as int)),
                warnings@.len() >= w0.len(),
                warnings@.take(w0.len() as int) == w0,
                warnings@.skip(w0.len() as int).map_values(|w: PatternWarning| warning_view(w))
                    == invalid_patterns(psv.take(j as int)).map_values(|p: Seq<char>| ((n + 1) as int, p)),
                forall|i: int| 0 <= i < warnings@.len() ==> (#[trigger] warnings@[i]).file_path@ == file_path@
                    && warnings@[i].message@ == spec_warning_message(warnings@[i].pattern@),
                n < lines@.len(),
                nl == lines@.len(),
            decreases ps@.len() - j,
        {
            let p = &ps[j];
            proof {
                assert(psv.take(j + 1).drop_last() =~= psv.take(j as int));
                assert(psv.take(j + 1).last() == p@);
            }
            let ghost wb = warnings@;
            let ghost vb = valid@;
            if is_invalid_pattern(p) {
                proof {
                    reveal_strlit("empty pattern in glot-message-keys");
                    reveal_strlit("pattern must not start with a wildcard segment");
                }
                let message = if p.len() == 0 {
                    text("empty pattern in glot-message-keys")
                } else {
                    text("pattern must not start with a wildcard segment")
                };
                warnings.push(PatternWarning {
                    file_path: text(file_path),
                    line: n + 1,
                    pattern: string_from_chars(p.as_slice()),
                    message,
                });
                proof {
                    let f = |p: Seq<char>| ((n + 1) as int, p);
                    assert(invalid_patterns(psv.take(j + 1)) == invalid_patterns(psv.take(j as int)).push(p@));
                    assert(invalid_patterns(psv.take(j + 1)).map_values(f) =~= invalid_patterns(psv.take(j as int)).map_values(f).push(((n + 1) as int, p@)));
                    assert(warning_view(warnings@.last()) == ((n + 1) as int, p@));
                    assert(warnings@.take(w0.len() as int) =~= w0);
                    assert(warnings@.skip(w0.len() as int) =~= wb.skip(w0.len() as int).push(warnings@.last()));
                    assert(warnings@.skip(w0.len() as int).map_values(|w: PatternWarning| warning_view(w)) =~=
                        invalid_patterns(psv.take(j + 1)).map_values(|p: Seq<char>| ((n + 1) as int, p)));
                }
            } else {
                valid.push(string_from_chars(p.as_slice()));
                assert(valid@.map_values(|p: String| p@) =~= vb.map_values(|p: String| p@).push(p@));
            }
            j = j + 1;
        }
        proof {
            assert(psv.take(ps@.len() as int) =~= psv);
            assert(warnings@ =~= w0 + warnings@.skip(w0.len() as int));
            assert(lv.take(n + 1).last() == lv[n as int]);
        }
        let ghost a0 = annotations@;
        if valid.len() > 0 {
            annotations.push(MessageKeysAnnotation { line: n + 1, patterns: valid });
            assert(annotations@.map_values(|a: MessageKeysAnnotation| annotation_view(a)) =~=
                a0.map_values(|a: MessageKeysAnnotation| annotation_view(a)).push(((n + 1) as int, valid_patterns(psv))));
        }
        proof {
            assert(warnings@.map_values(|w: PatternWarning| warning_view(w)) =~=
                w0.map_values(|w: PatternWarning| warning_view(w)) + warnings@.skip(w0.len() as int).map_values(|w: PatternWarning| warning_view(w)));
        }
        n = n + 1;
    }
    ExtractResult { annotations, warnings }
}

} // verus!
