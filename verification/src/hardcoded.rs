//! Detection of text in JSX that is not translated.

use vstd::prelude::*;
use crate::ast::{
    ArrowExpr, BinOp, CallExpr, Decl, Expr, ExprOrSpread, Function, JSXAttrName, JSXAttrOrSpread, JSXAttrValue,
    JSXChild, JSXElement, JSXElementName, MemberProp, Module, ObjectPatProp, Pat, Pos, PropName,
    PropOrSpread, Stmt, TplElement, VarDecl, VarDeclarator,
};
use crate::lines::{spec_line_at, spec_lines, split_lines};
use crate::strmap::StrSet;
use crate::text::{chars_of, concat3, str_eq, string_from_chars, text};
use crate::visitor::{is_prefix, is_ws, ws_end};

verus! {

/// Whether a character is alphabetic (`char::is_alphabetic`).
pub uninterp spec fn spec_char_is_alphabetic(c: char) -> bool;

/// `char::is_alphabetic`: the Unicode `Alphabetic` property; among ASCII
/// characters exactly the letters have it.
#[verifier::external_body]
fn char_is_alphabetic(c: char) -> (r: bool)
    ensures
        r == spec_char_is_alphabetic(c),
        (c as u32) < 128 ==> (r <==> (('a' <= c && c <= 'z') || ('A' <= c && c <= 'Z'))),
{
    c.is_alphabetic()
}

/// The text has at least one alphabetic character.
pub open spec fn spec_contains_alphabetic(s: Seq<char>) -> bool {
    exists|i: int| 0 <= i < s.len() && spec_char_is_alphabetic(#[trigger] s[i])
}

/// Whether a text contains at least one alphabetic character: `Hello` and
/// `你好` do; `123`, `---` and `$100` do not.
pub fn contains_alphabetic(text: &str) -> (r: bool)
    ensures
        r == spec_contains_alphabetic(text@),
{
    let c = chars_of(text);
    let mut i: usize = 0;
    while i < c.len()
        invariant
            i <= c@.len(),
            c@ == text@,
            forall|k: int| 0 <= k < i ==> !spec_char_is_alphabetic(#[trigger] c@[k]),
        decreases c@.len() - i,
    {
        if char_is_alphabetic(c[i]) {
            return true;
        }
        i = i + 1;
    }
    false
}

/// Index just past the last non-whitespace character before `j`.
pub open spec fn ws_start_back(s: Seq<char>, j: int) -> int
    decreases j,
{
    if 0 < j <= s.len() && is_ws(s[j - 1]) { ws_start_back(s, j - 1) } else { j }
}

/// The text without leading and trailing whitespace (`str::trim`).
pub open spec fn trimmed(s: Seq<char>) -> Seq<char> {
    let a = ws_end(s, 0);
    let b = ws_start_back(s, s.len() as int);
    if a < b { s.subrange(a, b) } else { Seq::empty() }
}

proof fn lemma_ws_end(s: Seq<char>, i: int)
    requires
        0 <= i <= s.len(),
    ensures
        i <= ws_end(s, i) <= s.len(),
    decreases s.len() - i,
{
    if i < s.len() && is_ws(s[i]) {
        lemma_ws_end(s, i + 1);
    }
}

proof fn lemma_ws_start_back(s: Seq<char>, j: int)
    requires
        0 <= j <= s.len(),
    ensures
        0 <= ws_start_back(s, j) <= j,
    decreases j,
{
    if 0 < j && is_ws(s[j - 1]) {
        lemma_ws_start_back(s, j - 1);
    }
}

fn is_ws_char(c: char) -> (r: bool)
    ensures
        r == is_ws(c),
{
    let u = c as u32;
    (0x9 <= u && u <= 0xD) || u == 0x20 || u == 0x85 || u == 0xA0 || u == 0x1680
        || (0x2000 <= u && u <= 0x200A) || u == 0x2028 || u == 0x2029 || u == 0x202F
        || u == 0x205F || u == 0x3000
}

/// Removes leading and trailing whitespace.
pub fn trim(s: &str) -> (r: String)
    ensures
        r@ == trimmed(s@),
{
    let c = chars_of(s);
    let mut a: usize = 0;
    while a < c.len() && is_ws_char(c[a])
        invariant
            a <= c@.len(),
            ws_end(c@, 0) == ws_end(c@, a as int),
        decreases c@.len() - a,
    {
        a = a + 1;
    }
    let mut b: usize = c.len();
    while b > 0 && is_ws_char(c[b - 1])
        invariant
            b <= c@.len(),
            ws_start_back(c@, c@.len() as int) == ws_start_back(c@, b as int),
        decreases b,
    {
        b = b - 1;
    }
    if a < b {
        let part = crate::lines::s_range(&c, a, b);
        string_from_chars(part.as_slice())
    } else {
        String::new()
    }
}

/// A `glot-disable`, `glot-enable` or `glot-disable-next-line` comment.
#[derive(Debug, Clone, Copy, PartialEq, Eq, Structural)]
pub enum Directive {
    Disable,
    Enable,
    DisableNextLine,
}

impl Directive {
    pub open spec fn spec_parse(t: Seq<char>) -> Option<Directive> {
        if t == "glot-disable"@ {
            Some(Directive::Disable)
        } else if t == "glot-enable"@ {
            Some(Directive::Enable)
        } else if t == "glot-disable-next-line"@ {
            Some(Directive::DisableNextLine)
        } else {
            None
        }
    }

    /// The directive a (trimmed) comment text is, if any.
    pub fn parse(t: &str) -> (r: Option<Directive>)
        ensures
            r == Self::spec_parse(t@),
    {
        if str_eq(t, "glot-disable") {
            Some(Directive::Disable)
        } else if str_eq(t, "glot-enable") {
            Some(Directive::Enable)
        } else if str_eq(t, "glot-disable-next-line") {
            Some(Directive::DisableNextLine)
        } else {
            None
        }
    }
}

/// Lines `start..=end` where the hardcoded rule is off.
#[derive(Debug, Clone, Copy)]
pub struct DisabledRange {
    pub start: usize,
    pub end: usize,
}

impl DisabledRange {
    /// A range up to `end`, or to the end of the file.
    pub fn new(start: usize, end: Option<usize>) -> (r: Self)
        ensures
            r.start == start,
            r.end == match end { Some(e) => e, None => usize::MAX },
    {
        DisabledRange { start, end: match end { Some(e) => e, None => usize::MAX } }
    }

    pub fn single_line(line: usize) -> (r: Self)
        ensures
            r.start == line,
            r.end == line,
    {
        DisabledRange { start: line, end: line }
    }
}

/// The lines of a file where the hardcoded rule is off.
#[derive(Debug)]
pub struct IgnoreContext {
    pub disabled_ranges: Vec<DisabledRange>,
}

/// A line falls into one of the ranges.
pub open spec fn in_ranges(rs: Seq<DisabledRange>, line: usize) -> bool {
    exists|i: int| 0 <= i < rs.len() && #[trigger] rs[i].start <= line && line <= rs[i].end
}

/// The comments in line order (a stable sort: comments of one line keep their order).
pub open spec fn by_line(cs: Seq<(usize, String)>) -> Seq<(usize, String)>
    decreases cs.len(),
{
    if cs.len() == 0 {
        Seq::empty()
    } else {
        let prev = by_line(cs.drop_last());
        prev.insert(line_insert_index(prev, cs.last().0, 0), cs.last())
    }
}

/// Where a stable insertion puts a comment of line `l`: before the first
/// comment (from index `j` on) of a later line.
pub open spec fn line_insert_index(s: Seq<(usize, String)>, l: usize, j: int) -> int
    decreases s.len() - j,
{
    if j < 0 || j >= s.len() {
        s.len() as int
    } else if s[j].0 > l {
        j
    } else {
        line_insert_index(s, l, j + 1)
    }
}

proof fn lemma_line_insert_index(s: Seq<(usize, String)>, l: usize, j: int)
    requires
        0 <= j <= s.len(),
    ensures
        j <= line_insert_index(s, l, j) <= s.len(),
    decreases s.len() - j,
{
    if j < s.len() && s[j].0 <= l {
        lemma_line_insert_index(s, l, j + 1);
    }
}

proof fn lemma_by_line_len(cs: Seq<(usize, String)>)
    ensures
        by_line(cs).len() == cs.len(),
    decreases cs.len(),
{
    if cs.len() > 0 {
        lemma_by_line_len(cs.drop_last());
        lemma_line_insert_index(by_line(cs.drop_last()), cs.last().0, 0);
    }
}

/// The ranges the directives among sorted comments give, from index `i` on,
/// while a `glot-disable` opened at `open` (if any) is pending.
pub open spec fn ranges_from(cs: Seq<(usize, String)>, i: int, open: Option<usize>) -> Seq<DisabledRange>
    decreases cs.len() - i,
{
    if i < 0 || i >= cs.len() {
        match open {
            Some(s) => seq![DisabledRange { start: s, end: usize::MAX }],
            None => Seq::empty(),
        }
    } else {
        let line = cs[i].0;
        match Directive::spec_parse(trimmed(cs[i].1@)) {
            Some(Directive::Disable) => ranges_from(cs, i + 1, if open is Some { open } else { Some(line) }),
            Some(Directive::Enable) => match open {
                Some(s) => seq![DisabledRange { start: s, end: if line > 0 { (line - 1) as usize } else { 0 } }]
                    + ranges_from(cs, i + 1, None),
                None => ranges_from(cs, i + 1, None),
            },
            Some(Directive::DisableNextLine) => {
                let next = if line < usize::MAX { (line + 1) as usize } else { line };
                seq![DisabledRange { start: next, end: next }] + ranges_from(cs, i + 1, open)
            },
            None => ranges_from(cs, i + 1, open),
        }
    }
}

proof fn lemma_in_ranges_after(a: Seq<DisabledRange>, b: Seq<DisabledRange>, line: usize)
    requires
        in_ranges(b, line),
    ensures
        in_ranges(a + b, line),
{
    let i = choose|i: int| 0 <= i < b.len() && #[trigger] b[i].start <= line && line <= b[i].end;
    assert((a + b)[a.len() + i] == b[i]);
}

proof fn lemma_next_line_disabled(cs: Seq<(usize, String)>, i0: int, open: Option<usize>, j: int)
    requires
        0 <= i0 <= j < cs.len(),
        Directive::spec_parse(trimmed(cs[j].1@)) == Some(Directive::DisableNextLine),
        cs[j].0 < usize::MAX,
    ensures
        in_ranges(ranges_from(cs, i0, open), (cs[j].0 + 1) as usize),
    decreases j - i0,
{
    let next = (cs[j].0 + 1) as usize;
    if i0 == j {
        let r = ranges_from(cs, i0, open);
        let tail = ranges_from(cs, i0 + 1, open);
        assert(r == seq![DisabledRange { start: next, end: next }] + tail);
        assert(r[0].start <= next && next <= r[0].end);
    } else {
        let line = cs[i0].0;
        match Directive::spec_parse(trimmed(cs[i0].1@)) {
            Some(Directive::Disable) => {
                lemma_next_line_disabled(cs, i0 + 1, if open is Some { open } else { Some(line) }, j);
            },
            Some(Directive::Enable) => {
                lemma_next_line_disabled(cs, i0 + 1, None, j);
                match open {
                    Some(s) => {
                        lemma_in_ranges_after(
                            seq![DisabledRange { start: s, end: if line > 0 { (line - 1) as usize } else { 0 } }],
                            ranges_from(cs, i0 + 1, None), next);
                    },
                    None => {},
                }
            },
            Some(Directive::DisableNextLine) => {
                lemma_next_line_disabled(cs, i0 + 1, open, j);
                let n = if line < usize::MAX { (line + 1) as usize } else { line };
                lemma_in_ranges_after(seq![DisabledRange { start: n, end: n }], ranges_from(cs, i0 + 1, open), next);
            },
            None => {
                lemma_next_line_disabled(cs, i0 + 1, open, j);
            },
        }
    }
}

proof fn lemma_by_line_keeps(cs: Seq<(usize, String)>, j: int)
    requires
        0 <= j < cs.len(),
    ensures
        exists|i: int| 0 <= i < by_line(cs).len() && #[trigger] by_line(cs)[i] == cs[j],
    decreases cs.len(),
{
    let prev = by_line(cs.drop_last());
    lemma_by_line_len(cs.drop_last());
    lemma_line_insert_index(prev, cs.last().0, 0);
    let idx = line_insert_index(prev, cs.last().0, 0);
    let b = by_line(cs);
    assert(b == prev.insert(idx, cs.last()));
    if j == cs.len() - 1 {
        assert(b[idx] == cs[j]);
    } else {
        lemma_by_line_keeps(cs.drop_last(), j);
        let i = choose|i: int| 0 <= i < prev.len() && #[trigger] prev[i] == cs.drop_last()[j];
        if i < idx {
            assert(b[i] == prev[i]);
        } else {
            assert(b[i + 1] == prev[i]);
        }
    }
}

/// A `glot-disable-next-line` comment (its trimmed text) on line `L`
/// switches the hardcoded rule off on line `L + 1`, whatever other
/// comments the file holds.
pub proof fn law_disable_next_line_ignores_the_next_line(comments: Seq<(usize, String)>, j: int)
    requires
        0 <= j < comments.len(),
        trimmed(comments[j].1@) == "glot-disable-next-line"@,
        comments[j].0 < usize::MAX,
    ensures
        in_ranges(ranges_from(by_line(comments), 0, None), (comments[j].0 + 1) as usize),
{
    reveal_strlit("glot-disable-next-line");
    reveal_strlit("glot-disable");
    reveal_strlit("glot-enable");
    assert("glot-disable-next-line"@.len() == 22);
    assert("glot-disable"@.len() == 12);
    assert("glot-enable"@.len() == 11);
    assert("glot-disable-next-line"@ != "glot-disable"@);
    assert("glot-disable-next-line"@ != "glot-enable"@);
    lemma_by_line_keeps(comments, j);
    let cs = by_line(comments);
    let i = choose|i: int| 0 <= i < cs.len() && #[trigger] cs[i] == comments[j];
    lemma_next_line_disabled(cs, 0, None, i);
}

impl IgnoreContext {
    pub fn should_ignore(&self, line: usize) -> (r: bool)
        ensures
            r == in_ranges(self.disabled_ranges@, line),
    {
        let mut i: usize = 0;
        while i < self.disabled_ranges.len()
            invariant
                i <= self.disabled_ranges@.len(),
                forall|k: int| 0 <= k < i ==> !(#[trigger] self.disabled_ranges@[k].start <= line
                    && line <= self.disabled_ranges@[k].end),
            decreases self.disabled_ranges@.len() - i,
        {
            let r = self.disabled_ranges[i];
            if r.start <= line && line <= r.end {
                return true;
            }
            i = i + 1;
        }
        false
    }

    /// Reads the directives among the comments (line, text) of a file:
    /// `glot-disable` starts a range (a second one before `glot-enable` is
    /// ignored), `glot-enable` ends it on the line before, and
    /// `glot-disable-next-line` disables the line after; a range left open
    /// lasts to the end of the file.
    pub fn build(comments: &[(usize, String)]) -> (r: Self)
        ensures
            r.disabled_ranges@ == ranges_from(by_line(comments@), 0, None),
    {
        let sorted = sort_by_line(comments);
        let mut ranges: Vec<DisabledRange> = Vec::new();
        let mut open: Option<usize> = None;
        let mut i: usize = 0;
        let ghost cs = sorted@;
        while i < sorted.len()
            invariant
                cs == sorted@,
                cs == by_line(comments@),
                i <= cs.len(),
                ranges@ + ranges_from(cs, i as int, open) == ranges_from(cs, 0, None),
            decreases cs.len() - i,
        {
            let line = sorted[i].0;
            let t = trim(sorted[i].1.as_str());
            let ghost r0 = ranges@;
            match Directive::parse(t.as_str()) {
                Some(Directive::Disable) => {
                    if open.is_none() {
                        open = Some(line);
                    }
                },
                Some(Directive::Enable) => {
                    match open {
                        Some(s) => {
                            let end = if line > 0 { line - 1 } else { 0 };
                            ranges.push(DisabledRange::new(s, Some(end)));
                            assert(ranges@ =~= r0 + seq![DisabledRange { start: s, end: end }]);
                            open = None;
                        },
                        None => {},
                    }
                },
                Some(Directive::DisableNextLine) => {
                    let next = if line < usize::MAX { line + 1 } else { line };
                    ranges.push(DisabledRange::single_line(next));
                    assert(ranges@ =~= r0 + seq![DisabledRange { start: next, end: next }]);
                },
                None => {},
            }
            i = i + 1;
        }
        match open {
            Some(s) => {
                let ghost r0 = ranges@;
                ranges.push(DisabledRange::new(s, None));
                assert(ranges@ =~= r0 + seq![DisabledRange { start: s, end: usize::MAX }]);
            },
            None => {
                assert(ranges@ =~= ranges@ + Seq::<DisabledRange>::empty());
            },
        }
        IgnoreContext { disabled_ranges: ranges }
    }
}

/// Sorts comments by line, keeping the order of comments on one line.
fn sort_by_line(cs: &[(usize, String)]) -> (r: Vec<(usize, String)>)
    ensures
        r@ == by_line(cs@),
{
    let mut r: Vec<(usize, String)> = Vec::new();
    let mut n: usize = 0;
    while n < cs.len()
        invariant
            n <= cs@.len(),
            r@ == by_line(cs@.take(n as int)),
        decreases cs@.len() - n,
    {
        proof {
            lemma_by_line_len(cs@.take(n as int));
            assert(cs@.take(n + 1).drop_last() =~= cs@.take(n as int));
            assert(cs@.take(n + 1).last() == cs@[n as int]);
        }
        let l = cs[n].0;
        let mut j: usize = 0;
        while j < r.len() && r[j].0 <= l
            invariant
                j <= r@.len(),
                line_insert_index(r@, l, 0) == line_insert_index(r@, l, j as int),
            decreases r@.len() - j,
        {
            j = j + 1;
        }
        let item = (l, cs[n].1.clone());
        assert(item == cs@[n as int]);
        r.insert(j, item);
        n = n + 1;
    }
    assert(cs@.take(cs@.len() as int) =~= cs@);
    r
}

/// Where the walk is with respect to JSX.
#[derive(Debug, Clone, Copy)]
pub struct JsxState {
    /// Inside the children of an element or fragment.
    pub in_context: bool,
    /// Inside an attribute.
    pub in_attr: bool,
    /// Inside an expression container `{...}`.
    pub in_expr: bool,
    /// The current element stands inside an expression (a ternary, `&&`, ...).
    pub in_element_expr: bool,
}

impl JsxState {
    pub fn default() -> (r: Self)
        ensures
            !r.in_context && !r.in_attr && !r.in_expr && !r.in_element_expr,
    {
        JsxState { in_context: false, in_attr: false, in_expr: false, in_element_expr: false }
    }

    /// The state for the children of an element: JSX context, and the
    /// element is in an expression when it was entered from one.
    pub fn for_children(self) -> (r: Self)
        ensures
            r.in_context && !r.in_attr && !r.in_expr,
            r.in_element_expr == self.in_expr,
    {
        JsxState { in_context: true, in_attr: false, in_expr: false, in_element_expr: self.in_expr }
    }
}

/// Text in JSX that looks untranslated.
#[derive(Debug, Clone)]
pub struct HardcodedIssue {
    pub file_path: String,
    pub line: usize,
    pub col: usize,
    pub text: String,
    pub source_line: String,
    /// Whether a comment for this issue takes the JSX form `{/* */}`.
    pub in_jsx_context: bool,
}

/// The line (without leading whitespace) starts with a JSX tag.
pub open spec fn starts_element(s: Seq<char>) -> bool {
    let j = ws_end(s, 0);
    0 <= j < s.len() && s[j] == '<'
}

/// Whether a comment for a finding on this line takes the JSX form: for an
/// attribute, only when its element starts the line in plain JSX children;
/// for text on the line of an element tag, when the element is not inside an
/// expression; for text on a line of its own, inside JSX children.
pub open spec fn spec_use_jsx_comment(st: JsxState, line: Seq<char>) -> bool {
    if st.in_attr {
        starts_element(line) && st.in_context && !st.in_expr
    } else if starts_element(line) {
        if st.in_element_expr { false } else { st.in_context && !st.in_expr }
    } else {
        st.in_context
    }
}

fn starts_element_exec(s: &Vec<char>) -> (r: bool)
    ensures
        r == starts_element(s@),
{
    let mut j: usize = 0;
    while j < s.len() && is_ws_char(s[j])
        invariant
            j <= s@.len(),
            ws_end(s@, 0) == ws_end(s@, j as int),
        decreases s@.len() - j,
    {
        j = j + 1;
    }
    j < s.len() && s[j] == '<'
}

/// A text the walk checks: the text, where it stands, and the JSX state
/// there.
pub type Finding = (Seq<char>, Pos, JsxState);

/// An issue as plain values: file, line, column, text, source line, and
/// whether its comment takes the JSX form.
pub open spec fn issue_view(i: HardcodedIssue) -> (Seq<char>, usize, usize, Seq<char>, Seq<char>, bool) {
    (i.file_path@, i.line, i.col, i.text@, i.source_line@, i.in_jsx_context)
}

pub open spec fn issues_view(v: Seq<HardcodedIssue>) -> Seq<(Seq<char>, usize, usize, Seq<char>, Seq<char>, bool)> {
    v.map_values(|i: HardcodedIssue| issue_view(i))
}

/// A finding is reported unless its line is disabled, its trimmed text is
/// ignored, or that text has no letter.
pub open spec fn reportable(ranges: Seq<DisabledRange>, ignore: Set<Seq<char>>, line: usize, text: Seq<char>) -> bool {
    &&& !in_ranges(ranges, line)
    &&& !ignore.contains(trimmed(text))
    &&& spec_contains_alphabetic(trimmed(text))
}

/// The issues reported for the findings `fs` in a file with these lines,
/// disabled ranges and ignored texts.
pub open spec fn reported(
    file: Seq<char>,
    lines: Seq<Seq<char>>,
    ranges: Seq<DisabledRange>,
    ignore: Set<Seq<char>>,
    fs: Seq<Finding>,
) -> Seq<(Seq<char>, usize, usize, Seq<char>, Seq<char>, bool)>
    decreases fs.len(),
{
    if fs.len() == 0 {
        Seq::empty()
    } else {
        let f = fs.last();
        let line = spec_line_at(lines, f.1.line as int);
        reported(file, lines, ranges, ignore, fs.drop_last()) + if reportable(ranges, ignore, f.1.line, f.0) {
            seq![(file, f.1.line, f.1.col, f.0, line, spec_use_jsx_comment(f.2, line))]
        } else {
            Seq::empty()
        }
    }
}

proof fn lemma_reported_append(
    file: Seq<char>,
    lines: Seq<Seq<char>>,
    ranges: Seq<DisabledRange>,
    ignore: Set<Seq<char>>,
    a: Seq<Finding>,
    b: Seq<Finding>,
)
    ensures
        reported(file, lines, ranges, ignore, a + b)
            == reported(file, lines, ranges, ignore, a) + reported(file, lines, ranges, ignore, b),
    decreases b.len(),
{
    if b.len() == 0 {
        assert(a + b =~= a);
    } else {
        lemma_reported_append(file, lines, ranges, ignore, a, b.drop_last());
        assert((a + b).drop_last() =~= a + b.drop_last());
    }
}

/// The state inside `{...}`.
pub open spec fn in_container(st: JsxState) -> JsxState {
    JsxState { in_expr: true, ..st }
}

/// The state inside an attribute.
pub open spec fn in_attribute(st: JsxState) -> JsxState {
    JsxState { in_attr: true, ..st }
}

/// The state at the top of a file: outside JSX.
pub open spec fn start_state() -> JsxState {
    JsxState { in_context: false, in_attr: false, in_expr: false, in_element_expr: false }
}

/// The state for the children of an element.
pub open spec fn children_state(st: JsxState) -> JsxState {
    JsxState { in_context: true, in_attr: false, in_expr: false, in_element_expr: st.in_expr }
}

/// The name an attribute is checked by: `ns-name` for a namespaced one.
pub open spec fn attr_name_view(n: JSXAttrName) -> Seq<char> {
    match n {
        JSXAttrName::Ident(x) => x@,
        JSXAttrName::Namespaced(ns, x) => ns@ + "-"@ + x@,
    }
}

/// The findings of statements, in the order the walk meets them; `at` are
/// the checked attributes.
pub open spec fn hc_stmts(s: Seq<Stmt>, st: JsxState, at: Seq<Seq<char>>) -> Seq<Finding>
    decreases s,
{
    if s.len() == 0 { Seq::empty() } else { hc_stmts(s.drop_last(), st, at) + hc_stmt(s.last(), st, at) }
}

pub open spec fn hc_stmt(x: Stmt, st: JsxState, at: Seq<Seq<char>>) -> Seq<Finding>
    decreases x,
{
    match x {
        Stmt::Expr(e) => hc_expr(e, st, at),
        Stmt::Var(v) => hc_decls(v.decls@, st, at),
        Stmt::Fn(f) => hc_fn(f.function, st, at),
        Stmt::Import(_) => Seq::empty(),
        Stmt::ExportDecl(d) => match d {
            Decl::Var(v) => hc_decls(v.decls@, st, at),
            Decl::Fn(f) => hc_fn(f.function, st, at),
            Decl::Other(c) => hc_stmts(c@, st, at),
        },
        Stmt::ExportDefaultFn(d) => hc_fn(d.function, st, at),
        Stmt::ExportDefaultExpr(e) => hc_expr(e, st, at),
        Stmt::ExportDefaultClass { body, .. } => hc_stmts(body@, st, at),
        Stmt::Other(c) => hc_stmts(c@, st, at),
    }
}

pub open spec fn hc_decls(s: Seq<VarDeclarator>, st: JsxState, at: Seq<Seq<char>>) -> Seq<Finding>
    decreases s,
{
    if s.len() == 0 {
        Seq::empty()
    } else {
        hc_decls(s.drop_last(), st, at) + hc_pat(s.last().name, st, at) + hc_opt(s.last().init, st, at)
    }
}

pub open spec fn hc_opt(x: Option<Expr>, st: JsxState, at: Seq<Seq<char>>) -> Seq<Finding>
    decreases x,
{
    match x {
        Some(e) => hc_expr(e, st, at),
        None => Seq::empty(),
    }
}

pub open spec fn hc_fn(f: Function, st: JsxState, at: Seq<Seq<char>>) -> Seq<Finding>
    decreases f,
{
    hc_pats(f.params@, st, at) + hc_stmts(f.body@, st, at)
}

pub open spec fn hc_arrow(a: ArrowExpr, st: JsxState, at: Seq<Seq<char>>) -> Seq<Finding>
    decreases a,
{
    hc_pats(a.params@, st, at) + hc_stmts(a.body@, st, at)
}

pub open spec fn hc_pats(s: Seq<Pat>, st: JsxState, at: Seq<Seq<char>>) -> Seq<Finding>
    decreases s,
{
    if s.len() == 0 { Seq::empty() } else { hc_pats(s.drop_last(), st, at) + hc_pat(s.last(), st, at) }
}

pub open spec fn hc_pat(p: Pat, st: JsxState, at: Seq<Seq<char>>) -> Seq<Finding>
    decreases p,
{
    match p {
        Pat::Ident { .. } => Seq::empty(),
        Pat::Object(props) => hc_opps(props@, st, at),
        Pat::Assign { left, right } => hc_pat(*left, st, at) + hc_expr(*right, st, at),
        Pat::Array(elems) => hc_opats(elems@, st, at),
        Pat::Rest(q) => hc_pat(*q, st, at),
        Pat::Other(c) => hc_stmts(c@, st, at),
    }
}

pub open spec fn hc_opps(s: Seq<ObjectPatProp>, st: JsxState, at: Seq<Seq<char>>) -> Seq<Finding>
    decreases s,
{
    if s.len() == 0 {
        Seq::empty()
    } else {
        hc_opps(s.drop_last(), st, at) + match s.last() {
            ObjectPatProp::KeyValue { key, value } => hc_prop_name(key, st, at) + hc_pat(value, st, at),
            ObjectPatProp::Assign { value, .. } => hc_opt(value, st, at),
            ObjectPatProp::Rest(q) => hc_pat(q, st, at),
        }
    }
}

pub open spec fn hc_opats(s: Seq<Option<Pat>>, st: JsxState, at: Seq<Seq<char>>) -> Seq<Finding>
    decreases s,
{
    if s.len() == 0 {
        Seq::empty()
    } else {
        hc_opats(s.drop_last(), st, at) + match s.last() {
            Some(q) => hc_pat(q, st, at),
            None => Seq::empty(),
        }
    }
}

pub open spec fn hc_prop_name(k: PropName, st: JsxState, at: Seq<Seq<char>>) -> Seq<Finding>
    decreases k,
{
    match k {
        PropName::Other(c) => hc_stmts(c@, st, at),
        _ => Seq::empty(),
    }
}

pub open spec fn hc_exprs(s: Seq<Expr>, st: JsxState, at: Seq<Seq<char>>) -> Seq<Finding>
    decreases s,
{
    if s.len() == 0 { Seq::empty() } else { hc_exprs(s.drop_last(), st, at) + hc_expr(s.last(), st, at) }
}

pub open spec fn hc_args(s: Seq<ExprOrSpread>, st: JsxState, at: Seq<Seq<char>>) -> Seq<Finding>
    decreases s,
{
    if s.len() == 0 { Seq::empty() } else { hc_args(s.drop_last(), st, at) + hc_expr(s.last().expr, st, at) }
}

pub open spec fn hc_oargs(s: Seq<Option<ExprOrSpread>>, st: JsxState, at: Seq<Seq<char>>) -> Seq<Finding>
    decreases s,
{
    if s.len() == 0 {
        Seq::empty()
    } else {
        hc_oargs(s.drop_last(), st, at) + match s.last() {
            Some(x) => hc_expr(x.expr, st, at),
            None => Seq::empty(),
        }
    }
}

pub open spec fn hc_call(c: CallExpr, st: JsxState, at: Seq<Seq<char>>) -> Seq<Finding>
    decreases c,
{
    (match c.callee {
        Some(x) => hc_expr(*x, st, at),
        None => Seq::empty(),
    }) + hc_args(c.args@, st, at)
}

pub open spec fn hc_props(s: Seq<PropOrSpread>, st: JsxState, at: Seq<Seq<char>>) -> Seq<Finding>
    decreases s,
{
    if s.len() == 0 {
        Seq::empty()
    } else {
        hc_props(s.drop_last(), st, at) + match s.last() {
            PropOrSpread::Spread(e) => hc_expr(e, st, at),
            PropOrSpread::KeyValue { key, value } => hc_prop_name(key, st, at) + hc_expr(value, st, at),
            PropOrSpread::Shorthand(_) => Seq::empty(),
            PropOrSpread::Method { key, function } => hc_prop_name(key, st, at) + hc_fn(function, st, at),
            PropOrSpread::Other(c) => hc_stmts(c@, st, at),
        }
    }
}

pub open spec fn hc_expr(e: Expr, st: JsxState, at: Seq<Seq<char>>) -> Seq<Finding>
    decreases e,
{
    match e {
        Expr::Tpl(t) => hc_exprs(t.exprs@, st, at),
        Expr::Cond { test, cons, alt } => hc_expr(*test, st, at) + hc_expr(*cons, st, at) + hc_expr(*alt, st, at),
        Expr::Bin { left, right, .. } => hc_expr(*left, st, at) + hc_expr(*right, st, at),
        Expr::Paren(x) => hc_expr(*x, st, at),
        Expr::TsAs(x) => hc_expr(*x, st, at),
        Expr::TsConst(x) => hc_expr(*x, st, at),
        Expr::TsSatisfies(x) => hc_expr(*x, st, at),
        Expr::Await(x) => hc_expr(*x, st, at),
        Expr::Call(c) => hc_call(c, st, at),
        Expr::Member { obj, prop } => hc_expr(*obj, st, at) + match prop {
            MemberProp::Computed(k) => hc_expr(*k, st, at),
            _ => Seq::empty(),
        },
        Expr::Arrow(a) => hc_arrow(a, st, at),
        Expr::Fn(f) => hc_fn(f, st, at),
        Expr::Object(props) => hc_props(props@, st, at),
        Expr::Array(elems) => hc_oargs(elems@, st, at),
        Expr::JSXElement(el) => hc_element(*el, st, at),
        Expr::JSXFragment(children) => hc_children(children@, children_state(st), at),
        Expr::Other { children, .. } => hc_stmts(children@, st, at),
        _ => Seq::empty(),
    }
}

/// The texts of a template's parts.
pub open spec fn hc_quasis(s: Seq<TplElement>, st: JsxState) -> Seq<Finding>
    decreases s.len(),
{
    if s.len() == 0 {
        Seq::empty()
    } else {
        hc_quasis(s.drop_last(), st) + match s.last().cooked {
            Some(c) => seq![(c@, s.last().pos, st)],
            None => Seq::empty(),
        }
    }
}

/// The literal texts an expression in `{...}` can show.
pub open spec fn hc_literals(e: Expr, st: JsxState) -> Seq<Finding>
    decreases e,
{
    match e {
        Expr::Str(Some(v), pos) => seq![(v@, pos, st)],
        Expr::Tpl(t) => hc_quasis(t.quasis@, st),
        Expr::Bin { op, right, .. } => match op {
            BinOp::LogicalAnd => hc_literals(*right, st),
            BinOp::LogicalOr => hc_literals(*right, st),
            _ => Seq::empty(),
        },
        Expr::Cond { cons, alt, .. } => hc_literals(*cons, st) + hc_literals(*alt, st),
        _ => Seq::empty(),
    }
}

pub open spec fn hc_container(x: Option<Expr>, st: JsxState, at: Seq<Seq<char>>) -> Seq<Finding>
    decreases x,
{
    match x {
        Some(e) => hc_literals(e, in_container(st)) + hc_expr(e, in_container(st), at),
        None => Seq::empty(),
    }
}

pub open spec fn hc_attr(name: JSXAttrName, value: Option<JSXAttrValue>, st: JsxState, at: Seq<Seq<char>>) -> Seq<Finding> {
    if at.contains(attr_name_view(name)) {
        match value {
            Some(JSXAttrValue::Str(Some(v), pos)) => seq![(v@, pos, in_attribute(st))],
            _ => Seq::empty(),
        }
    } else {
        Seq::empty()
    }
}

pub open spec fn hc_attrs(s: Seq<JSXAttrOrSpread>, st: JsxState, at: Seq<Seq<char>>) -> Seq<Finding>
    decreases s,
{
    if s.len() == 0 {
        Seq::empty()
    } else {
        hc_attrs(s.drop_last(), st, at) + match s.last() {
            JSXAttrOrSpread::Attr(a) => hc_attr(a.name, a.value, st, at),
            JSXAttrOrSpread::Spread(x) => hc_expr(x, st, at),
        }
    }
}

/// An element named `style`.
pub open spec fn is_style(n: JSXElementName) -> bool {
    n matches JSXElementName::Ident(x) && x@ == "style"@
}

pub open spec fn hc_element(el: JSXElement, st: JsxState, at: Seq<Seq<char>>) -> Seq<Finding>
    decreases el,
{
    hc_attrs(el.attrs@, st, at) + if is_style(el.name) {
        Seq::empty()
    } else {
        hc_children(el.children@, children_state(st), at)
    }
}

pub open spec fn hc_children(s: Seq<JSXChild>, st: JsxState, at: Seq<Seq<char>>) -> Seq<Finding>
    decreases s,
{
    if s.len() == 0 {
        Seq::empty()
    } else {
        hc_children(s.drop_last(), st, at) + match s.last() {
            JSXChild::Text(raw, pos) => if trimmed(raw@).len() > 0 { seq![(trimmed(raw@), pos, st)] } else { Seq::empty() },
            JSXChild::Container(x) => hc_container(x, st, at),
            JSXChild::Spread(x) => hc_expr(x, st, at),
            JSXChild::Element(el) => hc_element(*el, st, at),
            JSXChild::Fragment(c) => hc_children(c@, children_state(st), at),
        }
    }
}

/// Finds text in JSX (children, checked attributes, literal branches of
/// expressions in `{...}`) that should be translated.
pub struct HardcodedChecker<'a> {
    pub file_path: &'a str,
    /// Attributes whose string values are checked (`placeholder`, `title`, ...).
    pub checked_attributes: &'a [String],
    /// Texts that are never reported.
    pub ignore_texts: &'a StrSet,
    pub lines: Vec<Vec<char>>,
    pub ignore_context: IgnoreContext,
    pub issues: Vec<HardcodedIssue>,
    pub jsx_state: JsxState,
}

impl<'a> HardcodedChecker<'a> {
    pub open spec fn spec_lines(&self) -> Seq<Seq<char>> {
        self.lines@.map_values(|l: Vec<char>| l@)
    }

    /// Every issue belongs to this file.
    pub open spec fn wf(&self) -> bool {
        forall|i: int| 0 <= i < self.issues@.len() ==> (#[trigger] self.issues@[i]).file_path@ == self.file_path@
    }

    /// A walk keeps the file, its lines, its directives and the JSX state;
    /// issues only grow.
    pub open spec fn kept(&self, after: &Self) -> bool {
        &&& after.wf()
        &&& after.file_path == self.file_path
        &&& after.checked_attributes == self.checked_attributes
        &&& after.ignore_texts == self.ignore_texts
        &&& after.lines == self.lines
        &&& after.ignore_context.disabled_ranges == self.ignore_context.disabled_ranges
        &&& after.jsx_state == self.jsx_state
        &&& is_prefix(self.issues@, after.issues@)
    }

    /// A finding of `text` at line `line` is reported.
    pub open spec fn spec_should_report(&self, line: usize, text: Seq<char>) -> bool {
        &&& !in_ranges(self.ignore_context.disabled_ranges@, line)
        &&& !self.ignore_texts@.contains(trimmed(text))
        &&& spec_contains_alphabetic(trimmed(text))
    }

    /// Creates a checker for one file; `comments` are its comments with their lines.
    pub fn new(
        file_path: &'a str,
        checked_attributes: &'a [String],
        ignore_texts: &'a StrSet,
        source: &str,
        comments: &[(usize, String)],
    ) -> (r: Self)
        ensures
            r.wf(),
            r.file_path == file_path,
            r.checked_attributes == checked_attributes,
            r.ignore_texts == ignore_texts,
            r.spec_lines() == spec_lines(source@),
            r.ignore_context.disabled_ranges@ == ranges_from(by_line(comments@), 0, None),
            r.issues@.len() == 0,
            r.jsx_state == start_state(),
    {
        let chars = chars_of(source);
        HardcodedChecker {
            file_path,
            checked_attributes,
            ignore_texts,
            lines: split_lines(&chars),
            ignore_context: IgnoreContext::build(comments),
            issues: Vec::new(),
            jsx_state: JsxState::default(),
        }
    }

    /// Checks a text found at `pos`: reported unless its line is disabled,
    /// it is an ignored text, or it has no letter.
    fn check_line(&mut self, value: &str, pos: Pos)
        requires
            old(self).wf(),
        ensures
            old(self).kept(final(self)),
            old(self).spec_should_report(pos.line, value@) ==> final(self).issues@.len() == old(self).issues@.len() + 1 && {
                let i = final(self).issues@.last();
                let line = spec_line_at(old(self).spec_lines(), pos.line as int);
                &&& i.text@ == value@
                &&& i.line == pos.line
                &&& i.col == pos.col
                &&& i.source_line@ == line
                &&& i.in_jsx_context == spec_use_jsx_comment(old(self).jsx_state, line)
            },
            !old(self).spec_should_report(pos.line, value@) ==> final(self).issues == old(self).issues,
    {
        if self.ignore_context.should_ignore(pos.line) {
            return;
        }
        let t = trim(value);
        if self.ignore_texts.contains(t.as_str()) {
            return;
        }
        if !contains_alphabetic(t.as_str()) {
            return;
        }
        let source_line = if pos.line >= 1 && pos.line <= self.lines.len() {
            string_from_chars(self.lines[pos.line - 1].as_slice())
        } else {
            String::new()
        };
        let sl = chars_of(source_line.as_str());
        let starts = starts_element_exec(&sl);
        let st = self.jsx_state;
        let use_jsx = if st.in_attr {
            starts && st.in_context && !st.in_expr
        } else if starts {
            if st.in_element_expr { false } else { st.in_context && !st.in_expr }
        } else {
            st.in_context
        };
        self.issues.push(HardcodedIssue {
            file_path: text(self.file_path),
            line: pos.line,
            col: pos.col,
            text: text(value),
            source_line,
            in_jsx_context: use_jsx,
        });
    }

    /// The checked attributes as plain strings.
    pub open spec fn attrs_view(&self) -> Seq<Seq<char>> {
        self.checked_attributes@.map_values(|s: String| s@)
    }

    /// The issues reported, in this file, for the findings `fs`.
    pub open spec fn spec_reported(&self, fs: Seq<Finding>) -> Seq<(Seq<char>, usize, usize, Seq<char>, Seq<char>, bool)> {
        reported(self.file_path@, self.spec_lines(), self.ignore_context.disabled_ranges@, self.ignore_texts@, fs)
    }

    /// `after` is this checker once it has checked the findings `fs`.
    pub open spec fn advanced(&self, after: &Self, fs: Seq<Finding>) -> bool {
        &&& self.kept(after)
        &&& issues_view(after.issues@) == issues_view(self.issues@) + self.spec_reported(fs)
    }

    proof fn lemma_advanced_empty(a: Self)
        requires
            a.wf(),
        ensures
            a.advanced(&a, Seq::empty()),
    {
        assert(issues_view(a.issues@) + a.spec_reported(Seq::empty()) =~= issues_view(a.issues@));
    }

    proof fn lemma_advanced_trans(a: Self, b: Self, c: Self, f: Seq<Finding>, g: Seq<Finding>)
        requires
            a.advanced(&b, f),
            b.advanced(&c, g),
        ensures
            a.advanced(&c, f + g),
    {
        lemma_reported_append(a.file_path@, a.spec_lines(), a.ignore_context.disabled_ranges@, a.ignore_texts@, f, g);
        assert(b.spec_reported(g) == a.spec_reported(g));
        assert(issues_view(c.issues@) =~= issues_view(a.issues@) + a.spec_reported(f + g));
    }

    /// `check_line` as one finding.
    fn check_one(&mut self, value: &str, pos: Pos)
        requires
            old(self).wf(),
        ensures
            old(self).advanced(final(self), seq![(value@, pos, old(self).jsx_state)]),
    {
        let ghost s0 = *self;
        self.check_line(value, pos);
        proof {
            let f: Finding = (value@, pos, s0.jsx_state);
            assert(seq![f].drop_last() =~= Seq::<Finding>::empty());
            assert(seq![f].last() == f);
            assert(s0.spec_reported(Seq::<Finding>::empty()) == Seq::<(Seq<char>, usize, usize, Seq<char>, Seq<char>, bool)>::empty());
            let line = spec_line_at(s0.spec_lines(), pos.line as int);
            if s0.spec_should_report(pos.line, value@) {
                let last = self.issues@.last();
                assert(self.issues@[self.issues@.len() - 1] == last);
                assert(last.file_path@ == s0.file_path@);
                assert(issue_view(last) == (s0.file_path@, pos.line, pos.col, value@, line, spec_use_jsx_comment(s0.jsx_state, line)));
                assert(s0.spec_reported(seq![f]) =~= seq![issue_view(last)]);
                assert(issues_view(self.issues@) =~= issues_view(s0.issues@).push(issue_view(self.issues@.last())));
            } else {
                assert(s0.spec_reported(seq![f]) =~= Seq::<(Seq<char>, usize, usize, Seq<char>, Seq<char>, bool)>::empty());
            }
            assert(issues_view(self.issues@) =~= issues_view(s0.issues@) + s0.spec_reported(seq![f]));
        }
    }

    /// The literal texts an expression in `{...}` can show: a string, the
    /// texts of a template, the right side of `&&`/`||`, both branches of a
    /// conditional.
    fn check_expr(&mut self, e: &Expr)
        requires
            old(self).wf(),
        ensures
            old(self).advanced(final(self), hc_literals(*e, old(self).jsx_state)),
        decreases e,
    {
        let ghost s0 = *self;
        let ghost st = self.jsx_state;
        match e {
            Expr::Str(Some(v), pos) => self.check_one(v.as_str(), *pos),
            Expr::Tpl(t) => {
                proof { Self::lemma_advanced_empty(s0); }
                let mut i: usize = 0;
                while i < t.quasis.len()
                    invariant
                        i <= t.quasis@.len(),
                        st == s0.jsx_state,
                        s0.advanced(self, hc_quasis(t.quasis@.take(i as int), st)),
                    decreases t.quasis@.len() - i,
                {
                    let ghost m = *self;
                    proof {
                        assert(t.quasis@.take(i + 1).drop_last() =~= t.quasis@.take(i as int));
                        assert(t.quasis@.take(i + 1).last() == t.quasis@[i as int]);
                    }
                    match &t.quasis[i].cooked {
                        Some(c) => {
                            self.check_one(c.as_str(), t.quasis[i].pos);
                            proof {
                                Self::lemma_advanced_trans(s0, m, *self, hc_quasis(t.quasis@.take(i as int), st),
                                    seq![(c@, t.quasis@[i as int].pos, st)]);
                            }
                        },
                        None => {
                            proof {
                                assert(hc_quasis(t.quasis@.take(i + 1), st) =~= hc_quasis(t.quasis@.take(i as int), st));
                            }
                        },
                    }
                    i = i + 1;
                }
                proof { assert(t.quasis@.take(t.quasis@.len() as int) =~= t.quasis@); }
            },
            Expr::Bin { op, right, .. } => match op {
                BinOp::LogicalAnd => self.check_expr(right),
                BinOp::LogicalOr => self.check_expr(right),
                _ => { proof { Self::lemma_advanced_empty(s0); } },
            },
            Expr::Cond { cons, alt, .. } => {
                self.check_expr(cons);
                let ghost m = *self;
                self.check_expr(alt);
                proof { Self::lemma_advanced_trans(s0, m, *self, hc_literals(**cons, st), hc_literals(**alt, st)); }
            },
            _ => { proof { Self::lemma_advanced_empty(s0); } },
        }
    }

    /// Walks a module and hands out the issues: those it had, then one for
    /// each reported finding of the module, in order.
    pub fn check(self, m: &Module) -> (r: Vec<HardcodedIssue>)
        requires
            self.wf(),
        ensures
            forall|i: int| 0 <= i < r@.len() ==> (#[trigger] r@[i]).file_path@ == self.file_path@,
            is_prefix(self.issues@, r@),
            issues_view(r@) == issues_view(self.issues@)
                + self.spec_reported(hc_stmts(m.body@, self.jsx_state, self.attrs_view())),
    {
        let mut c = self;
        c.visit_stmts(&m.body);
        c.issues
    }

    #[verifier::loop_isolation(false)]
    fn visit_stmts(&mut self, v: &Vec<Stmt>)
        requires
            old(self).wf(),
        ensures
            old(self).advanced(final(self), hc_stmts(v@, old(self).jsx_state, old(self).attrs_view())),
        decreases v, 0nat,
    {
        let ghost s0 = *self;
        let ghost st = self.jsx_state;
        let ghost at = self.attrs_view();
        proof { Self::lemma_advanced_empty(s0); }
        let mut i: usize = 0;
        while i < v.len()
            invariant
                i <= v@.len(),
                s0.advanced(self, hc_stmts(v@.take(i as int), st, at)),
            decreases v@.len() - i,
        {
            proof { assert(decreases_to!(v => v@[i as int])); }
            let ghost m = *self;
            self.visit_stmt(&v[i]);
            proof {
                Self::lemma_advanced_trans(s0, m, *self, hc_stmts(v@.take(i as int), st, at), hc_stmt(v@[i as int], st, at));
                assert(v@.take(i + 1).drop_last() =~= v@.take(i as int));
            }
            i = i + 1;
        }
        proof { assert(v@.take(v@.len() as int) =~= v@); }
    }

    fn visit_stmt(&mut self, x: &Stmt)
        requires
            old(self).wf(),
        ensures
            old(self).advanced(final(self), hc_stmt(*x, old(self).jsx_state, old(self).attrs_view())),
        decreases x, 0nat,
    {
        let ghost s0 = *self;
        match x {
            Stmt::Expr(e) => self.visit_expr(e),
            Stmt::Var(v) => self.visit_var_decl(v),
            Stmt::Fn(f) => self.visit_function(&f.function),
            Stmt::Import(_) => { proof { Self::lemma_advanced_empty(s0); } },
            Stmt::ExportDecl(d) => match d {
                Decl::Var(v) => self.visit_var_decl(v),
                Decl::Fn(f) => self.visit_function(&f.function),
                Decl::Other(children) => self.visit_stmts(children),
            },
            Stmt::ExportDefaultFn(d) => self.visit_function(&d.function),
            Stmt::ExportDefaultExpr(e) => self.visit_expr(e),
            Stmt::ExportDefaultClass { body, .. } => self.visit_stmts(body),
            Stmt::Other(children) => self.visit_stmts(children),
        }
    }

    #[verifier::loop_isolation(false)]
    fn visit_var_decl(&mut self, v: &VarDecl)
        requires
            old(self).wf(),
        ensures
            old(self).advanced(final(self), hc_decls(v.decls@, old(self).jsx_state, old(self).attrs_view())),
        decreases v, 0nat,
    {
        let ghost s0 = *self;
        let ghost st = self.jsx_state;
        let ghost at = self.attrs_view();
        proof { Self::lemma_advanced_empty(s0); }
        let mut i: usize = 0;
        while i < v.decls.len()
            invariant
                i <= v.decls@.len(),
                s0.advanced(self, hc_decls(v.decls@.take(i as int), st, at)),
            decreases v.decls@.len() - i,
        {
            proof { assert(decreases_to!(v.decls => v.decls@[i as int])); }
            let ghost m = *self;
            let d = &v.decls[i];
            self.visit_pat(&d.name);
            let ghost m2 = *self;
            match &d.init {
                Some(init) => self.visit_expr(init),
                None => { proof { Self::lemma_advanced_empty(m2); } },
            }
            proof {
                Self::lemma_advanced_trans(m, m2, *self, hc_pat(d.name, st, at), hc_opt(d.init, st, at));
                Self::lemma_advanced_trans(s0, m, *self, hc_decls(v.decls@.take(i as int), st, at),
                    hc_pat(d.name, st, at) + hc_opt(d.init, st, at));
                assert(v.decls@.take(i + 1).drop_last() =~= v.decls@.take(i as int));
                assert(hc_decls(v.decls@.take(i + 1), st, at) =~= hc_decls(v.decls@.take(i as int), st, at)
                    + (hc_pat(d.name, st, at) + hc_opt(d.init, st, at)));
            }
            i = i + 1;
        }
        proof { assert(v.decls@.take(v.decls@.len() as int) =~= v.decls@); }
    }

    fn visit_function(&mut self, f: &Function)
        requires
            old(self).wf(),
        ensures
            old(self).advanced(final(self), hc_fn(*f, old(self).jsx_state, old(self).attrs_view())),
        decreases f, 0nat,
    {
        let ghost s0 = *self;
        self.visit_pats(&f.params);
        let ghost m = *self;
        self.visit_stmts(&f.body);
        proof {
            Self::lemma_advanced_trans(s0, m, *self, hc_pats(f.params@, s0.jsx_state, s0.attrs_view()),
                hc_stmts(f.body@, s0.jsx_state, s0.attrs_view()));
        }
    }

    fn visit_arrow(&mut self, a: &ArrowExpr)
        requires
            old(self).wf(),
        ensures
            old(self).advanced(final(self), hc_arrow(*a, old(self).jsx_state, old(self).attrs_view())),
        decreases a, 0nat,
    {
        let ghost s0 = *self;
        self.visit_pats(&a.params);
        let ghost m = *self;
        self.visit_stmts(&a.body);
        proof {
            Self::lemma_advanced_trans(s0, m, *self, hc_pats(a.params@, s0.jsx_state, s0.attrs_view()),
                hc_stmts(a.body@, s0.jsx_state, s0.attrs_view()));
        }
    }

    #[verifier::loop_isolation(false)]
    fn visit_pats(&mut self, v: &Vec<Pat>)
        requires
            old(self).wf(),
        ensures
            old(self).advanced(final(self), hc_pats(v@, old(self).jsx_state, old(self).attrs_view())),
        decreases v, 0nat,
    {
        let ghost s0 = *self;
        let ghost st = self.jsx_state;
        let ghost at = self.attrs_view();
        proof { Self::lemma_advanced_empty(s0); }
        let mut i: usize = 0;
        while i < v.len()
            invariant
                i <= v@.len(),
                s0.advanced(self, hc_pats(v@.take(i as int), st, at)),
            decreases v@.len() - i,
        {
            proof { assert(decreases_to!(v => v@[i as int])); }
            let ghost m = *self;
            self.visit_pat(&v[i]);
            proof {
                Self::lemma_advanced_trans(s0, m, *self, hc_pats(v@.take(i as int), st, at), hc_pat(v@[i as int], st, at));
                assert(v@.take(i + 1).drop_last() =~= v@.take(i as int));
            }
            i = i + 1;
        }
        proof { assert(v@.take(v@.len() as int) =~= v@); }
    }

    #[verifier::loop_isolation(false)]
    fn visit_pat(&mut self, p: &Pat)
        requires
            old(self).wf(),
        ensures
            old(self).advanced(final(self), hc_pat(*p, old(self).jsx_state, old(self).attrs_view())),
        decreases p, 0nat,
    {
        let ghost s0 = *self;
        let ghost st = self.jsx_state;
        let ghost at = self.attrs_view();
        match p {
            Pat::Ident { .. } => { proof { Self::lemma_advanced_empty(s0); } },
            Pat::Object(props) => {
                proof { Self::lemma_advanced_empty(s0); }
                let mut i: usize = 0;
                while i < props.len()
                    invariant
                        i <= props@.len(),
                        s0.advanced(self, hc_opps(props@.take(i as int), st, at)),
                    decreases props@.len() - i,
                {
                    proof { assert(decreases_to!(props => props@[i as int])); }
                    let ghost m = *self;
                    match &props[i] {
                        ObjectPatProp::KeyValue { key, value } => {
                            self.visit_prop_name(key);
                            let ghost m2 = *self;
                            self.visit_pat(value);
                            proof { Self::lemma_advanced_trans(m, m2, *self, hc_prop_name(*key, st, at), hc_pat(*value, st, at)); }
                        },
                        ObjectPatProp::Assign { value, .. } => {
                            match value {
                                Some(e) => self.visit_expr(e),
                                None => { proof { Self::lemma_advanced_empty(m); } },
                            }
                        },
                        ObjectPatProp::Rest(q) => self.visit_pat(q),
                    }
                    proof {
                        let item = match props@[i as int] {
                            ObjectPatProp::KeyValue { key, value } => hc_prop_name(key, st, at) + hc_pat(value, st, at),
                            ObjectPatProp::Assign { value, .. } => hc_opt(value, st, at),
                            ObjectPatProp::Rest(q) => hc_pat(q, st, at),
                        };
                        Self::lemma_advanced_trans(s0, m, *self, hc_opps(props@.take(i as int), st, at), item);
                        assert(props@.take(i + 1).drop_last() =~= props@.take(i as int));
                    }
                    i = i + 1;
                }
                proof { assert(props@.take(props@.len() as int) =~= props@); }
            },
            Pat::Assign { left, right } => {
                self.visit_pat(left);
                let ghost m = *self;
                self.visit_expr(right);
                proof { Self::lemma_advanced_trans(s0, m, *self, hc_pat(**left, st, at), hc_expr(**right, st, at)); }
            },
            Pat::Array(elems) => {
                proof { Self::lemma_advanced_empty(s0); }
                let mut i: usize = 0;
                while i < elems.len()
                    invariant
                        i <= elems@.len(),
                        s0.advanced(self, hc_opats(elems@.take(i as int), st, at)),
                    decreases elems@.len() - i,
                {
                    proof { assert(decreases_to!(elems => elems@[i as int])); }
                    let ghost m = *self;
                    match &elems[i] {
                        Some(q) => self.visit_pat(q),
                        None => { proof { Self::lemma_advanced_empty(m); } },
                    }
                    proof {
                        let item = match elems@[i as int] {
                            Some(q) => hc_pat(q, st, at),
                            None => Seq::empty(),
                        };
                        Self::lemma_advanced_trans(s0, m, *self, hc_opats(elems@.take(i as int), st, at), item);
                        assert(elems@.take(i + 1).drop_last() =~= elems@.take(i as int));
                    }
                    i = i + 1;
                }
                proof { assert(elems@.take(elems@.len() as int) =~= elems@); }
            },
            Pat::Rest(q) => self.visit_pat(q),
            Pat::Other(children) => self.visit_stmts(children),
        }
    }

    fn visit_prop_name(&mut self, k: &PropName)
        requires
            old(self).wf(),
        ensures
            old(self).advanced(final(self), hc_prop_name(*k, old(self).jsx_state, old(self).attrs_view())),
        decreases k, 0nat,
    {
        let ghost s0 = *self;
        match k {
            PropName::Other(children) => self.visit_stmts(children),
            _ => { proof { Self::lemma_advanced_empty(s0); } },
        }
    }

    #[verifier::loop_isolation(false)]
    fn visit_exprs(&mut self, v: &Vec<Expr>)
        requires
            old(self).wf(),
        ensures
            old(self).advanced(final(self), hc_exprs(v@, old(self).jsx_state, old(self).attrs_view())),
        decreases v, 0nat,
    {
        let ghost s0 = *self;
        let ghost st = self.jsx_state;
        let ghost at = self.attrs_view();
        proof { Self::lemma_advanced_empty(s0); }
        let mut i: usize = 0;
        while i < v.len()
            invariant
                i <= v@.len(),
                s0.advanced(self, hc_exprs(v@.take(i as int), st, at)),
            decreases v@.len() - i,
        {
            proof { assert(decreases_to!(v => v@[i as int])); }
            let ghost m = *self;
            self.visit_expr(&v[i]);
            proof {
                Self::lemma_advanced_trans(s0, m, *self, hc_exprs(v@.take(i as int), st, at), hc_expr(v@[i as int], st, at));
                assert(v@.take(i + 1).drop_last() =~= v@.take(i as int));
            }
            i = i + 1;
        }
        proof { assert(v@.take(v@.len() as int) =~= v@); }
    }

    #[verifier::loop_isolation(false)]
    fn visit_call(&mut self, c: &CallExpr)
        requires
            old(self).wf(),
        ensures
            old(self).advanced(final(self), hc_call(*c, old(self).jsx_state, old(self).attrs_view())),
        decreases c, 0nat,
    {
        let ghost s0 = *self;
        let ghost st = self.jsx_state;
        let ghost at = self.attrs_view();
        match &c.callee {
            Some(callee) => {
                proof { assert(decreases_to!(c => **callee)); }
                self.visit_expr(callee);
            },
            None => { proof { Self::lemma_advanced_empty(s0); } },
        }
        let ghost s1 = *self;
        let ghost head = match &c.callee {
            Some(x) => hc_expr(**x, st, at),
            None => Seq::<Finding>::empty(),
        };
        proof { Self::lemma_advanced_empty(s1); }
        let mut i: usize = 0;
        while i < c.args.len()
            invariant
                i <= c.args@.len(),
                s1.advanced(self, hc_args(c.args@.take(i as int), st, at)),
            decreases c.args@.len() - i,
        {
            proof { assert(decreases_to!(c.args => c.args@[i as int])); }
            let ghost m = *self;
            self.visit_expr(&c.args[i].expr);
            proof {
                Self::lemma_advanced_trans(s1, m, *self, hc_args(c.args@.take(i as int), st, at), hc_expr(c.args@[i as int].expr, st, at));
                assert(c.args@.take(i + 1).drop_last() =~= c.args@.take(i as int));
            }
            i = i + 1;
        }
        proof {
            assert(c.args@.take(c.args@.len() as int) =~= c.args@);
            Self::lemma_advanced_trans(s0, s1, *self, head, hc_args(c.args@, st, at));
        }
    }

    #[verifier::loop_isolation(false)]
    fn visit_props(&mut self, v: &Vec<PropOrSpread>)
        requires
            old(self).wf(),
        ensures
            old(self).advanced(final(self), hc_props(v@, old(self).jsx_state, old(self).attrs_view())),
        decreases v, 0nat,
    {
        let ghost s0 = *self;
        let ghost st = self.jsx_state;
        let ghost at = self.attrs_view();
        proof { Self::lemma_advanced_empty(s0); }
        let mut i: usize = 0;
        while i < v.len()
            invariant
                i <= v@.len(),
                s0.advanced(self, hc_props(v@.take(i as int), st, at)),
            decreases v@.len() - i,
        {
            proof { assert(decreases_to!(v => v@[i as int])); }
            let ghost m = *self;
            match &v[i] {
                PropOrSpread::Spread(e) => self.visit_expr(e),
                PropOrSpread::KeyValue { key, value } => {
                    self.visit_prop_name(key);
                    let ghost m2 = *self;
                    self.visit_expr(value);
                    proof { Self::lemma_advanced_trans(m, m2, *self, hc_prop_name(*key, st, at), hc_expr(*value, st, at)); }
                },
                PropOrSpread::Shorthand(_) => { proof { Self::lemma_advanced_empty(m); } },
                PropOrSpread::Method { key, function } => {
                    self.visit_prop_name(key);
                    let ghost m2 = *self;
                    self.visit_function(function);
                    proof { Self::lemma_advanced_trans(m, m2, *self, hc_prop_name(*key, st, at), hc_fn(*function, st, at)); }
                },
                PropOrSpread::Other(children) => self.visit_stmts(children),
            }
            proof {
                let item = match v@[i as int] {
                    PropOrSpread::Spread(e) => hc_expr(e, st, at),
                    PropOrSpread::KeyValue { key, value } => hc_prop_name(key, st, at) + hc_expr(value, st, at),
                    PropOrSpread::Shorthand(_) => Seq::empty(),
                    PropOrSpread::Method { key, function } => hc_prop_name(key, st, at) + hc_fn(function, st, at),
                    PropOrSpread::Other(c) => hc_stmts(c@, st, at),
                };
                Self::lemma_advanced_trans(s0, m, *self, hc_props(v@.take(i as int), st, at), item);
                assert(v@.take(i + 1).drop_last() =~= v@.take(i as int));
            }
            i = i + 1;
        }
        proof { assert(v@.take(v@.len() as int) =~= v@); }
    }

    #[verifier::loop_isolation(false)]
    fn visit_expr(&mut self, e: &Expr)
        requires
            old(self).wf(),
        ensures
            old(self).advanced(final(self), hc_expr(*e, old(self).jsx_state, old(self).attrs_view())),
        decreases e, 0nat,
    {
        let ghost s0 = *self;
        let ghost st = self.jsx_state;
        let ghost at = self.attrs_view();
        match e {
            Expr::Tpl(t) => self.visit_exprs(&t.exprs),
            Expr::Cond { test, cons, alt } => {
                self.visit_expr(test);
                let ghost m1 = *self;
                self.visit_expr(cons);
                let ghost m2 = *self;
                self.visit_expr(alt);
                proof {
                    Self::lemma_advanced_trans(s0, m1, m2, hc_expr(**test, st, at), hc_expr(**cons, st, at));
                    Self::lemma_advanced_trans(s0, m2, *self, hc_expr(**test, st, at) + hc_expr(**cons, st, at), hc_expr(**alt, st, at));
                }
            },
            Expr::Bin { left, right, .. } => {
                self.visit_expr(left);
                let ghost m1 = *self;
                self.visit_expr(right);
                proof { Self::lemma_advanced_trans(s0, m1, *self, hc_expr(**left, st, at), hc_expr(**right, st, at)); }
            },
            Expr::Paren(x) => self.visit_expr(x),
            Expr::TsAs(x) => self.visit_expr(x),
            Expr::TsConst(x) => self.visit_expr(x),
            Expr::TsSatisfies(x) => self.visit_expr(x),
            Expr::Await(x) => self.visit_expr(x),
            Expr::Call(c) => self.visit_call(c),
            Expr::Member { obj, prop } => {
                self.visit_expr(obj);
                let ghost m1 = *self;
                match prop {
                    MemberProp::Computed(k) => self.visit_expr(k),
                    _ => { proof { Self::lemma_advanced_empty(m1); } },
                }
                proof {
                    let tail = match prop {
                        MemberProp::Computed(k) => hc_expr(**k, st, at),
                        _ => Seq::empty(),
                    };
                    Self::lemma_advanced_trans(s0, m1, *self, hc_expr(**obj, st, at), tail);
                }
            },
            Expr::Arrow(a) => self.visit_arrow(a),
            Expr::Fn(f) => self.visit_function(f),
            Expr::Object(props) => self.visit_props(props),
            Expr::Array(elems) => {
                proof { Self::lemma_advanced_empty(s0); }
                let mut i: usize = 0;
                while i < elems.len()
                    invariant
                        i <= elems@.len(),
                        s0.advanced(self, hc_oargs(elems@.take(i as int), st, at)),
                    decreases elems@.len() - i,
                {
                    proof { assert(decreases_to!(elems => elems@[i as int])); }
                    let ghost m = *self;
                    match &elems[i] {
                        Some(x) => self.visit_expr(&x.expr),
                        None => { proof { Self::lemma_advanced_empty(m); } },
                    }
                    proof {
                        let item = match elems@[i as int] {
                            Some(x) => hc_expr(x.expr, st, at),
                            None => Seq::empty(),
                        };
                        Self::lemma_advanced_trans(s0, m, *self, hc_oargs(elems@.take(i as int), st, at), item);
                        assert(elems@.take(i + 1).drop_last() =~= elems@.take(i as int));
                    }
                    i = i + 1;
                }
                proof { assert(elems@.take(elems@.len() as int) =~= elems@); }
            },
            Expr::JSXElement(el) => self.visit_jsx_element(el),
            Expr::JSXFragment(children) => self.visit_jsx_fragment(children),
            Expr::Other { children, .. } => self.visit_stmts(children),
            _ => { proof { Self::lemma_advanced_empty(s0); } },
        }
    }

    /// `{...}`: its literal texts are checked, then it is walked, as an expression.
    fn visit_jsx_container(&mut self, x: &Option<Expr>)
        requires
            old(self).wf(),
        ensures
            old(self).advanced(final(self), hc_container(*x, old(self).jsx_state, old(self).attrs_view())),
        decreases x, 0nat,
    {
        let ghost s0 = *self;
        let ghost at = self.attrs_view();
        let prev = self.jsx_state;
        self.jsx_state.in_expr = true;
        let ghost m0 = *self;
        assert(m0.jsx_state == in_container(prev));
        match x {
            Some(e) => {
                self.check_expr(e);
                let ghost m1 = *self;
                self.visit_expr(e);
                proof {
                    Self::lemma_advanced_trans(m0, m1, *self, hc_literals(*e, in_container(prev)), hc_expr(*e, in_container(prev), at));
                }
            },
            None => { proof { Self::lemma_advanced_empty(m0); } },
        }
        self.jsx_state = prev;
        proof {
            assert(s0.spec_reported(hc_container(*x, prev, at)) == m0.spec_reported(hc_container(*x, prev, at)));
        }
    }

    /// An attribute: a string value of a checked attribute is checked;
    /// nothing inside an attribute is walked.
    fn visit_jsx_attr(&mut self, name: &JSXAttrName, value: &Option<JSXAttrValue>)
        requires
            old(self).wf(),
        ensures
            old(self).advanced(final(self), hc_attr(*name, *value, old(self).jsx_state, old(self).attrs_view())),
    {
        let ghost s0 = *self;
        let ghost at = self.attrs_view();
        let attr_name = match name {
            JSXAttrName::Ident(n) => n.clone(),
            JSXAttrName::Namespaced(ns, n) => concat3(ns.as_str(), "-", n.as_str()),
        };
        assert(attr_name@ == attr_name_view(*name));
        let mut checked = false;
        let mut i: usize = 0;
        while i < self.checked_attributes.len()
            invariant
                i <= self.checked_attributes@.len(),
                at == self.attrs_view(),
                checked <==> exists|j: int| 0 <= j < i && at[j] == attr_name@,
            decreases self.checked_attributes@.len() - i,
        {
            if str_eq(self.checked_attributes[i].as_str(), attr_name.as_str()) {
                checked = true;
                assert(at[i as int] == attr_name@);
            }
            i = i + 1;
        }
        if !checked {
            proof {
                Self::lemma_advanced_empty(s0);
                if at.contains(attr_name@) {
                    let j = choose|j: int| 0 <= j < at.len() && at[j] == attr_name@;
                    assert(at[j] == attr_name@);
                }
            }
            return;
        }
        proof {
            let j = choose|j: int| 0 <= j < i && at[j] == attr_name@;
            assert(at.contains(attr_name@));
        }
        let prev = self.jsx_state;
        self.jsx_state.in_attr = true;
        let ghost m0 = *self;
        assert(m0.jsx_state == in_attribute(prev));
        match value {
            Some(JSXAttrValue::Str(Some(v), pos)) => self.check_one(v.as_str(), *pos),
            _ => { proof { Self::lemma_advanced_empty(m0); } },
        }
        self.jsx_state = prev;
        proof {
            assert(s0.spec_reported(hc_attr(*name, *value, prev, at)) == m0.spec_reported(hc_attr(*name, *value, prev, at)));
        }
    }

    /// Attributes keep the current state; the children of a `<style>`
    /// element are skipped; other children are JSX context.
    #[verifier::loop_isolation(false)]
    fn visit_jsx_element(&mut self, el: &JSXElement)
        requires
            old(self).wf(),
        ensures
            old(self).advanced(final(self), hc_element(*el, old(self).jsx_state, old(self).attrs_view())),
        decreases el, 0nat,
    {
        let ghost s0 = *self;
        let ghost st = self.jsx_state;
        let ghost at = self.attrs_view();
        proof { Self::lemma_advanced_empty(s0); }
        let mut i: usize = 0;
        while i < el.attrs.len()
            invariant
                i <= el.attrs@.len(),
                s0.advanced(self, hc_attrs(el.attrs@.take(i as int), st, at)),
            decreases el.attrs@.len() - i,
        {
            proof { assert(decreases_to!(el.attrs => el.attrs@[i as int])); }
            let ghost m = *self;
            match &el.attrs[i] {
                JSXAttrOrSpread::Attr(a) => self.visit_jsx_attr(&a.name, &a.value),
                JSXAttrOrSpread::Spread(x) => self.visit_expr(x),
            }
            proof {
                let item = match el.attrs@[i as int] {
                    JSXAttrOrSpread::Attr(a) => hc_attr(a.name, a.value, st, at),
                    JSXAttrOrSpread::Spread(x) => hc_expr(x, st, at),
                };
                Self::lemma_advanced_trans(s0, m, *self, hc_attrs(el.attrs@.take(i as int), st, at), item);
                assert(el.attrs@.take(i + 1).drop_last() =~= el.attrs@.take(i as int));
            }
            i = i + 1;
        }
        proof { assert(el.attrs@.take(el.attrs@.len() as int) =~= el.attrs@); }
        let is_style_el = match &el.name {
            JSXElementName::Ident(n) => str_eq(n.as_str(), "style"),
            _ => false,
        };
        if is_style_el {
            proof { assert(hc_attrs(el.attrs@, st, at) + Seq::<Finding>::empty() =~= hc_attrs(el.attrs@, st, at)); }
            return;
        }
        let ghost s1 = *self;
        let prev = self.jsx_state;
        self.jsx_state = prev.for_children();
        let ghost m0 = *self;
        assert(m0.jsx_state == children_state(prev));
        self.visit_jsx_children(&el.children);
        let ghost m1 = *self;
        self.jsx_state = prev;
        proof {
            assert(s1.spec_reported(hc_children(el.children@, children_state(prev), at))
                == m0.spec_reported(hc_children(el.children@, children_state(prev), at)));
            assert(s1.advanced(self, hc_children(el.children@, children_state(prev), at)));
            Self::lemma_advanced_trans(s0, s1, *self, hc_attrs(el.attrs@, st, at), hc_children(el.children@, children_state(prev), at));
        }
    }

    fn visit_jsx_fragment(&mut self, children: &Vec<JSXChild>)
        requires
            old(self).wf(),
        ensures
            old(self).advanced(final(self), hc_children(children@, children_state(old(self).jsx_state), old(self).attrs_view())),
        decreases children, 1nat,
    {
        let ghost s0 = *self;
        let ghost at = self.attrs_view();
        let prev = self.jsx_state;
        self.jsx_state = prev.for_children();
        let ghost m0 = *self;
        assert(m0.jsx_state == children_state(prev));
        self.visit_jsx_children(children);
        self.jsx_state = prev;
        proof {
            assert(s0.spec_reported(hc_children(children@, children_state(prev), at))
                == m0.spec_reported(hc_children(children@, children_state(prev), at)));
        }
    }

    #[verifier::loop_isolation(false)]
    fn visit_jsx_children(&mut self, v: &Vec<JSXChild>)
        requires
            old(self).wf(),
        ensures
            old(self).advanced(final(self), hc_children(v@, old(self).jsx_state, old(self).attrs_view())),
        decreases v, 0nat,
    {
        let ghost s0 = *self;
        let ghost st = self.jsx_state;
        let ghost at = self.attrs_view();
        proof { Self::lemma_advanced_empty(s0); }
        let mut i: usize = 0;
        while i < v.len()
            invariant
                i <= v@.len(),
                s0.advanced(self, hc_children(v@.take(i as int), st, at)),
            decreases v@.len() - i,
        {
            proof { assert(decreases_to!(v => v@[i as int])); }
            let ghost m = *self;
            match &v[i] {
                JSXChild::Text(raw, pos) => {
                    let t = trim(raw.as_str());
                    if chars_of(t.as_str()).len() > 0 {
                        self.check_one(t.as_str(), *pos);
                    } else {
                        proof { Self::lemma_advanced_empty(m); }
                    }
                },
                JSXChild::Container(x) => self.visit_jsx_container(x),
                JSXChild::Spread(x) => self.visit_expr(x),
                JSXChild::Element(el) => self.visit_jsx_element(el),
                JSXChild::Fragment(children) => self.visit_jsx_fragment(children),
            }
            proof {
                let item = match v@[i as int] {
                    JSXChild::Text(raw, pos) => if trimmed(raw@).len() > 0 { seq![(trimmed(raw@), pos, st)] } else { Seq::empty() },
                    JSXChild::Container(x) => hc_container(x, st, at),
                    JSXChild::Spread(x) => hc_expr(x, st, at),
                    JSXChild::Element(el) => hc_element(*el, st, at),
                    JSXChild::Fragment(c) => hc_children(c@, children_state(st), at),
                };
                Self::lemma_advanced_trans(s0, m, *self, hc_children(v@.take(i as int), st, at), item);
                assert(v@.take(i + 1).drop_last() =~= v@.take(i as int));
            }
            i = i + 1;
        }
        proof { assert(v@.take(v@.len() as int) =~= v@); }
    }
}

} // verus!

