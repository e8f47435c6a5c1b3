//! Cargo-style reports of issues, as lines of styled text.
//!
//! Each line is a list of segments with a style (the terminal colours are
//! chosen by whoever prints them); the text of the report is the segments'
//! text, line by line.

use vstd::prelude::*;

use crate::issues::{Issue, ResolvedKeyUsage, Severity};
use crate::text::{chars_of, concat3, decimal, push_char, push_text, string_from_chars, text, usize_text};

verus! {

/// How a segment of a report line is shown.
#[derive(Debug, Clone, Copy, PartialEq, Eq, Structural)]
pub enum Style {
    Plain,
    /// `error` (bold red).
    Error,
    /// `warning` (bold yellow).
    Warning,
    /// The rule's name (dimmed cyan).
    Rule,
    /// Arrows, gutters and `=` (blue).
    Gutter,
    /// A caret under an error (red).
    ErrorCaret,
    /// A caret under a warning (yellow).
    WarningCaret,
    /// A label such as `note:` or `used:` (bold).
    Label,
    /// The `hint:` label (bold cyan).
    HintLabel,
    /// Secondary text (dimmed).
    Dimmed,
    /// Success text (green).
    Success,
    /// The failure mark and error counts (red).
    Failure,
    /// Warning counts (yellow).
    Caution,
    /// A command-line flag (cyan).
    Flag,
}

/// A piece of text with a style.
#[derive(Debug, Clone)]
pub struct Segment {
    pub text: String,
    pub style: Style,
}

/// One line of a report.
#[derive(Debug, Clone)]
pub struct Line {
    pub segments: Vec<Segment>,
}

/// The text of a list of segments.
pub open spec fn segs_text(s: Seq<Segment>) -> Seq<char>
    decreases s.len(),
{
    if s.len() == 0 { Seq::empty() } else { segs_text(s.drop_last()) + s.last().text@ }
}

/// The text of a line.
pub open spec fn line_text(l: Line) -> Seq<char> {
    segs_text(l.segments@)
}

/// The texts of lines.
pub open spec fn lines_text(ls: Seq<Line>) -> Seq<Seq<char>> {
    ls.map_values(|l: Line| line_text(l))
}

pub(crate) fn push_seg(segs: &mut Vec<Segment>, t: String, style: Style)
    ensures
        segs_text(final(segs)@) == segs_text(old(segs)@) + t@,
{
    let ghost s0 = segs@;
    segs.push(Segment { text: t, style });
    assert(segs@.drop_last() =~= s0);
}

/// The success mark `✓`.
pub open spec fn success_mark() -> Seq<char> {
    seq!['\u{2713}']
}

/// The failure mark `✘`.
pub open spec fn failure_mark() -> Seq<char> {
    seq!['\u{2718}']
}

/// `n` spaces.
pub open spec fn spaces(n: nat) -> Seq<char> {
    Seq::new(n, |i: int| ' ')
}

/// `s` right-aligned in `w` columns (as `format!("{:>w$}", s)` for ASCII text).
pub open spec fn pad_left(s: Seq<char>, w: nat) -> Seq<char> {
    if s.len() < w { spaces((w - s.len()) as nat) + s } else { s }
}

pub(crate) fn spaces_exec(n: usize) -> (r: String)
    ensures
        r@ == spaces(n as nat),
{
    let mut r = String::new();
    let mut i: usize = 0;
    while i < n
        invariant
            i <= n,
            r@ == spaces(i as nat),
        decreases n - i,
    {
        push_char(&mut r, ' ');
        assert(r@ =~= spaces((i + 1) as nat));
        i = i + 1;
    }
    r
}

pub(crate) fn pad_left_exec(s: String, w: usize) -> (r: String)
    ensures
        r@ == pad_left(s@, w as nat),
{
    let n = chars_of(s.as_str()).len();
    if n < w {
        let mut r = spaces_exec(w - n);
        push_text(&mut r, s.as_str());
        r
    } else {
        s
    }
}

/// The display width of a text in columns (`UnicodeWidthStr::width`).
pub uninterp spec fn spec_text_width(s: Seq<char>) -> usize;

/// `unicode_width::UnicodeWidthStr::width`: the display width of a string;
/// what the width of each character is, the crate's tables decide.
#[verifier::external_body]
pub(crate) fn text_width(s: &str) -> (r: usize)
    ensures
        r == spec_text_width(s@),
{
    unicode_width::UnicodeWidthStr::width(s)
}

/// The columns before the caret: the width of the first `col - 1` characters.
pub open spec fn caret_padding(source_line: Seq<char>, col: usize) -> usize {
    let n = if col as int - 1 < source_line.len() { col as int - 1 } else { source_line.len() as int };
    if col > 1 { spec_text_width(source_line.take(n)) } else { spec_text_width(Seq::empty()) }
}

pub open spec fn severity_word(s: Severity) -> Seq<char> {
    match s {
        Severity::Error => "error"@,
        Severity::Warning => "warning"@,
    }
}

/// `path:line:col`.
pub open spec fn place(path: Seq<char>, line: usize, col: usize) -> Seq<char> {
    path + ":"@ + decimal(line as nat) + ":"@ + decimal(col as nat)
}

/// At most this many usages are listed per issue.
pub const MAX_USAGES_DISPLAY: usize = 3;

/// The usage lines of an issue: the first three, the last of them saying
/// how many more there are.
pub open spec fn usage_lines(us: Seq<ResolvedKeyUsage>, w: nat) -> Seq<Seq<char>> {
    let shown = if us.len() < 3 { us.len() } else { 3 };
    Seq::new(shown, |i: int| spaces(w) + " = used: "@
        + place(us[i].context.location.file_path@, us[i].context.location.line, us[i].context.location.col)
        + if i == shown - 1 && us.len() > shown { " (and "@ + decimal((us.len() - shown) as nat) + " more)"@ } else { Seq::empty() })
}

/// The lines of one issue in a report whose line numbers take `w` columns.
pub open spec fn issue_lines(issue: Issue, w: nat) -> Seq<Seq<char>> {
    let head = seq![severity_word(issue.spec_severity()) + ": \""@ + issue.spec_message() + "\"  "@
        + issue.spec_rule().spec_name()];
    let at = seq!["  --> "@ + place(issue.spec_path(), issue.spec_line(), issue.spec_col())];
    let src = match issue.spec_source_line() {
        Some(sl) => seq![
            spaces(w) + " |"@,
            pad_left(decimal(issue.spec_line() as nat), w) + " | "@ + sl,
            spaces(w) + " | "@ + spaces(caret_padding(sl, issue.spec_col()) as nat) + "^"@
        ],
        None => Seq::empty(),
    };
    let note = match issue.spec_details() {
        Some(d) => seq![spaces(w) + " = note: "@ + d],
        None => Seq::empty(),
    };
    let hint = match issue.spec_hint() {
        Some(h) => seq![spaces(w) + " = hint: "@ + h],
        None => Seq::empty(),
    };
    let us = match issue {
        Issue::ReplicaLag(i) => i.usages@,
        Issue::Untranslated(i) => i.usages@,
        Issue::TypeMismatch(i) => i.usages@,
        _ => Seq::empty(),
    };
    let used = if us.len() > 0 {
        usage_lines(us, w)
    } else if issue.spec_lists_usages() {
        seq![spaces(w) + " = used: (no usages found)"@]
    } else {
        Seq::empty()
    };
    head + at + src + note + hint + used + seq![Seq::empty()]
}

fn gutter_line(w: usize, rest: Vec<Segment>, rest_text: Ghost<Seq<char>>) -> (r: Line)
    requires
        segs_text(rest@) == rest_text@,
    ensures
        line_text(r) == spaces(w as nat) + " "@ + rest_text@,
{
    let mut segs: Vec<Segment> = Vec::new();
    push_seg(&mut segs, spaces_exec(w), Style::Plain);
    push_seg(&mut segs, text(" "), Style::Plain);
    let mut rest = rest;
    let mut i: usize = 0;
    let ghost base = segs_text(segs@);
    let n = rest.len();
    while i < n
        invariant
            n == rest@.len(),
            i <= n,
            segs_text(segs@) == base + segs_text(rest@.take(i as int)),
        decreases n - i,
    {
        proof {
            assert(rest@.take(i + 1).drop_last() =~= rest@.take(i as int));
        }
        let s = Segment { text: rest[i].text.clone(), style: rest[i].style };
        let ghost s0 = segs@;
        segs.push(s);
        assert(segs@.drop_last() =~= s0);
        i = i + 1;
    }
    assert(rest@.take(n as int) =~= rest@);
    Line { segments: segs }
}

pub(crate) fn push_line(out: &mut Vec<Line>, l: Line)
    ensures
        lines_text(final(out)@) == lines_text(old(out)@).push(line_text(l)),
{
    let ghost o0 = out@;
    out.push(l);
    assert(out@.drop_last() =~= o0);
    assert(lines_text(out@) =~= lines_text(o0).push(line_text(l)));
}

fn one_seg(t: String, style: Style) -> (r: Vec<Segment>)
    ensures
        segs_text(r@) == t@,
{
    let mut v: Vec<Segment> = Vec::new();
    push_seg(&mut v, t, style);
    assert(segs_text(v@) =~= t@);
    v
}

/// `= label value` after the gutter.
fn note_line(w: usize, label: &str, label_style: Style, value: String) -> (r: Line)
    ensures
        line_text(r) == spaces(w as nat) + " = "@ + label@ + " "@ + value@,
{
    let mut segs: Vec<Segment> = Vec::new();
    push_seg(&mut segs, text("="), Style::Gutter);
    push_seg(&mut segs, text(" "), Style::Plain);
    push_seg(&mut segs, text(label), label_style);
    push_seg(&mut segs, text(" "), Style::Plain);
    let ghost vt = value@;
    push_seg(&mut segs, value, Style::Plain);
    let r = gutter_line(w, segs, Ghost("="@ + " "@ + label@ + " "@ + vt));
    proof {
        reveal_strlit("=");
        reveal_strlit(" ");
        reveal_strlit(" = ");
    }
    assert(line_text(r) =~= spaces(w as nat) + " = "@ + label@ + " "@ + vt);
    r
}

/// The lines that list the usages of an issue.
fn usage_lines_exec(us: &[ResolvedKeyUsage], w: usize) -> (r: Vec<Line>)
    ensures
        lines_text(r@) == usage_lines(us@, w as nat),
{
    let total = us.len();
    let shown = if total < MAX_USAGES_DISPLAY { total } else { MAX_USAGES_DISPLAY };
    let mut r: Vec<Line> = Vec::new();
    let mut i: usize = 0;
    while i < shown
        invariant
            shown == (if us@.len() < 3 { us@.len() } else { 3 }),
            total == us@.len(),
            i <= shown,
            lines_text(r@) == usage_lines(us@, w as nat).take(i as int),
        decreases shown - i,
    {
        let c = &us[i].context;
        let mut p = concat3(c.file_path(), ":", usize_text(c.line()).as_str());
        push_text(&mut p, ":");
        push_text(&mut p, usize_text(c.col()).as_str());
        if i == shown - 1 && total > shown {
            let more = usize_text(total - shown);
            push_text(&mut p, " (and ");
            push_text(&mut p, more.as_str());
            push_text(&mut p, " more)");
        }
        let line = note_line(w, "used:", Style::Label, p);
        proof {
            reveal_strlit(" = ");
            reveal_strlit("used:");
            reveal_strlit(" ");
            reveal_strlit(" = used: ");
        }
        let ghost r0 = r@;
        assert(line_text(line) =~= usage_lines(us@, w as nat)[i as int]);
        r.push(line);
        proof {
            assert(r@.drop_last() =~= r0);
            assert(lines_text(r@) =~= lines_text(r0).push(line_text(line)));
            assert(usage_lines(us@, w as nat).take(i + 1) =~= usage_lines(us@, w as nat).take(i as int).push(usage_lines(us@, w as nat)[i as int]));
        }
        i = i + 1;
    }
    assert(usage_lines(us@, w as nat).take(shown as int) =~= usage_lines(us@, w as nat));
    r
}

/// Renders one issue; `w` is the width of the line-number column.
pub fn render_issue(issue: &Issue, w: usize) -> (r: Vec<Line>)
    ensures
        lines_text(r@) == issue_lines(*issue, w as nat),
{
    let ghost wn = w as nat;
    let loc = issue.location();
    let severity = issue.report_severity();
    let mut out: Vec<Line> = Vec::new();
    let ghost expected = issue_lines(*issue, wn);

    // error: "message"  rule
    let mut head: Vec<Segment> = Vec::new();
    let (word, sev_style, caret_style) = match severity {
        Severity::Error => (text("error"), Style::Error, Style::ErrorCaret),
        Severity::Warning => (text("warning"), Style::Warning, Style::WarningCaret),
    };
    push_seg(&mut head, word, sev_style);
    push_seg(&mut head, text(": \""), Style::Plain);
    push_seg(&mut head, issue.message(), Style::Plain);
    push_seg(&mut head, text("\"  "), Style::Plain);
    push_seg(&mut head, issue.report_rule().to_string(), Style::Rule);
    push_line(&mut out, Line { segments: head });
    let ghost n1 = lines_text(out@);
    assert(n1 =~= seq![severity_word(issue.spec_severity()) + ": \""@ + issue.spec_message() + "\"  "@ + issue.spec_rule().spec_name()]);

    //   --> path:line:col
    let mut at: Vec<Segment> = Vec::new();
    push_seg(&mut at, text("  "), Style::Plain);
    push_seg(&mut at, text("-->"), Style::Gutter);
    push_seg(&mut at, text(" "), Style::Plain);
    let mut p = concat3(loc.file_path.as_str(), ":", usize_text(loc.line).as_str());
    push_text(&mut p, ":");
    push_text(&mut p, usize_text(loc.col).as_str());
    push_seg(&mut at, p, Style::Plain);
    let ghost at_text = segs_text(at@);
    push_line(&mut out, Line { segments: at });
    let ghost n2 = lines_text(out@);
    proof {
        reveal_strlit("  ");
        reveal_strlit("-->");
        reveal_strlit(" ");
        reveal_strlit("  --> ");
    }
    assert(at_text =~= "  --> "@ + place(issue.spec_path(), issue.spec_line(), issue.spec_col()));
    assert(n2 =~= n1 + seq!["  --> "@ + place(issue.spec_path(), issue.spec_line(), issue.spec_col())]);

    let ghost n3: Seq<Seq<char>>;
    match &loc.source_line {
        Some(sl) => {
            let g1 = gutter_line(w, one_seg(text("|"), Style::Gutter), Ghost("|"@));
            let ghost g1t = line_text(g1);
            push_line(&mut out, g1);
            let mut num: Vec<Segment> = Vec::new();
            push_seg(&mut num, pad_left_exec(usize_text(loc.line), w), Style::Gutter);
            push_seg(&mut num, text(" "), Style::Plain);
            push_seg(&mut num, text("|"), Style::Gutter);
            push_seg(&mut num, text(" "), Style::Plain);
            push_seg(&mut num, sl.clone(), Style::Plain);
            let ghost numt = segs_text(num@);
            push_line(&mut out, Line { segments: num });
            let chars = chars_of(sl.as_str());
            let take = if loc.col > 1 {
                if loc.col - 1 < chars.len() { loc.col - 1 } else { chars.len() }
            } else {
                0
            };
            let prefix_chars = crate::lines::s_range(&chars, 0, take);
            let prefix = string_from_chars(prefix_chars.as_slice());
            proof {
                if loc.col <= 1 {
                    assert(prefix@ =~= Seq::<char>::empty());
                } else {
                    assert(prefix@ =~= sl@.take(take as int));
                }
            }
            let padding = text_width(prefix.as_str());
            let mut caret: Vec<Segment> = Vec::new();
            push_seg(&mut caret, text("|"), Style::Gutter);
            push_seg(&mut caret, text(" "), Style::Plain);
            push_seg(&mut caret, spaces_exec(padding), Style::Plain);
            push_seg(&mut caret, text("^"), caret_style);
            let ghost ct = "|"@ + " "@ + spaces(padding as nat) + "^"@;
            let g3 = gutter_line(w, caret, Ghost(ct));
            let ghost g3t = line_text(g3);
            push_line(&mut out, g3);
            proof {
                reveal_strlit("|");
                reveal_strlit(" ");
                reveal_strlit(" |");
                reveal_strlit(" | ");
                n3 = lines_text(out@);
                assert(g1t =~= spaces(wn) + " |"@);
                assert(numt =~= pad_left(decimal(issue.spec_line() as nat), wn) + " | "@ + sl@);
                assert(g3t =~= spaces(wn) + " | "@ + spaces(caret_padding(sl@, issue.spec_col()) as nat) + "^"@);
                assert(n3 =~= n2 + seq![
                    spaces(wn) + " |"@,
                    pad_left(decimal(issue.spec_line() as nat), wn) + " | "@ + sl@,
                    spaces(wn) + " | "@ + spaces(caret_padding(sl@, issue.spec_col()) as nat) + "^"@
                ]);
            }
        },
        None => {
            proof { n3 = n2; }
        },
    }

    let ghost n4: Seq<Seq<char>>;
    match issue.details() {
        Some(d) => {
            let ghost dv = d@;
            let nl = note_line(w, "note:", Style::Label, d);
            let ghost nlt = line_text(nl);
            push_line(&mut out, nl);
            proof {
                reveal_strlit(" = note: ");
                reveal_strlit(" = ");
                reveal_strlit("note:");
                reveal_strlit(" ");
                assert(nlt =~= spaces(wn) + " = note: "@ + dv);
                n4 = lines_text(out@);
                assert(n4 =~= n3 + seq![spaces(wn) + " = note: "@ + dv]);
            }
        },
        None => { proof { n4 = n3; } },
    }

    let ghost n5: Seq<Seq<char>>;
    match issue.hint() {
        Some(h) => {
            let ghost hv = h@;
            let nl = note_line(w, "hint:", Style::HintLabel, h);
            let ghost nlt = line_text(nl);
            push_line(&mut out, nl);
            proof {
                reveal_strlit(" = hint: ");
                reveal_strlit(" = ");
                reveal_strlit("hint:");
                reveal_strlit(" ");
                assert(nlt =~= spaces(wn) + " = hint: "@ + hv);
                n5 = lines_text(out@);
                assert(n5 =~= n4 + seq![spaces(wn) + " = hint: "@ + hv]);
            }
        },
        None => { proof { n5 = n4; } },
    }

    let usages = issue.usages();
    let ghost n6: Seq<Seq<char>>;
    if usages.len() > 0 {
        let mut ul = usage_lines_exec(usages, w);
        let ghost uv = lines_text(ul@);
        let ghost o0 = out@;
        out.append(&mut ul);
        proof {
            n6 = lines_text(out@);
            assert(n6 =~= n5 + uv);
        }
    } else if is_listing(issue) {
        let mut segs: Vec<Segment> = Vec::new();
        push_seg(&mut segs, text("="), Style::Gutter);
        push_seg(&mut segs, text(" "), Style::Plain);
        push_seg(&mut segs, text("used:"), Style::Label);
        push_seg(&mut segs, text(" "), Style::Plain);
        push_seg(&mut segs, text("(no usages found)"), Style::Dimmed);
        let gl = gutter_line(w, segs, Ghost("="@ + " "@ + "used:"@ + " "@ + "(no usages found)"@));
        let ghost glt = line_text(gl);
        push_line(&mut out, gl);
        proof {
            reveal_strlit("=");
            reveal_strlit(" ");
            reveal_strlit("used:");
            reveal_strlit("(no usages found)");
            reveal_strlit(" = used: (no usages found)");
            assert(glt =~= spaces(wn) + " = used: (no usages found)"@);
            n6 = lines_text(out@);
            assert(n6 =~= n5 + seq![spaces(wn) + " = used: (no usages found)"@]);
        }
    } else {
        proof { n6 = n5; }
    }
    push_line(&mut out, Line { segments: Vec::new() });
    proof {
        assert(lines_text(out@) =~= n6 + seq![Seq::<char>::empty()]);
        assert(lines_text(out@) =~= expected);
    }
    out
}

fn is_listing(issue: &Issue) -> (r: bool)
    ensures
        r == issue.spec_lists_usages(),
{
    match issue {
        Issue::ReplicaLag(_) => true,
        Issue::Untranslated(_) => true,
        Issue::TypeMismatch(_) => true,
        _ => false,
    }
}

/// `a` comes before `b` in the order of their characters.
pub open spec fn text_lt(a: Seq<char>, b: Seq<char>) -> bool
    decreases a.len(),
{
    if a.len() == 0 {
        b.len() > 0
    } else if b.len() == 0 {
        false
    } else if a[0] != b[0] {
        a[0] < b[0]
    } else {
        text_lt(a.drop_first(), b.drop_first())
    }
}

fn text_lt_exec(a: &Vec<char>, b: &Vec<char>) -> (r: bool)
    ensures
        r == text_lt(a@, b@),
{
    let mut i: usize = 0;
    assert(a@.skip(0) =~= a@);
    assert(b@.skip(0) =~= b@);
    while i < a.len() && i < b.len() && a[i] == b[i]
        invariant
            i <= a@.len(),
            i <= b@.len(),
            text_lt(a@, b@) == text_lt(a@.skip(i as int), b@.skip(i as int)),
        decreases a@.len() - i,
    {
        proof {
            assert(a@.skip(i as int).drop_first() =~= a@.skip(i + 1));
            assert(b@.skip(i as int).drop_first() =~= b@.skip(i + 1));
        }
        i = i + 1;
    }
    if i == a.len() {
        i < b.len()
    } else if i == b.len() {
        false
    } else {
        a[i] < b[i]
    }
}

/// `a` goes after `b` in a report: by file path, then line, then column.
pub open spec fn issue_after(a: Issue, b: Issue) -> bool {
    text_lt(b.spec_path(), a.spec_path())
        || (b.spec_path() == a.spec_path() && (b.spec_line() < a.spec_line()
            || (b.spec_line() == a.spec_line() && b.spec_col() < a.spec_col())))
}

/// Where a stable insertion puts issue `x` into `s`: before the first issue
/// (from index `j` on) that goes after it.
pub open spec fn place_insert_index(s: Seq<Issue>, x: Issue, j: int) -> int
    decreases s.len() - j,
{
    if j < 0 || j >= s.len() {
        s.len() as int
    } else if issue_after(s[j], x) {
        j
    } else {
        place_insert_index(s, x, j + 1)
    }
}

/// The first `n` issues sorted by place (file path, line, column) by
/// stable insertion: issues at the same place keep their given order.
pub open spec fn sorted_by_place(s: Seq<Issue>, n: int) -> Seq<Issue>
    decreases n,
{
    if n <= 0 {
        Seq::empty()
    } else {
        let o = sorted_by_place(s, n - 1);
        o.insert(place_insert_index(o, s[n - 1], 0), s[n - 1])
    }
}

/// No issue of `s` goes after a later one.
pub open spec fn place_sorted(s: Seq<Issue>) -> bool {
    forall|i: int, j: int| 0 <= i < j < s.len() ==> !issue_after(#[trigger] s[i], #[trigger] s[j])
}

proof fn lemma_text_lt_trans(a: Seq<char>, b: Seq<char>, c: Seq<char>)
    requires
        text_lt(a, b),
        text_lt(b, c),
    ensures
        text_lt(a, c),
    decreases a.len(),
{
    if a.len() > 0 && b.len() > 0 && c.len() > 0 && a[0] == b[0] && b[0] == c[0] {
        lemma_text_lt_trans(a.drop_first(), b.drop_first(), c.drop_first());
    }
}

proof fn lemma_text_lt_irrefl(a: Seq<char>)
    ensures
        !text_lt(a, a),
    decreases a.len(),
{
    if a.len() > 0 {
        lemma_text_lt_irrefl(a.drop_first());
    }
}

proof fn lemma_text_lt_total(a: Seq<char>, b: Seq<char>)
    ensures
        a == b || text_lt(a, b) || text_lt(b, a),
    decreases a.len(),
{
    if a.len() > 0 && b.len() > 0 && a[0] == b[0] {
        lemma_text_lt_total(a.drop_first(), b.drop_first());
        if a.drop_first() == b.drop_first() {
            assert(a =~= seq![a[0]] + a.drop_first());
            assert(b =~= seq![b[0]] + b.drop_first());
        }
    } else if a.len() > 0 && b.len() > 0 {

    } else if a.len() == 0 && b.len() == 0 {
        assert(a =~= b);
    }
}

/// Going after another issue is a strict order.
proof fn lemma_after_trans(a: Issue, b: Issue, c: Issue)
    requires
        issue_after(a, b),
        issue_after(b, c),
    ensures
        issue_after(a, c),
{
    if text_lt(c.spec_path(), b.spec_path()) && text_lt(b.spec_path(), a.spec_path()) {
        lemma_text_lt_trans(c.spec_path(), b.spec_path(), a.spec_path());
    }
}

/// Two issues neither of which goes after the other are at the same place.
proof fn lemma_after_total(a: Issue, b: Issue)
    ensures
        issue_after(a, b) || issue_after(b, a)
            || (a.spec_path() == b.spec_path() && a.spec_line() == b.spec_line() && a.spec_col() == b.spec_col()),
{
    lemma_text_lt_total(a.spec_path(), b.spec_path());
}

proof fn lemma_place_insert_index(s: Seq<Issue>, x: Issue, j: int)
    requires
        0 <= j <= s.len(),
    ensures
        j <= place_insert_index(s, x, j) <= s.len(),
        forall|k: int| j <= k < place_insert_index(s, x, j) ==> !issue_after(#[trigger] s[k], x),
        place_insert_index(s, x, j) < s.len() ==> issue_after(s[place_insert_index(s, x, j)], x),
    decreases s.len() - j,
{
    if j < s.len() && !issue_after(s[j], x) {
        lemma_place_insert_index(s, x, j + 1);
    }
}

/// The sort gives a sorted permutation of the issues.
pub proof fn lemma_sorted_by_place(s: Seq<Issue>, n: int)
    requires
        0 <= n <= s.len(),
    ensures
        sorted_by_place(s, n).len() == n,
        sorted_by_place(s, n).to_multiset() == s.take(n).to_multiset(),
        place_sorted(sorted_by_place(s, n)),
    decreases n,
{
    broadcast use vstd::seq_lib::group_to_multiset_ensures;
    if n == 0 {
        assert(s.take(0) =~= Seq::<Issue>::empty());
    } else {
        lemma_sorted_by_place(s, n - 1);
        let o = sorted_by_place(s, n - 1);
        let x = s[n - 1];
        lemma_place_insert_index(o, x, 0);
        let p = place_insert_index(o, x, 0);
        let r = o.insert(p, x);
        assert(r == sorted_by_place(s, n));
        assert(s.take(n) =~= s.take(n - 1).push(x));
        assert(r.to_multiset() =~= o.to_multiset().insert(x)) by {
            vstd::seq_lib::to_multiset_insert(o, p, x);
        }
        assert forall|i: int, j: int| 0 <= i < j < r.len() implies !issue_after(#[trigger] r[i], #[trigger] r[j]) by {
            if j < p {
                assert(r[i] == o[i] && r[j] == o[j]);
            } else if j == p {
                assert(r[i] == o[i] && r[j] == x);
            } else if i < p {
                assert(r[i] == o[i] && r[j] == o[j - 1]);
                if issue_after(o[i], o[j - 1]) {
                    assert(!issue_after(o[i], o[j - 1]));
                }
            } else if i == p {
                assert(r[i] == x && r[j] == o[j - 1]);
                assert(issue_after(o[p], x));
                if issue_after(x, o[j - 1]) {
                    lemma_after_trans(o[p], x, o[j - 1]);
                    if p < j - 1 {
                        assert(!issue_after(o[p], o[j - 1]));
                    } else {
                        lemma_after_trans(o[p], x, o[p]);
                        lemma_after_irrefl(o[p]);
                    }
                }
            } else {
                assert(r[i] == o[i - 1] && r[j] == o[j - 1]);
            }
        }
    }
}

proof fn lemma_after_irrefl(a: Issue)
    ensures
        !issue_after(a, a),
{
    lemma_text_lt_irrefl(a.spec_path());
}

/// Sorts issues by place (file path, line, column), stably: a report lists
/// them so.
pub fn sort_issues_by_place(v: &mut Vec<Issue>)
    ensures
        final(v)@ == sorted_by_place(old(v)@, old(v)@.len() as int),
        final(v)@.to_multiset() == old(v)@.to_multiset(),
        place_sorted(final(v)@),
{
    let ghost s = v@;
    let mut n: usize = 0;
    assert(v@ =~= sorted_by_place(s, 0) + s.skip(0));
    while n < v.len()
        invariant
            n <= s.len(),
            v@.len() == s.len(),
            v@ == sorted_by_place(s, n as int) + s.skip(n as int),
        decreases s.len() - n,
    {
        proof { lemma_sorted_by_place(s, n as int); }
        let ghost o = sorted_by_place(s, n as int);
        assert(v@[n as int] == s[n as int]);
        let x = v.remove(n);
        assert(v@ =~= o + s.skip(n + 1));
        let mut j: usize = 0;
        while j < n && !issue_after_exec(&v[j], &x)
            invariant
                j <= n,
                n < s.len(),
                o.len() == n,
                v@ == o + s.skip(n + 1),
                x == s[n as int],
                place_insert_index(o, x, 0) == place_insert_index(o, x, j as int),
            decreases n - j,
        {
            assert(v@[j as int] == o[j as int]);
            j = j + 1;
        }
        proof {
            if j < n {
                assert(v@[j as int] == o[j as int]);
            }
            assert(place_insert_index(o, x, j as int) == j);
        }
        v.insert(j, x);
        proof {
            assert(v@ =~= o.insert(j as int, x) + s.skip(n + 1));
            assert(sorted_by_place(s, n + 1) == o.insert(place_insert_index(o, s[n as int], 0), s[n as int]));
        }
        n = n + 1;
    }
    proof {
        lemma_sorted_by_place(s, s.len() as int);
        assert(s.take(s.len() as int) =~= s);
        assert(v@ =~= sorted_by_place(s, s.len() as int));
    }
}

/// Where a stable insertion puts issue `x` in `order`: before the first
/// issue (from index `j` on) that goes after it.
pub open spec fn insert_index(order: Seq<usize>, issues: Seq<Issue>, x: int, j: int) -> int
    decreases order.len() - j,
{
    if j < 0 || j >= order.len() {
        order.len() as int
    } else if issue_after(issues[order[j] as int], issues[x]) {
        j
    } else {
        insert_index(order, issues, x, j + 1)
    }
}

/// The report order of the first `n` issues: a stable sort by place.
pub open spec fn sorted_order(issues: Seq<Issue>, n: int) -> Seq<usize>
    decreases n,
{
    if n <= 0 {
        Seq::empty()
    } else {
        let o = sorted_order(issues, n - 1);
        o.insert(insert_index(o, issues, n - 1, 0), (n - 1) as usize)
    }
}

proof fn lemma_insert_index(order: Seq<usize>, issues: Seq<Issue>, x: int, j: int)
    requires
        0 <= j <= order.len(),
    ensures
        j <= insert_index(order, issues, x, j) <= order.len(),
    decreases order.len() - j,
{
    if j < order.len() && !issue_after(issues[order[j] as int], issues[x]) {
        lemma_insert_index(order, issues, x, j + 1);
    }
}

proof fn lemma_sorted_order(issues: Seq<Issue>, n: int)
    requires
        0 <= n,
    ensures
        sorted_order(issues, n).len() == n,
        forall|k: int| 0 <= k < n ==> (#[trigger] sorted_order(issues, n)[k]) < n,
    decreases n,
{
    if n > 0 {
        lemma_sorted_order(issues, n - 1);
        let o = sorted_order(issues, n - 1);
        lemma_insert_index(o, issues, n - 1, 0);
        let p = insert_index(o, issues, n - 1, 0);
        assert forall|k: int| 0 <= k < n implies (#[trigger] sorted_order(issues, n)[k]) < n by {
            if k < p {
                assert(sorted_order(issues, n)[k] == o[k]);
            } else if k > p {
                assert(sorted_order(issues, n)[k] == o[k - 1]);
            }
        }
    }
}

fn issue_after_exec(a: &Issue, b: &Issue) -> (r: bool)
    ensures
        r == issue_after(*a, *b),
{
    let la = a.location();
    let lb = b.location();
    let pa = chars_of(la.file_path.as_str());
    let pb = chars_of(lb.file_path.as_str());
    if text_lt_exec(&pb, &pa) {
        return true;
    }
    if crate::text::seq_eq(pb.as_slice(), pa.as_slice()) {
        lb.line < la.line || (lb.line == la.line && lb.col < la.col)
    } else {
        false
    }
}

/// The order in which a report lists issues: by file, line and column,
/// issues at the same place in their given order.
pub fn sort_order(issues: &[Issue]) -> (r: Vec<usize>)
    ensures
        r@ == sorted_order(issues@, issues@.len() as int),
{
    let mut order: Vec<usize> = Vec::new();
    let mut n: usize = 0;
    while n < issues.len()
        invariant
            n <= issues@.len(),
            order@ == sorted_order(issues@, n as int),
        decreases issues@.len() - n,
    {
        proof { lemma_sorted_order(issues@, n as int); }
        let mut j: usize = 0;
        while j < order.len() && !issue_after_exec(&issues[order[j]], &issues[n])
            invariant
                order@ == sorted_order(issues@, n as int),
                order@.len() == n,
                forall|k: int| 0 <= k < n ==> (#[trigger] order@[k]) < n,
                n < issues@.len(),
                j <= order@.len(),
                insert_index(order@, issues@, n as int, 0) == insert_index(order@, issues@, n as int, j as int),
            decreases order@.len() - j,
        {
            j = j + 1;
        }
        order.insert(j, n);
        n = n + 1;
    }
    order
}

/// The largest line number of the issues that have one.
pub open spec fn max_line(issues: Seq<Issue>) -> Option<usize>
    decreases issues.len(),
{
    if issues.len() == 0 {
        None
    } else {
        let prev = max_line(issues.drop_last());
        if issues.last().spec_has_line() {
            match prev {
                Some(m) => Some(if m < issues.last().spec_line() { issues.last().spec_line() } else { m }),
                None => Some(issues.last().spec_line()),
            }
        } else {
            prev
        }
    }
}

/// Width of the line-number column: the digits of the largest line number (1 without any).
pub open spec fn line_number_width(issues: Seq<Issue>) -> nat {
    match max_line(issues) {
        Some(m) => decimal(m as nat).len(),
        None => 1,
    }
}

fn line_width(issues: &[Issue]) -> (r: usize)
    ensures
        r as nat == line_number_width(issues@),
{
    let mut best: Option<usize> = None;
    let mut i: usize = 0;
    while i < issues.len()
        invariant
            i <= issues@.len(),
            best == max_line(issues@.take(i as int)),
        decreases issues@.len() - i,
    {
        proof { assert(issues@.take(i + 1).drop_last() =~= issues@.take(i as int)); }
        let has_line = match &issues[i] {
            Issue::ParseError(_) => false,
            _ => true,
        };
        if has_line {
            let l = issues[i].location().line;
            best = match best {
                Some(m) => Some(if m < l { l } else { m }),
                None => Some(l),
            };
        }
        i = i + 1;
    }
    assert(issues@.take(issues@.len() as int) =~= issues@);
    match best {
        Some(m) => {
            let t = usize_text(m);
            chars_of(t.as_str()).len()
        },
        None => 1,
    }
}

/// Number of issues of a severity.
pub open spec fn count_severity(issues: Seq<Issue>, s: Severity) -> nat
    decreases issues.len(),
{
    if issues.len() == 0 {
        0
    } else {
        count_severity(issues.drop_last(), s) + if issues.last().spec_severity() == s { 1nat } else { 0nat }
    }
}

/// `✘ N problems (E errors, W warnings)`, with singular words for one.
pub open spec fn summary_text(errors: nat, warnings: nat) -> Seq<char> {
    failure_mark() + " "@ + decimal(errors + warnings) + " problems ("@ + decimal(errors) + " "@
        + (if errors == 1 { "error"@ } else { "errors"@ }) + ", "@ + decimal(warnings) + " "@
        + (if warnings == 1 { "warning"@ } else { "warnings"@ }) + ")"@
}

/// All lines of several issues, one after the other.
pub open spec fn concat_lines(issues: Seq<Issue>, order: Seq<usize>, w: nat) -> Seq<Seq<char>>
    decreases order.len(),
{
    if order.len() == 0 {
        Seq::empty()
    } else {
        concat_lines(issues, order.drop_last(), w) + issue_lines(issues[order.last() as int], w)
    }
}

/// The lines of a report: each issue in report order, then the summary
/// after an empty line; nothing for no issues.
pub open spec fn report_spec(issues: Seq<Issue>) -> Seq<Seq<char>> {
    if issues.len() == 0 {
        Seq::empty()
    } else {
        concat_lines(issues, sorted_order(issues, issues.len() as int), line_number_width(issues))
            + seq![Seq::empty(), summary_text(count_severity(issues, Severity::Error), count_severity(issues, Severity::Warning))]
    }
}

/// The lines of the report of `issues`.
#[verifier::spinoff_prover]
#[verifier::rlimit(40)]
pub fn report_lines(issues: &[Issue]) -> (r: Vec<Line>)
    ensures
        lines_text(r@) == report_spec(issues@),
{
    let mut out: Vec<Line> = Vec::new();
    if issues.len() == 0 {
        assert(lines_text(out@) =~= Seq::<Seq<char>>::empty());
        return out;
    }
    let order = sort_order(issues);
    proof { lemma_sorted_order(issues@, issues@.len() as int); }
    let w = line_width(issues);
    let mut k: usize = 0;
    while k < order.len()
        invariant
            order@ == sorted_order(issues@, issues@.len() as int),
            order@.len() == issues@.len(),
            forall|j: int| 0 <= j < order@.len() ==> (#[trigger] order@[j]) < issues@.len(),
            w as nat == line_number_width(issues@),
            k <= order@.len(),
            lines_text(out@) == concat_lines(issues@, order@.take(k as int), w as nat),
        decreases order@.len() - k,
    {
        proof { assert(order@.take(k + 1).drop_last() =~= order@.take(k as int)); }
        let mut lines = render_issue(&issues[order[k]], w);
        let ghost o0 = lines_text(out@);
        let ghost lv = lines_text(lines@);
        out.append(&mut lines);
        assert(lines_text(out@) =~= o0 + lv);
        k = k + 1;
    }
    assert(order@.take(order@.len() as int) =~= order@);
    let mut errors: usize = 0;
    let mut warnings: usize = 0;
    let mut i: usize = 0;
    while i < issues.len()
        invariant
            i <= issues@.len(),
            errors as nat == count_severity(issues@.take(i as int), Severity::Error),
            warnings as nat == count_severity(issues@.take(i as int), Severity::Warning),
            errors + warnings <= i,
        decreases issues@.len() - i,
    {
        proof { assert(issues@.take(i + 1).drop_last() =~= issues@.take(i as int)); }
        match issues[i].report_severity() {
            Severity::Error => { errors = errors + 1; },
            Severity::Warning => { warnings = warnings + 1; },
        }
        i = i + 1;
    }
    assert(issues@.take(issues@.len() as int) =~= issues@);
    push_line(&mut out, Line { segments: Vec::new() });
    let mut segs: Vec<Segment> = Vec::new();
    push_seg(&mut segs, text("\u{2718}"), Style::Failure);
    push_seg(&mut segs, text(" "), Style::Plain);
    let mut t = usize_text(errors + warnings);
    push_text(&mut t, " problems (");
    push_seg(&mut segs, t, Style::Plain);
    let mut e = usize_text(errors);
    push_text(&mut e, " ");
    push_seg(&mut segs, e, Style::Plain);
    push_seg(&mut segs, if errors == 1 { text("error") } else { text("errors") }, Style::Failure);
    let mut wt = text(", ");
    push_text(&mut wt, usize_text(warnings).as_str());
    push_text(&mut wt, " ");
    push_seg(&mut segs, wt, Style::Plain);
    push_seg(&mut segs, if warnings == 1 { text("warning") } else { text("warnings") }, Style::Caution);
    push_seg(&mut segs, text(")"), Style::Plain);
    let ghost st = segs_text(segs@);
    proof {
        reveal_strlit("\u{2718}");
        assert(st =~= summary_text(errors as nat, warnings as nat));
    }
    push_line(&mut out, Line { segments: segs });
    out
}

/// The text of lines, each followed by a newline.
pub open spec fn text_of(ls: Seq<Seq<char>>) -> Seq<char>
    decreases ls.len(),
{
    if ls.len() == 0 { Seq::empty() } else { text_of(ls.drop_last()) + ls.last() + seq!['\n'] }
}

/// Renders lines as text, each followed by a newline.
pub fn lines_to_string(lines: &Vec<Line>) -> (r: String)
    ensures
        r@ == text_of(lines_text(lines@)),
{
    let mut r = String::new();
    let mut i: usize = 0;
    while i < lines.len()
        invariant
            i <= lines@.len(),
            r@ == text_of(lines_text(lines@.take(i as int))),
        decreases lines@.len() - i,
    {
        proof {
            assert(lines_text(lines@.take(i + 1)).drop_last() =~= lines_text(lines@.take(i as int)));
        }
        let segs = &lines[i].segments;
        let ghost r0 = r@;
        let mut j: usize = 0;
        while j < segs.len()
            invariant
                j <= segs@.len(),
                r@ == r0 + segs_text(segs@.take(j as int)),
            decreases segs@.len() - j,
        {
            proof { assert(segs@.take(j + 1).drop_last() =~= segs@.take(j as int)); }
            push_text(&mut r, segs[j].text.as_str());
            assert(r@ =~= r0 + segs_text(segs@.take(j + 1)));
            j = j + 1;
        }
        assert(segs@.take(segs@.len() as int) =~= segs@);
        push_char(&mut r, '\n');
        i = i + 1;
    }
    assert(lines@.take(lines@.len() as int) =~= lines@);
    r
}

/// Appends the UTF-8 bytes of a text.
fn write_text(out: &mut Vec<u8>, s: &String)
    ensures
        final(out)@ == old(out)@ + vstd::utf8::encode_utf8(s@),
{
    let bytes = s.as_str().as_bytes();
    let ghost o0 = out@;
    let mut i: usize = 0;
    while i < bytes.len()
        invariant
            i <= bytes@.len(),
            bytes@ == vstd::utf8::encode_utf8(s@),
            out@ == o0 + bytes@.take(i as int),
        decreases bytes@.len() - i,
    {
        out.push(bytes[i]);
        assert(out@ =~= o0 + bytes@.take(i + 1));
        i = i + 1;
    }
    assert(bytes@.take(bytes@.len() as int) =~= bytes@);
}

/// Writes the report of `issues` (as plain text) to `writer`.
pub fn report_to(issues: &[Issue], writer: &mut Vec<u8>)
    ensures
        final(writer)@ == old(writer)@ + vstd::utf8::encode_utf8(text_of(report_spec(issues@))),
{
    let lines = report_lines(issues);
    let s = lines_to_string(&lines);
    write_text(writer, &s);
}

/// `file` or `files`.
pub open spec fn files_word(n: usize) -> Seq<char> {
    if n == 1 { "file"@ } else { "files"@ }
}

/// The line that says a check found nothing.
pub open spec fn success_text(source_files: usize, locale_files: usize) -> Seq<char> {
    success_mark() + " Checked "@ + decimal(source_files as nat) + " source "@ + files_word(source_files)
        + if locale_files == 0 {
            Seq::empty()
        } else {
            ", "@ + decimal(locale_files as nat) + " locale "@ + files_word(locale_files)
        } + " - no issues found"@
}

/// The line that says a check found nothing.
pub fn success_line(source_files: usize, locale_files: usize) -> (r: Line)
    ensures
        line_text(r) == success_text(source_files, locale_files),
{
    let mut segs: Vec<Segment> = Vec::new();
    push_seg(&mut segs, text("\u{2713}"), Style::Success);
    push_seg(&mut segs, text(" "), Style::Plain);
    let mut m = text("Checked ");
    push_text(&mut m, usize_text(source_files).as_str());
    push_text(&mut m, " source ");
    push_text(&mut m, if source_files == 1 { "file" } else { "files" });
    if locale_files != 0 {
        push_text(&mut m, ", ");
        push_text(&mut m, usize_text(locale_files).as_str());
        push_text(&mut m, " locale ");
        push_text(&mut m, if locale_files == 1 { "file" } else { "files" });
    }
    push_text(&mut m, " - no issues found");
    push_seg(&mut segs, m, Style::Success);
    proof {
        reveal_strlit("\u{2713}");
        reveal_strlit(" ");
        reveal_strlit(" Checked ");
        reveal_strlit("Checked ");
    }
    let r = Line { segments: segs };
    assert(line_text(r) =~= success_text(source_files, locale_files));
    r
}

/// Writes the success line to `writer`.
pub fn print_success_to(source_files: usize, locale_files: usize, writer: &mut Vec<u8>)
    ensures
        final(writer)@ == old(writer)@ + vstd::utf8::encode_utf8(success_text(source_files, locale_files) + seq!['\n']),
{
    let mut lines: Vec<Line> = Vec::new();
    assert(lines_text(lines@) =~= Seq::<Seq<char>>::empty());
    let l = success_line(source_files, locale_files);
    let ghost lt = line_text(l);
    push_line(&mut lines, l);
    let s = lines_to_string(&lines);
    proof {
        let t = lines_text(lines@);
        assert(t =~= seq![lt]);
        assert(t.drop_last() =~= Seq::<Seq<char>>::empty());
        assert(text_of(t) == text_of(t.drop_last()) + t.last() + seq!['\n']);
    }
    assert(s@ =~= success_text(source_files, locale_files) + seq!['\n']);
    write_text(writer, &s);
}

/// The warning about files that could not be parsed.
pub open spec fn parse_warning_text(count: usize) -> Seq<char> {
    "warning:"@ + " "@ + decimal(count as nat) + " file(s) could not be parsed (use "@ + "-v"@ + " for details)"@
}

/// The warning about files that could not be parsed, unless there are
/// none or details are shown anyway.
pub fn parse_warning_line(count: usize, verbose: bool) -> (r: Option<Line>)
    ensures
        match r {
            Some(l) => count > 0 && !verbose && line_text(l) == parse_warning_text(count),
            None => count == 0 || verbose,
        },
{
    if count > 0 && !verbose {
        let mut segs: Vec<Segment> = Vec::new();
        push_seg(&mut segs, text("warning:"), Style::Warning);
        let mut m = text(" ");
        push_text(&mut m, usize_text(count).as_str());
        push_text(&mut m, " file(s) could not be parsed (use ");
        push_seg(&mut segs, m, Style::Plain);
        push_seg(&mut segs, text("-v"), Style::Flag);
        push_seg(&mut segs, text(" for details)"), Style::Plain);
        let r = Line { segments: segs };
        assert(line_text(r) =~= parse_warning_text(count));
        Some(r)
    } else {
        None
    }
}

/// Writes the parse warning (if any) to `writer`.
pub fn print_parse_warning_to(count: usize, verbose: bool, writer: &mut Vec<u8>)
    ensures
        count > 0 && !verbose ==> final(writer)@ == old(writer)@ + vstd::utf8::encode_utf8(parse_warning_text(count) + seq!['\n']),
        !(count > 0 && !verbose) ==> final(writer)@ == old(writer)@,
{
    match parse_warning_line(count, verbose) {
        Some(l) => {
            let mut lines: Vec<Line> = Vec::new();
            assert(lines_text(lines@) =~= Seq::<Seq<char>>::empty());
            let ghost lt = line_text(l);
            push_line(&mut lines, l);
            let s = lines_to_string(&lines);
            proof {
                let t = lines_text(lines@);
                assert(t =~= seq![lt]);
                assert(t.drop_last() =~= Seq::<Seq<char>>::empty());
                assert(text_of(t) == text_of(t.drop_last()) + t.last() + seq!['\n']);
            }
            assert(s@ =~= parse_warning_text(count) + seq!['\n']);
            write_text(writer, &s);
        },
        None => {},
    }
}

} // verus!
