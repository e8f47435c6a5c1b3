//! Inserting comment lines into a source text.

use vstd::prelude::*;
use crate::lines::{spec_lines, split_lines};
use crate::text::{chars_of, string_from_chars};
use crate::actions::Operation;

verus! {

/// The lines joined with `\n`.
pub open spec fn joined(ls: Seq<Seq<char>>) -> Seq<char>
    decreases ls.len(),
{
    if ls.len() == 0 {
        Seq::empty()
    } else if ls.len() == 1 {
        ls[0]
    } else {
        joined(ls.drop_last()) + seq!['\n'] + ls.last()
    }
}

/// Number of leading spaces and tabs.
pub open spec fn indent_len(l: Seq<char>, i: int) -> int
    decreases l.len() - i,
{
    if 0 <= i < l.len() && (l[i] == ' ' || l[i] == '\t') { indent_len(l, i + 1) } else { i }
}

/// The indentation of a line.
pub open spec fn indent_of(l: Seq<char>) -> Seq<char> {
    l.take(indent_len(l, 0))
}

/// The comments to insert before line `n` (1-based), each once, in the
/// order first asked for.
pub open spec fn comments_for(ins: Seq<(usize, Seq<char>)>, n: usize) -> Seq<Seq<char>>
    decreases ins.len(),
{
    if ins.len() == 0 {
        Seq::empty()
    } else {
        let acc = comments_for(ins.drop_last(), n);
        if ins.last().0 == n && !acc.contains(ins.last().1) { acc.push(ins.last().1) } else { acc }
    }
}

/// The lines after inserting, before each line, its comments with its indentation.
pub open spec fn edited_lines(ls: Seq<Seq<char>>, ins: Seq<(usize, Seq<char>)>) -> Seq<Seq<char>>
    decreases ls.len(),
{
    if ls.len() == 0 {
        Seq::empty()
    } else {
        edited_lines(ls.drop_last(), ins)
            + comments_for(ins, ls.len() as usize).map_values(|c: Seq<char>| indent_of(ls.last()) + c)
            + seq![ls.last()]
    }
}

/// Number of comment lines inserted.
pub open spec fn inserted_count(ls: Seq<Seq<char>>, ins: Seq<(usize, Seq<char>)>) -> nat
    decreases ls.len(),
{
    if ls.len() == 0 {
        0
    } else {
        inserted_count(ls.drop_last(), ins) + comments_for(ins, ls.len() as usize).len()
    }
}

fn comments_for_exec(ins: &Vec<(usize, String)>, n: usize) -> (r: Vec<Vec<char>>)
    ensures
        r@.map_values(|c: Vec<char>| c@) == comments_for(ins@.map_values(|p: (usize, String)| (p.0, p.1@)), n),
{
    let ghost iv = ins@.map_values(|p: (usize, String)| (p.0, p.1@));
    let mut r: Vec<Vec<char>> = Vec::new();
    let mut i: usize = 0;
    while i < ins.len()
        invariant
            i <= ins@.len(),
            iv == ins@.map_values(|p: (usize, String)| (p.0, p.1@)),
            r@.map_values(|c: Vec<char>| c@) == comments_for(iv.take(i as int), n),
        decreases ins@.len() - i,
    {
        proof {
            assert(iv.take(i + 1).drop_last() =~= iv.take(i as int));
            assert(iv.take(i + 1).last() == iv[i as int]);
        }
        if ins[i].0 == n {
            let c = chars_of(ins[i].1.as_str());
            let ghost rv = r@.map_values(|c: Vec<char>| c@);
            let mut seen = false;
            let mut j: usize = 0;
            while j < r.len()
                invariant
                    j <= r@.len(),
                    rv == r@.map_values(|c: Vec<char>| c@),
                    seen == exists|k: int| 0 <= k < j && #[trigger] rv[k] == c@,
                decreases r@.len() - j,
            {
                if crate::text::seq_eq(r[j].as_slice(), c.as_slice()) {
                    assert(rv[j as int] == c@);
                    seen = true;
                }
                j = j + 1;
            }
            if !seen {
                r.push(c);
                proof { assert(r@.map_values(|c: Vec<char>| c@) =~= rv.push(iv[i as int].1)); }
            }
        }
        i = i + 1;
    }
    proof { assert(iv.take(ins@.len() as int) =~= iv); }
    r
}

/// Appends a line to a text of lines joined with `\n`.
fn append_line(out: &mut Vec<char>, ls: Ghost<Seq<Seq<char>>>, any: bool, l: &Vec<char>)
    requires
        old(out)@ == joined(ls@),
        any == (ls@.len() > 0),
    ensures
        final(out)@ == joined(ls@.push(l@)),
{
    let ghost o0 = out@;
    if any {
        out.push('\n');
    }
    let mut i: usize = 0;
    while i < l.len()
        invariant
            i <= l@.len(),
            out@ == (if ls@.len() > 0 { o0 + seq!['\n'] } else { o0 }) + l@.take(i as int),
        decreases l@.len() - i,
    {
        out.push(l[i]);
        assert(l@.take(i + 1) =~= l@.take(i as int).push(l@[i as int]));
        i = i + 1;
    }
    proof {
        assert(l@.take(l@.len() as int) =~= l@);
        let p = ls@.push(l@);
        assert(p.drop_last() =~= ls@);
        if ls@.len() == 0 {
            assert(o0 =~= Seq::<char>::empty());
            assert(out@ =~= l@);
        } else {
            assert(out@ =~= joined(ls@) + seq!['\n'] + l@);
        }
    }
}

/// Inserts comment lines into `source`: before line `n` (1-based), each
/// comment asked for at `n`, once, with that line's indentation. Lines
/// past the end get none. Returns the new text and how many lines were
/// inserted (`usize::MAX` if that many cannot be counted).
pub fn insert_comment_lines(source: &str, inserts: &Vec<(usize, String)>) -> (r: (String, usize))
    ensures
        r.0@ == joined(edited_lines(spec_lines(source@), inserts@.map_values(|p: (usize, String)| (p.0, p.1@)))),
        r.1 as nat == inserted_count(spec_lines(source@), inserts@.map_values(|p: (usize, String)| (p.0, p.1@)))
            || r.1 == usize::MAX,
{
    let ghost iv = inserts@.map_values(|p: (usize, String)| (p.0, p.1@));
    let chars = chars_of(source);
    let lines = split_lines(&chars);
    let ghost lv = lines@.map_values(|l: Vec<char>| l@);
    let mut out: Vec<char> = Vec::new();
    let ghost mut ol: Seq<Seq<char>> = Seq::empty();
    let mut count: usize = 0;
    let mut any = false;
    let mut k: usize = 0;
    proof { assert(lv.take(0) =~= Seq::<Seq<char>>::empty()); }
    while k < lines.len()
        invariant
            k <= lines@.len(),
            lv == lines@.map_values(|l: Vec<char>| l@),
            lv == spec_lines(source@),
            iv == inserts@.map_values(|p: (usize, String)| (p.0, p.1@)),
            ol == edited_lines(lv.take(k as int), iv),
            out@ == joined(ol),
            any == (ol.len() > 0),
            count as nat == inserted_count(lv.take(k as int), iv) || count == usize::MAX,
        decreases lines@.len() - k,
    {
        let line = &lines[k];
        let mut ind: usize = 0;
        while ind < line.len() && (line[ind] == ' ' || line[ind] == '\t')
            invariant
                ind <= line@.len(),
                indent_len(line@, 0) == indent_len(line@, ind as int),
            decreases line@.len() - ind,
        {
            ind = ind + 1;
        }
        let indent = crate::lines::s_range(line, 0, ind);
        assert(indent@ =~= indent_of(line@));
        let cs = comments_for_exec(inserts, k + 1);
        let ghost cv = cs@.map_values(|c: Vec<char>| c@);
        let ghost base = ol;
        let mut j: usize = 0;
        while j < cs.len()
            invariant
                j <= cs@.len(),
                cv == cs@.map_values(|c: Vec<char>| c@),
                indent@ == indent_of(line@),
                ind <= line@.len(),
                indent@ == line@.subrange(0, ind as int),
                ol == base + cv.take(j as int).map_values(|c: Seq<char>| indent_of(line@) + c),
                out@ == joined(ol),
                any == (ol.len() > 0),
            decreases cs@.len() - j,
        {
            let mut full = crate::lines::s_range(line, 0, ind);
            assert(full@ =~= indent@ + cs@[j as int]@.take(0));
            let mut m: usize = 0;
            while m < cs[j].len()
                invariant
                    m <= cs@[j as int]@.len(),
                    j < cs@.len(),
                    full@ == indent@ + cs@[j as int]@.take(m as int),
                decreases cs@[j as int]@.len() - m,
            {
                full.push(cs[j][m]);
                assert(cs@[j as int]@.take(m + 1) =~= cs@[j as int]@.take(m as int).push(cs@[j as int]@[m as int]));
                m = m + 1;
            }
            assert(cs@[j as int]@.take(cs@[j as int]@.len() as int) =~= cs@[j as int]@);
            append_line(&mut out, Ghost(ol), any, &full);
            any = true;
            proof {
                ol = ol.push(full@);
                assert(cv.take(j + 1).map_values(|c: Seq<char>| indent_of(line@) + c)
                    =~= cv.take(j as int).map_values(|c: Seq<char>| indent_of(line@) + c).push(indent_of(line@) + cv[j as int]));
            }
            j = j + 1;
        }
        append_line(&mut out, Ghost(ol), any, line);
        any = true;
        proof {
            ol = ol.push(line@);
            assert(cv.take(cs@.len() as int) =~= cv);
            let t = lv.take(k + 1);
            assert(t.drop_last() =~= lv.take(k as int));
            assert(t.last() == lv[k as int]);
            assert(t.len() == k + 1);
        }
        if count < usize::MAX && cs.len() <= usize::MAX - count {
            count = count + cs.len();
        } else {
            count = usize::MAX;
        }
        k = k + 1;
    }
    proof { assert(lv.take(lines@.len() as int) =~= lv); }
    (string_from_chars(out.as_slice()), count)
}

} // verus!

verus! {

/// The file an operation inserts a comment into, if it inserts one.
pub open spec fn insert_file(op: Operation) -> Option<Seq<char>> {
    match op {
        Operation::InsertComment { context, .. } => Some(context.location.file_path@),
        _ => None,
    }
}

/// The files that comments are inserted into, each once, in the order
/// they first come.
pub open spec fn insert_files(ops: Seq<Operation>) -> Seq<Seq<char>>
    decreases ops.len(),
{
    if ops.len() == 0 {
        Seq::empty()
    } else {
        let before = insert_files(ops.drop_last());
        match insert_file(ops.last()) {
            Some(f) => if before.contains(f) { before } else { before.push(f) },
            None => before,
        }
    }
}

/// The comments inserted into file `f`, each with its line, in order.
pub open spec fn inserts_into(ops: Seq<Operation>, f: Seq<char>) -> Seq<(usize, Seq<char>)>
    decreases ops.len(),
{
    if ops.len() == 0 {
        Seq::empty()
    } else {
        let before = inserts_into(ops.drop_last(), f);
        match ops.last() {
            Operation::InsertComment { context, comment } =>
                if context.location.file_path@ == f { before.push((context.location.line, comment@)) } else { before },
            _ => before,
        }
    }
}

/// A list of comments with their lines, as plain values.
pub open spec fn inserts_view(v: Vec<(usize, String)>) -> Seq<(usize, Seq<char>)> {
    v@.map_values(|p: (usize, String)| (p.0, p.1@))
}

proof fn lemma_insert_files_distinct(ops: Seq<Operation>)
    ensures
        insert_files(ops).no_duplicates(),
        forall|f: Seq<char>| insert_files(ops).contains(f) <==> exists|i: int| 0 <= i < ops.len() && #[trigger] insert_file(ops[i]) == Some(f),
    decreases ops.len(),
{
    if ops.len() > 0 {
        let p = ops.drop_last();
        lemma_insert_files_distinct(p);
        let before = insert_files(p);
        let last = insert_file(ops.last());
        assert forall|f: Seq<char>| #[trigger] insert_files(ops).contains(f) <==> (before.contains(f) || last == Some(f)) by {
            match last {
                Some(g) => {
                    if !before.contains(g) {
                        let after = before.push(g);
                        assert(after[before.len() as int] == g);
                        if after.contains(f) {
                            let i = choose|i: int| 0 <= i < after.len() && after[i] == f;
                            if i < before.len() {
                                assert(before[i] == f);
                            }
                        }
                        if before.contains(f) {
                            let i = choose|i: int| 0 <= i < before.len() && before[i] == f;
                            assert(after[i] == f);
                        }
                    }
                },
                None => {},
            }
        }
        assert forall|f: Seq<char>| insert_files(ops).contains(f) <==> exists|i: int| 0 <= i < ops.len() && #[trigger] insert_file(ops[i]) == Some(f) by {
            if exists|i: int| 0 <= i < ops.len() && #[trigger] insert_file(ops[i]) == Some(f) {
                let i = choose|i: int| 0 <= i < ops.len() && #[trigger] insert_file(ops[i]) == Some(f);
                if i < ops.len() - 1 {
                    assert(insert_file(p[i]) == Some(f));
                } else {
                    assert(last == Some(f));
                }
            }
            if before.contains(f) {
                let i = choose|i: int| 0 <= i < p.len() && #[trigger] insert_file(p[i]) == Some(f);
                assert(insert_file(ops[i]) == Some(f));
            } else if last == Some(f) {
                assert(insert_file(ops[ops.len() - 1]) == Some(f));
            }
        }
    }
}

/// The comments of the operations, grouped by the file they go into: the
/// files in the order they first come, each with its comments in order.
pub fn insert_ops_by_file(ops: &[Operation]) -> (r: Vec<(String, Vec<(usize, String)>)>)
    ensures
        r@.map_values(|e: (String, Vec<(usize, String)>)| e.0@) == insert_files(ops@),
        forall|i: int| 0 <= i < r@.len() ==> inserts_view((#[trigger] r@[i]).1) == inserts_into(ops@, r@[i].0@),
{
    let mut r: Vec<(String, Vec<(usize, String)>)> = Vec::new();
    let mut k: usize = 0;
    proof { assert(ops@.take(0) =~= Seq::<Operation>::empty()); }
    while k < ops.len()
        invariant
            k <= ops@.len(),
            r@.map_values(|e: (String, Vec<(usize, String)>)| e.0@) == insert_files(ops@.take(k as int)),
            forall|i: int| 0 <= i < r@.len() ==> inserts_view((#[trigger] r@[i]).1) == inserts_into(ops@.take(k as int), r@[i].0@),
        decreases ops@.len() - k,
    {
        let ghost p = ops@.take(k as int);
        let ghost q = ops@.take(k + 1);
        proof {
            assert(q.drop_last() =~= p);
            assert(q.last() == ops@[k as int]);
            lemma_insert_files_distinct(p);
        }
        match &ops[k] {
            Operation::InsertComment { context, comment } => {
                let file = &context.location.file_path;
                let mut j: usize = 0;
                let mut found = false;
                while !found && j < r.len()
                    invariant
                        j <= r@.len(),
                        found ==> j < r@.len() && r@[j as int].0@ == file@,
                        forall|i: int| 0 <= i < j ==> r@[i].0@ != file@,
                    decreases r@.len() - j, if found { 0int } else { 1int },
                {
                    if crate::text::str_eq(r[j].0.as_str(), file.as_str()) {
                        found = true;
                    } else {
                        j = j + 1;
                    }
                }
                let ghost names = r@.map_values(|e: (String, Vec<(usize, String)>)| e.0@);
                if found {
                    let ghost old_r = r@;
                    let mut entry = (String::new(), Vec::new());
                    std::mem::swap(&mut entry, &mut r[j]);
                    entry.1.push((context.location.line, comment.clone()));
                    r.set(j, entry);
                    proof {
                        assert(names[j as int] == file@);
                        assert(names.contains(file@));
                        assert(r@.map_values(|e: (String, Vec<(usize, String)>)| e.0@) =~= names);
                        assert forall|i: int| 0 <= i < r@.len() implies inserts_view((#[trigger] r@[i]).1) == inserts_into(q, r@[i].0@) by {
                            if i == j {
                                assert(inserts_view(r@[i].1) =~= inserts_view(old_r[i].1).push((context.location.line, comment@)));
                            } else {
                                assert(names[i] != names[j as int]);
                                assert(r@[i] == old_r[i]);
                            }
                        }
                    }
                } else {
                    let mut v: Vec<(usize, String)> = Vec::new();
                    v.push((context.location.line, comment.clone()));
                    let ghost old_r = r@;
                    r.push((file.clone(), v));
                    proof {
                        assert(!names.contains(file@)) by {
                            if names.contains(file@) {
                                let i = choose|i: int| 0 <= i < names.len() && names[i] == file@;
                                assert(r@[i].0@ == file@);
                            }
                        }
                        assert(r@.map_values(|e: (String, Vec<(usize, String)>)| e.0@) =~= names.push(file@));
                        assert(inserts_into(p, file@) =~= Seq::<(usize, Seq<char>)>::empty()) by {
                            lemma_no_inserts(p, file@);
                        }
                        assert forall|i: int| 0 <= i < r@.len() implies inserts_view((#[trigger] r@[i]).1) == inserts_into(q, r@[i].0@) by {
                            if i < old_r.len() {
                                assert(r@[i] == old_r[i]);
                                assert(names[i] != file@);
                            } else {
                                assert(inserts_view(r@[i].1) =~= seq![(context.location.line, comment@)]);
                            }
                        }
                    }
                }
            },
            _ => {
                proof {
                    assert forall|i: int| 0 <= i < r@.len() implies inserts_view((#[trigger] r@[i]).1) == inserts_into(q, r@[i].0@) by {}
                }
            },
        }
        k = k + 1;
    }
    proof { assert(ops@.take(ops@.len() as int) =~= ops@); }
    r
}

proof fn lemma_no_inserts(ops: Seq<Operation>, f: Seq<char>)
    requires
        !insert_files(ops).contains(f),
    ensures
        inserts_into(ops, f) == Seq::<(usize, Seq<char>)>::empty(),
    decreases ops.len(),
{
    if ops.len() > 0 {
        let p = ops.drop_last();
        lemma_insert_files_distinct(p);
        lemma_insert_files_distinct(ops);
        if insert_files(p).contains(f) {
            let i = choose|i: int| 0 <= i < p.len() && #[trigger] insert_file(p[i]) == Some(f);
            assert(insert_file(ops[i]) == Some(f));
        }
        lemma_no_inserts(p, f);
        if insert_file(ops.last()) == Some(f) {
            assert(insert_file(ops[ops.len() - 1]) == Some(f));
        }
    }
}

} // verus!
