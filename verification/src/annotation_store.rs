//! Parsed `glot-message-keys` annotations of one file.

use vstd::prelude::*;
use crate::comment::{PatternWarning, annotation_view, annotations_upto, extract_glot_message_keys, spec_warning_message, warning_view, warnings_upto, MessageKeysAnnotation};
use crate::glob::{expand_glob_pattern, is_glob_pattern, matching_keys, spec_is_glob};
use crate::key_objects::dotted;
use crate::lines::spec_lines;
use crate::strmap::StrSet;
use crate::text::{chars_of, concat3, string_from_chars};
use crate::translation_source::TranslationSource;

verus! {

/// Annotation data for a single line.
#[derive(Debug)]
pub struct GlotAnnotation {
    /// Absolute keys after glob expansion.
    pub keys: Vec<String>,
    /// Relative patterns (starting with `.`) that need a namespace.
    pub relative_patterns: Vec<String>,
}

/// Annotations of a file, by line.
#[derive(Debug)]
pub struct AnnotationStore {
    /// (line, annotation), in increasing line order.
    pub annotations: Vec<(usize, GlotAnnotation)>,
    /// Warnings from annotation parsing.
    pub warnings: Vec<PatternWarning>,
}

/// The keys an absolute pattern stands for: a glob's matches, or the pattern itself.
pub open spec fn absolute_expansion(p: Seq<char>, avail: Seq<(String, ())>) -> Seq<Seq<char>> {
    if spec_is_glob(p) { matching_keys(avail, p) } else { seq![p] }
}

/// Absolute keys of a list of patterns (relative patterns are skipped).
pub open spec fn absolute_keys(ps: Seq<Seq<char>>, avail: Seq<(String, ())>) -> Seq<Seq<char>>
    decreases ps.len(),
{
    if ps.len() == 0 {
        Seq::empty()
    } else if ps.last().len() > 0 && ps.last()[0] == '.' {
        absolute_keys(ps.drop_last(), avail)
    } else {
        absolute_keys(ps.drop_last(), avail) + absolute_expansion(ps.last(), avail)
    }
}

/// The relative patterns (those starting with `.`), in order.
pub open spec fn relative_of(ps: Seq<Seq<char>>) -> Seq<Seq<char>>
    decreases ps.len(),
{
    if ps.len() == 0 {
        Seq::empty()
    } else if ps.last().len() > 0 && ps.last()[0] == '.' {
        relative_of(ps.drop_last()).push(ps.last())
    } else {
        relative_of(ps.drop_last())
    }
}

/// The stored form of annotations: lines with absolute keys or relative patterns.
pub open spec fn stored(anns: Seq<(int, Seq<Seq<char>>)>, avail: Seq<(String, ())>) -> Seq<(int, Seq<Seq<char>>, Seq<Seq<char>>)>
    decreases anns.len(),
{
    if anns.len() == 0 {
        Seq::empty()
    } else {
        let prev = stored(anns.drop_last(), avail);
        let (line, ps) = anns.last();
        let keys = absolute_keys(ps, avail);
        let rel = relative_of(ps);
        if keys.len() > 0 || rel.len() > 0 { prev.push((line, keys, rel)) } else { prev }
    }
}

pub open spec fn entry_view(e: (usize, GlotAnnotation)) -> (int, Seq<Seq<char>>, Seq<Seq<char>>) {
    (e.0 as int, e.1.keys@.map_values(|s: String| s@), e.1.relative_patterns@.map_values(|s: String| s@))
}

/// Index of the first entry for `line`, or -1.
pub open spec fn entry_for(es: Seq<(usize, GlotAnnotation)>, line: int) -> int
    decreases es.len(),
{
    if es.len() == 0 {
        -1
    } else {
        let prev = entry_for(es.drop_last(), line);
        if prev >= 0 { prev } else if es.last().0 == line { es.len() - 1 } else { -1 }
    }
}

/// Full pattern of a relative pattern under an optional namespace.
pub open spec fn relative_full(ns: Option<String>, p: Seq<char>) -> Seq<char> {
    match ns {
        Some(n) => dotted(n@, p.drop_first()),
        None => p.drop_first(),
    }
}

/// What a full pattern expands to: its glob matches, or itself when there are none.
pub open spec fn relative_expansion(full: Seq<char>, avail: Seq<(String, ())>) -> Seq<Seq<char>> {
    if spec_is_glob(full) && matching_keys(avail, full).len() > 0 { matching_keys(avail, full) } else { seq![full] }
}

/// Expansion of one pattern under each namespace.
pub open spec fn expand_one(p: Seq<char>, nss: Seq<Option<String>>, avail: Seq<(String, ())>) -> Seq<Seq<char>>
    decreases nss.len(),
{
    if nss.len() == 0 {
        Seq::empty()
    } else {
        expand_one(p, nss.drop_last(), avail) + relative_expansion(relative_full(nss.last(), p), avail)
    }
}

/// Expansion of all relative patterns.
pub open spec fn expand_all(ps: Seq<Seq<char>>, nss: Seq<Option<String>>, avail: Seq<(String, ())>) -> Seq<Seq<char>>
    decreases ps.len(),
{
    if ps.len() == 0 {
        Seq::empty()
    } else {
        expand_all(ps.drop_last(), nss, avail) + expand_one(ps.last(), nss, avail)
    }
}

pub open spec fn svw(v: Seq<String>) -> Seq<Seq<char>> {
    v.map_values(|s: String| s@)
}

fn split_patterns(ps: &Vec<String>, available_keys: &StrSet) -> (r: (Vec<String>, Vec<String>))
    ensures
        svw(r.0@) == absolute_keys(svw(ps@), available_keys.spec_items()),
        svw(r.1@) == relative_of(svw(ps@)),
        forall|j: int| 0 <= j < r.1@.len() ==> (#[trigger] r.1@[j])@.len() > 0 && r.1@[j]@[0] == '.',
{
    let mut keys: Vec<String> = Vec::new();
    let mut rel: Vec<String> = Vec::new();
    let mut i: usize = 0;
    while i < ps.len()
        invariant
            i <= ps@.len(),
            svw(keys@) == absolute_keys(svw(ps@.take(i as int)), available_keys.spec_items()),
            svw(rel@) == relative_of(svw(ps@.take(i as int))),
            forall|j: int| 0 <= j < rel@.len() ==> (#[trigger] rel@[j])@.len() > 0 && rel@[j]@[0] == '.',
        decreases ps@.len() - i,
    {
        let p = &ps[i];
        proof {
            assert(svw(ps@.take(i + 1)).drop_last() =~= svw(ps@.take(i as int)));
            assert(svw(ps@.take(i + 1)).last() == p@);
        }
        let pc = chars_of(p.as_str());
        let ghost k0 = keys@;
        let ghost r0 = rel@;
        if pc.len() > 0 && pc[0] == '.' {
            rel.push(p.clone());
            assert(svw(rel@) =~= svw(r0).push(p@));
        } else if is_glob_pattern(p.as_str()) {
            let mut m = expand_glob_pattern(p.as_str(), available_keys);
            let ghost mv = m@;
            keys.append(&mut m);
            assert(svw(keys@) =~= svw(k0) + svw(mv));
        } else {
            keys.push(p.clone());
            assert(svw(keys@) =~= svw(k0) + seq![p@]);
        }
        i = i + 1;
    }
    assert(ps@.take(ps@.len() as int) =~= ps@);
    (keys, rel)
}

fn expand_relative_one(full: String, available_keys: &StrSet) -> (r: Vec<String>)
    ensures
        svw(r@) == relative_expansion(full@, available_keys.spec_items()),
{
    if is_glob_pattern(full.as_str()) {
        let m = expand_glob_pattern(full.as_str(), available_keys);
        if m.len() > 0 {
            return m;
        }
    }
    let mut v = Vec::new();
    v.push(full);
    assert(svw(v@) =~= seq![full@]);
    v
}

/// Relative patterns start with `.`.
pub open spec fn relative_ok(a: GlotAnnotation) -> bool {
    forall|j: int| 0 <= j < a.relative_patterns@.len() ==> (#[trigger] a.relative_patterns@[j])@.len() > 0
        && a.relative_patterns@[j]@[0] == '.'
}

impl AnnotationStore {
    /// Every stored relative pattern starts with `.`.
    pub open spec fn wf(&self) -> bool {
        forall|i: int| 0 <= i < self.annotations@.len() ==> relative_ok(#[trigger] self.annotations@[i].1)
    }

    /// Parses all `glot-message-keys` annotations of a source text.
    ///
    /// Absolute patterns are expanded at once (a glob against the available
    /// keys); relative patterns (starting with `.`) are kept for expansion with
    /// the namespace of the translation function.
    pub fn parse(source: &str, file_path: &str, available_keys: &StrSet) -> (r: Self)
        ensures
            r.annotations@.map_values(|e: (usize, GlotAnnotation)| entry_view(e))
                == stored(annotations_upto(spec_lines(source@), spec_lines(source@).len() as int), available_keys.spec_items()),
            r.warnings@.map_values(|w: PatternWarning| warning_view(w))
                == warnings_upto(spec_lines(source@), spec_lines(source@).len() as int),
            forall|i: int| 0 <= i < r.warnings@.len() ==> (#[trigger] r.warnings@[i]).file_path@ == file_path@
                && r.warnings@[i].message@ == spec_warning_message(r.warnings@[i].pattern@),
            r.wf(),
    {
        let extract = extract_glot_message_keys(source, file_path);
        let anns = extract.annotations;
        let ghost av = anns@.map_values(|a: MessageKeysAnnotation| annotation_view(a));
        let mut annotations: Vec<(usize, GlotAnnotation)> = Vec::new();
        let mut i: usize = 0;
        while i < anns.len()
            invariant
                av == anns@.map_values(|a: MessageKeysAnnotation| annotation_view(a)),
                i <= anns@.len(),
                annotations@.map_values(|e: (usize, GlotAnnotation)| entry_view(e)) == stored(av.take(i as int), available_keys.spec_items()),
                forall|k: int| 0 <= k < annotations@.len() ==> relative_ok(#[trigger] annotations@[k].1),
            decreases anns@.len() - i,
        {
            let a = &anns[i];
            let (keys, rel) = split_patterns(&a.patterns, available_keys);
            proof {
                assert(av.take(i + 1).drop_last() =~= av.take(i as int));
                assert(av.take(i + 1).last() == annotation_view(*a));
            }
            let ghost e0 = annotations@;
            if keys.len() > 0 || rel.len() > 0 {
                annotations.push((a.line, GlotAnnotation { keys, relative_patterns: rel }));
                assert(annotations@.map_values(|e: (usize, GlotAnnotation)| entry_view(e)) =~=
                    e0.map_values(|e: (usize, GlotAnnotation)| entry_view(e)).push(entry_view(annotations@.last())));
            }
            i = i + 1;
        }
        assert(av.take(anns@.len() as int) =~= av);
        AnnotationStore { annotations, warnings: extract.warnings }
    }

    fn find_line(&self, line: usize) -> (r: Option<usize>)
        ensures
            match r {
                Some(i) => i as int == entry_for(self.annotations@, line as int) && i < self.annotations@.len(),
                None => entry_for(self.annotations@, line as int) == -1,
            },
    {
        let mut i: usize = 0;
        while i < self.annotations.len()
            invariant
                i <= self.annotations@.len(),
                entry_for(self.annotations@.take(i as int), line as int) == -1,
            decreases self.annotations@.len() - i,
        {
            proof { assert(self.annotations@.take(i + 1).drop_last() =~= self.annotations@.take(i as int)); }
            if self.annotations[i].0 == line {
                proof { lemma_entry_for_prefix(self.annotations@, i as int + 1, line as int); }
                return Some(i);
            }
            i = i + 1;
        }
        assert(self.annotations@.take(i as int) =~= self.annotations@);
        None
    }

    /// Gets the annotation of a line, or else of the line before it.
    pub fn get_annotation(&self, line: usize) -> (r: Option<&GlotAnnotation>)
        ensures
            match r {
                Some(a) => {
                    let c = entry_for(self.annotations@, line as int);
                    let p = entry_for(self.annotations@, line - 1);
                    if c >= 0 { *a == self.annotations@[c].1 } else { line > 1 && p >= 0 && *a == self.annotations@[p].1 }
                },
                None => entry_for(self.annotations@, line as int) == -1
                    && (line <= 1 || entry_for(self.annotations@, line - 1) == -1),
            },
    {
        if let Some(i) = self.find_line(line) {
            return Some(&self.annotations[i].1);
        }
        if line > 1 {
            if let Some(i) = self.find_line(line - 1) {
                return Some(&self.annotations[i].1);
            }
        }
        None
    }

    /// Expands relative patterns with the namespaces of a translation source.
    ///
    /// `.features.*.title` becomes `Namespace.features.*.title`; a glob is
    /// expanded against the available keys, and kept as it is when nothing
    /// matches, so that missing-key detection can report it.
    pub fn expand_relative_patterns(
        relative_patterns: &[String],
        translation_source: &TranslationSource,
        available_keys: &StrSet,
    ) -> (r: Vec<String>)
        requires
            forall|i: int| 0 <= i < relative_patterns@.len() ==> (#[trigger] relative_patterns@[i])@.len() > 0
                && (relative_patterns@[i]@[0] as u32) < 128,
        ensures
            svw(r@) == expand_all(svw(relative_patterns@), translation_source.spec_namespaces(), available_keys.spec_items()),
    {
        let namespaces = translation_source.namespaces();
        let ghost nss = namespaces@;
        let ghost avail = available_keys.spec_items();
        let mut result: Vec<String> = Vec::new();
        let mut i: usize = 0;
        while i < relative_patterns.len()
            invariant
                nss == namespaces@,
                nss == translation_source.spec_namespaces(),
                avail == available_keys.spec_items(),
                i <= relative_patterns@.len(),
                forall|m: int| 0 <= m < relative_patterns@.len() ==> (#[trigger] relative_patterns@[m])@.len() > 0,
                svw(result@) == expand_all(svw(relative_patterns@.take(i as int)), nss, avail),
            decreases relative_patterns@.len() - i,
        {
            let pattern = &relative_patterns[i];
            let pc = chars_of(pattern.as_str());
            let tail_chars = crate::lines::s_range(&pc, 1, pc.len());
            let tail = string_from_chars(tail_chars.as_slice());
            proof {
                assert(svw(relative_patterns@.take(i + 1)).drop_last() =~= svw(relative_patterns@.take(i as int)));
                assert(svw(relative_patterns@.take(i + 1)).last() == pattern@);
                assert(tail@ =~= pattern@.drop_first());
            }
            let ghost r_before = svw(result@);
            let mut j: usize = 0;
            while j < namespaces.len()
                invariant
                    nss == namespaces@,
                    avail == available_keys.spec_items(),
                    j <= nss.len(),
                    tail@ == pattern@.drop_first(),
                    svw(result@) == r_before + expand_one(pattern@, nss.take(j as int), avail),
                decreases nss.len() - j,
            {
                let full = match &namespaces[j] {
                    Some(ns) => concat3(ns.as_str(), ".", tail.as_str()),
                    None => tail.clone(),
                };
                proof {
                    assert(nss.take(j + 1).drop_last() =~= nss.take(j as int));
                    assert(nss.take(j + 1).last() == nss[j as int]);
                    assert(full@ == relative_full(nss[j as int], pattern@));
                }
                let ghost r0 = result@;
                let mut ex = expand_relative_one(full, available_keys);
                let ghost exv = ex@;
                result.append(&mut ex);
                assert(svw(result@) =~= svw(r0) + svw(exv));
                j = j + 1;
            }
            assert(nss.take(nss.len() as int) =~= nss);
            i = i + 1;
        }
        assert(relative_patterns@.take(relative_patterns@.len() as int) =~= relative_patterns@);
        result
    }
}

proof fn lemma_entry_for_prefix(es: Seq<(usize, GlotAnnotation)>, n: int, line: int)
    requires
        1 <= n <= es.len(),
        entry_for(es.take(n - 1), line) == -1,
        es[n - 1].0 == line,
    ensures
        entry_for(es, line) == n - 1,
    decreases es.len() - n,
{
    assert(es.take(n).drop_last() =~= es.take(n - 1));
    if n < es.len() {
        assert(es.take(n + 1).drop_last() =~= es.take(n));
        lemma_entry_for_prefix_ext(es, n, line);
    } else {
        assert(es.take(n) =~= es);
    }
}

proof fn lemma_entry_for_prefix_ext(es: Seq<(usize, GlotAnnotation)>, n: int, line: int)
    requires
        1 <= n <= es.len(),
        entry_for(es.take(n), line) >= 0,
    ensures
        entry_for(es, line) == entry_for(es.take(n), line),
    decreases es.len() - n,
{
    if n < es.len() {
        assert(es.take(n + 1).drop_last() =~= es.take(n));
        lemma_entry_for_prefix_ext(es, n + 1, line);
    } else {
        assert(es.take(n) =~= es);
    }
}

} // verus!
