//! What the commands share: analysing every file, the keys the code uses,
//! and turning findings into issues.

use vstd::prelude::*;
use crate::ast::Module;
use crate::context::{CommentStyle, SourceContext, SourceLocation};
use crate::extraction::{DynamicKeyReason, DynamicKeyWarning, Registries};
use crate::file_analyzer::{FileAnalysisResult, FileAnalyzer, file_extracted, file_extracted_with};
use crate::visitor::{TranslationKeyVisitor, WalkTrace};
use crate::hardcoded::{by_line, hc_stmts, issues_view, ranges_from, reported, start_state, HardcodedIssue};
use crate::lines::spec_lines;
use crate::issues::{HardcodedTextIssue, IssueUnresolvedKeyReason, UnresolvedKeyIssue};
use crate::key_objects::{FileImports, ImportInfo};
use crate::registries::AllFileImports;
use crate::strmap::StrSet;
use crate::check_context::{message_keys,
    collected, collected_from, file_path_set, issues_in_file, lemma_result_paths, paths_of, primary_keys,
    registries_of, split_analysis, usages_in_file, used_keys_in, AllHardcodedIssues, AllKeyUsages, CheckContext,
};
use crate::registries::collect_registries;
use crate::registry::{rg_items, RegistryCollector};
use crate::collector::{arrays_view, found_arrays, found_imports, found_objects, found_string_arrays, imports_view, objects_view, string_arrays_view};
use crate::schema_collector::{fns_view, spec_module_fns};

verus! {

/// A parsed source file with what its analysis needs.
pub struct SourceFile {
    pub file_path: String,
    pub module: Module,
    pub source: String,
    /// Its comments, each with the line it starts on.
    pub comments: Vec<(usize, String)>,
}

/// The hardcoded text found in a file, with these checked attributes and
/// ignored texts: the reported findings of a walk of its module from the
/// top, outside JSX.
pub open spec fn file_hardcoded(f: SourceFile, attrs: Seq<Seq<char>>, ignore: Set<Seq<char>>)
    -> Seq<(Seq<char>, usize, usize, Seq<char>, Seq<char>, bool)>
{
    reported(f.file_path@, spec_lines(f.source@), ranges_from(by_line(f.comments@), 0, None), ignore,
        hc_stmts(f.module.body@, start_state(), attrs))
}

/// The imports recorded for file `k`; none when it has no entry.
pub open spec fn imports_for(m: Map<Seq<char>, FileImports>, k: Seq<char>) -> Seq<ImportInfo> {
    match m.get(k) {
        Some(v) => v@,
        None => Seq::empty(),
    }
}

/// Analyses every file: its translation keys and its hardcoded text, in
/// the order of `files`.
#[verifier::spinoff_prover]
pub(crate) fn analyse_files(
    files: &Vec<SourceFile>,
    registries: &Registries,
    file_imports: &AllFileImports,
    checked_attributes: &Vec<String>,
    ignore_texts: &StrSet,
    available_keys: &StrSet,
    disk: &StrSet,
) -> (r: Vec<(String, FileAnalysisResult)>)
    ensures
        r@.len() == files@.len(),
        forall|i: int| 0 <= i < r@.len() ==> (#[trigger] r@[i]).0@ == files@[i].file_path@,
        forall|i: int, j: int| 0 <= i < r@.len() && 0 <= j < r@[i].1.hardcoded_issues@.len()
            ==> (#[trigger] r@[i].1.hardcoded_issues@[j]).file_path@ == files@[i].file_path@,
        forall|i: int, j: int| 0 <= i < r@.len() && 0 <= j < r@[i].1.extraction.used_keys@.len()
            ==> (#[trigger] r@[i].1.extraction.used_keys@[j]).file_path@ == files@[i].file_path@,
        forall|i: int, j: int| 0 <= i < r@.len() && 0 <= j < r@[i].1.extraction.warnings@.len()
            ==> (#[trigger] r@[i].1.extraction.warnings@[j]).file_path@ == files@[i].file_path@,
        forall|i: int| 0 <= i < r@.len() ==> issues_view((#[trigger] r@[i]).1.hardcoded_issues@)
            == file_hardcoded(files@[i], checked_attributes@.map_values(|s: String| s@), ignore_texts@),
        forall|i: int| 0 <= i < r@.len() ==> file_extracted(files@[i], *registries,
            imports_for(file_imports@, files@[i].file_path@), *available_keys, paths_of(files@) + disk@, (#[trigger] r@[i]).1.extraction),
{
    let empty: FileImports = Vec::new();
    let mut out: Vec<(String, FileAnalysisResult)> = Vec::new();
    let mut i: usize = 0;
    while i < files.len()
        invariant
            i <= files@.len(),
            out@.len() == i,
            forall|k: int| 0 <= k < i ==> (#[trigger] out@[k]).0@ == files@[k].file_path@,
            forall|k: int, j: int| 0 <= k < i && 0 <= j < out@[k].1.hardcoded_issues@.len()
                ==> (#[trigger] out@[k].1.hardcoded_issues@[j]).file_path@ == files@[k].file_path@,
            forall|k: int, j: int| 0 <= k < i && 0 <= j < out@[k].1.extraction.used_keys@.len()
                ==> (#[trigger] out@[k].1.extraction.used_keys@[j]).file_path@ == files@[k].file_path@,
            forall|k: int, j: int| 0 <= k < i && 0 <= j < out@[k].1.extraction.warnings@.len()
                ==> (#[trigger] out@[k].1.extraction.warnings@[j]).file_path@ == files@[k].file_path@,
            forall|k: int| 0 <= k < i ==> issues_view((#[trigger] out@[k]).1.hardcoded_issues@)
                == file_hardcoded(files@[k], checked_attributes@.map_values(|s: String| s@), ignore_texts@),
            empty@ == Seq::<ImportInfo>::empty(),
            forall|k: int| 0 <= k < i ==> file_extracted(files@[k], *registries,
                imports_for(file_imports@, files@[k].file_path@), *available_keys, paths_of(files@) + disk@, (#[trigger] out@[k]).1.extraction),
        decreases files@.len() - i,
    {
        let f = &files[i];
        let imports = match file_imports.get(f.file_path.as_str()) {
            Some(imps) => {
                proof { assert(file_imports@.get(f.file_path@) == Some(*imps)); }
                imps
            },
            None => {
                proof { assert(file_imports@.get(f.file_path@) is None); }
                &empty
            },
        };
        let analyzer = FileAnalyzer::new(
            f.file_path.as_str(),
            f.comments.as_slice(),
            checked_attributes.as_slice(),
            ignore_texts,
            registries,
            imports,
            f.source.as_str(),
            available_keys,
        );
        let mut analyzer = analyzer;
        analyzer.set_existing_files(existing_files(files, disk));
        let ghost a0 = analyzer;
        let result = analyzer.analyze(&f.module);
        proof {
            assert(imports@ == imports_for(file_imports@, files@[i as int].file_path@));
            let (after, t) = choose|after: TranslationKeyVisitor, t: WalkTrace| a0.keys.w_statements(f.module.body, f.module.body@.len() as int, after, t)
                && result.extraction.used_keys == after.used_keys && result.extraction.warnings == after.warnings
                && result.extraction.schema_calls == after.schema_calls && result.extraction.resolved_keys == after.resolved_keys;
            assert(a0.keys.fresh_for(files@[i as int].file_path@, files@[i as int].source@, *registries,
                imports_for(file_imports@, files@[i as int].file_path@), *available_keys, paths_of(files@) + disk@));
            assert(a0.keys.w_statements(files@[i as int].module.body, files@[i as int].module.body@.len() as int, after, t));
            assert(file_extracted(files@[i as int], *registries, imports_for(file_imports@, files@[i as int].file_path@), *available_keys, paths_of(files@) + disk@, result.extraction));
            assert(issues_view(a0.hardcoded.issues@) =~= Seq::empty());
            assert(a0.hardcoded.attrs_view() =~= checked_attributes@.map_values(|s: String| s@));
            assert(issues_view(result.hardcoded_issues@) == file_hardcoded(files@[i as int], checked_attributes@.map_values(|s: String| s@), ignore_texts@));
            assert forall|j: int| 0 <= j < result.extraction.used_keys@.len()
                implies (#[trigger] result.extraction.used_keys@[j]).file_path@ == files@[i as int].file_path@ by {}
            assert forall|j: int| 0 <= j < result.extraction.warnings@.len()
                implies (#[trigger] result.extraction.warnings@[j]).file_path@ == files@[i as int].file_path@ by {}
            assert forall|j: int| 0 <= j < result.hardcoded_issues@.len()
                implies (#[trigger] result.hardcoded_issues@[j]).file_path@ == files@[i as int].file_path@ by {}
        }
        let ghost before = out@;
        let ghost res = result;
        out.push((f.file_path.clone(), result));
        proof {
            assert(out@[i as int].1 == res);
            assert forall|k: int, j: int| 0 <= k < i + 1 && 0 <= j < out@[k].1.extraction.used_keys@.len()
                implies (#[trigger] out@[k].1.extraction.used_keys@[j]).file_path@ == files@[k].file_path@ by {
                if k < i {
                    assert(out@[k] == before[k]);
                } else {
                    assert(res.extraction.used_keys@[j].file_path@ == files@[i as int].file_path@);
                }
            }
        }
        i = i + 1;
    }
    out
}

/// A place of hardcoded text as an issue: the comment style follows where
/// the text stands.
pub fn hardcoded_text_issue(h: HardcodedIssue) -> (r: HardcodedTextIssue)
    ensures
        r.context.location.file_path@ == h.file_path@,
        r.context.location.line == h.line,
        r.context.location.col == h.col,
        r.context.source_line@ == h.source_line@,
        r.context.comment_style == if h.in_jsx_context { CommentStyle::Jsx } else { CommentStyle::Js },
        r.text@ == h.text@,
{
    let style = if h.in_jsx_context { CommentStyle::Jsx } else { CommentStyle::Js };
    HardcodedTextIssue {
        context: SourceContext {
            location: SourceLocation { file_path: h.file_path, line: h.line, col: h.col },
            source_line: h.source_line,
            comment_style: style,
        },
        text: h.text,
    }
}

/// A dynamic key as an unresolved key issue, with its hint and pattern.
pub fn unresolved_key_issue(w: DynamicKeyWarning) -> (r: UnresolvedKeyIssue)
    ensures
        r.context.location.file_path@ == w.file_path@,
        r.context.location.line == w.line,
        r.context.location.col == w.col,
        r.context.source_line@ == w.source_line@,
        r.context.comment_style == if w.in_jsx_context { CommentStyle::Jsx } else { CommentStyle::Js },
        r.reason == match w.reason {
            DynamicKeyReason::VariableKey => IssueUnresolvedKeyReason::VariableKey,
            DynamicKeyReason::TemplateWithExpr => IssueUnresolvedKeyReason::TemplateWithExpr,
        },
        r.hint == w.hint,
        r.pattern == w.pattern,
{
    let style = if w.in_jsx_context { CommentStyle::Jsx } else { CommentStyle::Js };
    let reason = match w.reason {
        DynamicKeyReason::VariableKey => IssueUnresolvedKeyReason::VariableKey,
        DynamicKeyReason::TemplateWithExpr => IssueUnresolvedKeyReason::TemplateWithExpr,
    };
    UnresolvedKeyIssue {
        context: SourceContext {
            location: SourceLocation { file_path: w.file_path, line: w.line, col: w.col },
            source_line: w.source_line,
            comment_style: style,
        },
        reason,
        hint: w.hint,
        pattern: w.pattern,
    }
}

/// The parsed files' paths and the other files known to exist.
fn existing_files(files: &Vec<SourceFile>, disk: &StrSet) -> (r: StrSet)
    ensures
        r@ == paths_of(files@) + disk@,
{
    let mut r = file_path_set(files);
    let items = disk.items();
    let ghost p = paths_of(files@);
    let mut i: usize = 0;
    while i < items.len()
        invariant
            i <= items@.len(),
            items@ == disk.spec_items(),
            r@ == p + Set::new(|k: Seq<char>| exists|j: int| 0 <= j < i && #[trigger] items@[j].0@ == k),
        decreases items@.len() - i,
    {
        let ghost before = r@;
        r.insert(items[i].0.clone());
        proof {
            assert(r@ =~= p + Set::new(|k: Seq<char>| exists|j: int| 0 <= j < i + 1 && #[trigger] items@[j].0@ == k)) by {
                assert forall|k: Seq<char>| (exists|j: int| 0 <= j < i + 1 && #[trigger] items@[j].0@ == k)
                    implies before.contains(k) || k == items@[i as int].0@ by {
                    let j = choose|j: int| 0 <= j < i + 1 && #[trigger] items@[j].0@ == k;
                    if j < i { assert(exists|j2: int| 0 <= j2 < i && #[trigger] items@[j2].0@ == k); }
                }
            }
        }
        i = i + 1;
    }
    proof {
        assert(r@ =~= p + disk@);
    }
    r
}

/// The registries and imports of the context's parsed files.
pub fn build_registries(ctx: &CheckContext) -> (r: (Registries, AllFileImports))
    requires
        ctx.cells.parsed_files() is Some,
    ensures
        exists|cs: Seq<(String, RegistryCollector)>| #![trigger collected_from(cs, ctx.cells.parsed_files()->0@, paths_of(ctx.cells.parsed_files()->0@) + ctx.disk_files@)]
            collected_from(cs, ctx.cells.parsed_files()->0@, paths_of(ctx.cells.parsed_files()->0@) + ctx.disk_files@)
            && registries_of(r.0, r.1, cs, paths_of(ctx.cells.parsed_files()->0@) + ctx.disk_files@),
{
    let files = ctx.parsed_files().unwrap();
    let ghost fs = files@;
    let ghost existing = paths_of(fs) + ctx.disk_files@;
    let mut collectors: Vec<(String, RegistryCollector)> = Vec::new();
    let mut i: usize = 0;
    while i < files.len()
        invariant
            i <= fs.len(),
            fs == files@,
            existing == paths_of(fs) + ctx.disk_files@,
            collectors@.len() == i,
            forall|k: int| 0 <= k < i ==> collected(#[trigger] collectors@[k], fs[k], existing),
        decreases fs.len() - i,
    {
        let f = &files[i];
        let mut c = RegistryCollector::new(f.file_path.as_str());
        c.set_existing_files(existing_files(files, &ctx.disk_files));
        let ghost c0 = c;
        c.visit_module(&f.module);
        proof {
            assert(c0.scope_depth == 0);
            assert(c0.objects@.len() == 0 && c0.string_arrays@.len() == 0 && c0.arrays@.len() == 0 && c0.imports@.len() == 0);
            assert(objects_view(c0.objects@) =~= Seq::empty());
            assert(string_arrays_view(c0.string_arrays@) =~= Seq::empty());
            assert(arrays_view(c0.arrays@) =~= Seq::empty());
            assert(imports_view(c0.imports@) =~= Seq::empty());
        }
        proof {
            assert(fns_view(Seq::<crate::schema::SchemaFunction>::empty()) =~= Seq::empty());
            assert(Seq::<(Seq<char>, Seq<char>, Seq<Seq<char>>, Seq<Seq<char>>)>::empty()
                + spec_module_fns(f.module.body@, f.file_path@) =~= spec_module_fns(f.module.body@, f.file_path@));
            let fs_ = rg_items(f.module.body@, 0);
            assert(objects_view(Seq::<crate::key_objects::KeyObject>::empty()) + found_objects(fs_) =~= found_objects(fs_));
            assert(string_arrays_view(Seq::<crate::key_objects::StringArray>::empty()) + found_string_arrays(fs_) =~= found_string_arrays(fs_));
            assert(arrays_view(Seq::<crate::key_objects::KeyArray>::empty()) + found_arrays(fs_) =~= found_arrays(fs_));
            assert(imports_view(Seq::<crate::key_objects::ImportInfo>::empty()) + found_imports(fs_) =~= found_imports(fs_));
        }
        collectors.push((f.file_path.clone(), c));
        i = i + 1;
    }
    let existing_set = existing_files(files, &ctx.disk_files);
    let ghost cs = collectors@;
    let r = collect_registries(collectors, &existing_set);
    proof {
        assert(collected_from(cs, fs, existing));
        assert(registries_of(r.0, r.1, cs, existing));
    }
    r
}

/// The key usages and the hardcoded text of each of the context's parsed
/// files, by file. The keys of the primary locale's messages, where they
/// are loaded, are the keys a glob may stand for.
pub fn build_file_analysis(ctx: &CheckContext) -> (r: (AllKeyUsages, AllHardcodedIssues))
    requires
        ctx.cells.parsed_files() is Some,
        ctx.cells.registries() is Some,
        ctx.cells.file_imports() is Some,
    ensures
        r.0@.dom() == paths_of(ctx.cells.parsed_files()->0@),
        r.1@.dom() == paths_of(ctx.cells.parsed_files()->0@),
        forall|k: Seq<char>| #[trigger] r.0@.contains_key(k) ==> usages_in_file(r.0@[k], k),
        forall|k: Seq<char>| #[trigger] r.1@.contains_key(k) ==> issues_in_file(r.1@[k], k),
        forall|k: Seq<char>| #[trigger] r.1@.contains_key(k) ==> exists|i: int| 0 <= i < ctx.cells.parsed_files()->0@.len()
            && ctx.cells.parsed_files()->0@[i].file_path@ == k
            && issues_view(r.1@[k]@) == #[trigger] file_hardcoded(ctx.cells.parsed_files()->0@[i], ctx.attrs_view(), ctx.ignore_texts@),
        forall|k: Seq<char>| #[trigger] r.0@.contains_key(k) ==> exists|i: int| 0 <= i < ctx.cells.parsed_files()->0@.len()
            && ctx.cells.parsed_files()->0@[i].file_path@ == k
            && #[trigger] file_extracted_with(ctx.cells.parsed_files()->0@[i], ctx.cells.registries()->0,
                imports_for(ctx.cells.file_imports()->0@, k), message_keys(ctx.cells.messages()),
                paths_of(ctx.cells.parsed_files()->0@) + ctx.disk_files@, r.0@[k]),
{
    let files = ctx.parsed_files().unwrap();
    let registries = ctx.registries().unwrap();
    let imports = ctx.file_imports().unwrap();
    let available = primary_keys(ctx.messages());
    let results = analyse_files(
        files,
        registries,
        imports,
        &ctx.config.checked_attributes,
        &ctx.ignore_texts,
        &available,
        &ctx.disk_files,
    );
    proof {
        lemma_result_paths(results@, files@);
        assert forall|i: int| 0 <= i < results@.len() implies usages_in_file((#[trigger] results@[i]).1.extraction, results@[i].0@) by {
            assert forall|j: int| 0 <= j < results@[i].1.extraction.used_keys@.len() implies
                (#[trigger] results@[i].1.extraction.used_keys@[j]).file_path@ == results@[i].0@ by {}
            assert forall|j: int| 0 <= j < results@[i].1.extraction.warnings@.len() implies
                (#[trigger] results@[i].1.extraction.warnings@[j]).file_path@ == results@[i].0@ by {}
        }
        assert forall|i: int| 0 <= i < results@.len() implies issues_in_file((#[trigger] results@[i]).1.hardcoded_issues, results@[i].0@) by {
            assert forall|j: int| 0 <= j < results@[i].1.hardcoded_issues@.len() implies
                (#[trigger] results@[i].1.hardcoded_issues@[j]).file_path@ == results@[i].0@ by {}
        }
    }
    let ghost rs = results@;
    let r = split_analysis(results);
    proof {
        assert(ctx.config.checked_attributes@.map_values(|s: String| s@) == ctx.attrs_view());
        assert forall|k: Seq<char>| #[trigger] r.1@.contains_key(k) implies exists|i: int| 0 <= i < files@.len()
            && files@[i].file_path@ == k
            && issues_view(r.1@[k]@) == #[trigger] file_hardcoded(files@[i], ctx.attrs_view(), ctx.ignore_texts@) by {
            let i = choose|i: int| 0 <= i < rs.len() && rs[i].0@ == k && r.1@[k] == #[trigger] rs[i].1.hardcoded_issues;
            assert(rs[i].0@ == files@[i].file_path@);
            assert(issues_view(rs[i].1.hardcoded_issues@) == file_hardcoded(files@[i], ctx.attrs_view(), ctx.ignore_texts@));
        }
        assert forall|k: Seq<char>| #[trigger] r.0@.contains_key(k) implies exists|i: int| 0 <= i < files@.len()
            && files@[i].file_path@ == k
            && #[trigger] file_extracted_with(files@[i], ctx.cells.registries()->0,
                imports_for(ctx.cells.file_imports()->0@, k), message_keys(ctx.cells.messages()),
                paths_of(ctx.cells.parsed_files()->0@) + ctx.disk_files@, r.0@[k]) by {
            let i = choose|i: int| 0 <= i < rs.len() && rs[i].0@ == k && r.0@[k] == #[trigger] rs[i].1.extraction;
            assert(rs[i].0@ == files@[i].file_path@);
            assert(file_extracted(files@[i], *registries, imports_for(imports@, files@[i].file_path@), available, paths_of(files@) + ctx.disk_files@, rs[i].1.extraction));
            assert(file_extracted_with(files@[i], ctx.cells.registries()->0,
                imports_for(ctx.cells.file_imports()->0@, k), message_keys(ctx.cells.messages()),
                paths_of(ctx.cells.parsed_files()->0@) + ctx.disk_files@, r.0@[k]));
        }
    }
    r
}

/// The keys used in code: every used key of every file's key usages.
pub fn collect_used_keys(ctx: &CheckContext) -> (r: StrSet)
    requires
        ctx.cells.extractions() is Some,
    ensures
        r@ == used_keys_in(ctx.cells.extractions()->0),
{
    ctx.collect_used_keys()
}

} // verus!
