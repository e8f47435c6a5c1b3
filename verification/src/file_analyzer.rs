//! Analysis of one file: its translation keys and its hardcoded text.

use vstd::prelude::*;
use crate::ast::Module;
use crate::extraction::{KeyExtractionResult, Registries};
use crate::hardcoded::{by_line, hc_stmts, issues_view, ranges_from, start_state, HardcodedChecker, HardcodedIssue};
use crate::lines::spec_lines;
use crate::key_objects::FileImports;
use crate::strmap::StrSet;
use crate::visitor::{TranslationKeyVisitor, WalkTrace, is_prefix};
use crate::value_analyzer::ValueAnalyzer;
use crate::key_objects::ImportInfo;
use crate::shared::SourceFile;

verus! {

/// `r` is what extracting the keys of file `f` gives: the walk over its
/// module of a visitor made for it (see `TranslationKeyVisitor::fresh_for`).
pub open spec fn file_extracted<'a>(
    f: SourceFile,
    registries: Registries,
    file_imports: Seq<ImportInfo>,
    available_keys: StrSet,
    existing_files: Set<Seq<char>>,
    r: KeyExtractionResult,
) -> bool {
    exists|v0: TranslationKeyVisitor<'a>, after: TranslationKeyVisitor<'a>, t: WalkTrace<'a>|
        #[trigger] v0.fresh_for(f.file_path@, f.source@, registries, file_imports, available_keys, existing_files)
        && #[trigger] v0.w_statements(f.module.body, f.module.body@.len() as int, after, t)
        && r.used_keys == after.used_keys && r.warnings == after.warnings
        && r.schema_calls == after.schema_calls && r.resolved_keys == after.resolved_keys
        && r.pattern_warnings == v0.annotation_store.warnings
}

/// [`file_extracted`] with some set of available keys that holds exactly `keys`.
pub open spec fn file_extracted_with<'a>(
    f: SourceFile,
    registries: Registries,
    file_imports: Seq<ImportInfo>,
    keys: Set<Seq<char>>,
    existing_files: Set<Seq<char>>,
    r: KeyExtractionResult,
) -> bool {
    exists|avail: StrSet| avail@ == keys && #[trigger] file_extracted(f, registries, file_imports, avail, existing_files, r)
}

/// What the analysis of one file found.
#[derive(Debug)]
pub struct FileAnalysisResult {
    pub hardcoded_issues: Vec<HardcodedIssue>,
    pub extraction: KeyExtractionResult,
}

/// Extracts the translation keys of a file and finds its hardcoded text.
pub struct FileAnalyzer<'a> {
    pub keys: TranslationKeyVisitor<'a>,
    pub hardcoded: HardcodedChecker<'a>,
}

impl<'a> FileAnalyzer<'a> {
    pub open spec fn wf(&self) -> bool {
        &&& self.keys.wf()
        &&& self.hardcoded.wf()
        &&& self.keys.file_path == self.hardcoded.file_path
    }

    /// An analyzer for one file, given its source text and its comments
    /// (each with the line it starts on).
    pub fn new(
        file_path: &'a str,
        comments: &[(usize, String)],
        checked_attributes: &'a [String],
        ignore_texts: &'a StrSet,
        registries: &'a Registries,
        file_imports: &'a FileImports,
        source: &str,
        available_keys: &'a StrSet,
    ) -> (r: Self)
        ensures
            r.wf(),
            r.keys.file_path == file_path,
            r.keys.registries == registries,
            r.keys.available_keys == available_keys,
            r.keys.value_analyzer.file_imports == file_imports,
            r.keys.used_keys@.len() == 0,
            r.keys.warnings@.len() == 0,
            r.keys.schema_calls@.len() == 0,
            r.keys.resolved_keys@.len() == 0,
            r.keys.fresh_for(file_path@, source@, *registries, file_imports@, *available_keys, Set::<Seq<char>>::empty()),
            r.hardcoded.file_path == file_path,
            r.hardcoded.checked_attributes == checked_attributes,
            r.hardcoded.ignore_texts == ignore_texts,
            r.hardcoded.spec_lines() == spec_lines(source@),
            r.hardcoded.ignore_context.disabled_ranges@ == ranges_from(by_line(comments@), 0, None),
            r.hardcoded.jsx_state == start_state(),
            r.hardcoded.issues@.len() == 0,
    {
        FileAnalyzer {
            keys: TranslationKeyVisitor::new(file_path, registries, file_imports, source, available_keys),
            hardcoded: HardcodedChecker::new(file_path, checked_attributes, ignore_texts, source, comments),
        }
    }

    /// Tells the key extraction which files exist, for resolving imports;
    /// nothing else changes.
    pub fn set_existing_files(&mut self, files: StrSet)
        requires
            old(self).wf(),
        ensures
            final(self).wf(),
            final(self).hardcoded == old(self).hardcoded,
            final(self).keys == (TranslationKeyVisitor { value_analyzer: final(self).keys.value_analyzer, ..old(self).keys }),
            final(self).keys.value_analyzer == (ValueAnalyzer { existing_files: final(self).keys.value_analyzer.existing_files, ..old(self).keys.value_analyzer }),
            final(self).keys.value_analyzer.existing_files@ == files@,
    {
        self.keys.set_existing_files(files);
    }

    /// Walks the module once for each part of the analysis.
    pub fn analyze(self, m: &Module) -> (r: FileAnalysisResult)
        requires
            self.wf(),
        ensures
            forall|i: int| 0 <= i < r.hardcoded_issues@.len() ==> (#[trigger] r.hardcoded_issues@[i]).file_path@ == self.keys.file_path@,
            is_prefix(self.hardcoded.issues@, r.hardcoded_issues@),
            issues_view(r.hardcoded_issues@) == issues_view(self.hardcoded.issues@)
                + self.hardcoded.spec_reported(hc_stmts(m.body@, self.hardcoded.jsx_state, self.hardcoded.attrs_view())),
            forall|i: int| 0 <= i < r.extraction.used_keys@.len() ==> (#[trigger] r.extraction.used_keys@[i]).file_path@ == self.keys.file_path@,
            forall|i: int| 0 <= i < r.extraction.warnings@.len() ==> (#[trigger] r.extraction.warnings@[i]).file_path@ == self.keys.file_path@,
            forall|i: int| 0 <= i < r.extraction.resolved_keys@.len() ==> (#[trigger] r.extraction.resolved_keys@[i]).file_path@ == self.keys.file_path@,
            is_prefix(self.keys.used_keys@, r.extraction.used_keys@),
            is_prefix(self.keys.warnings@, r.extraction.warnings@),
            is_prefix(self.keys.schema_calls@, r.extraction.schema_calls@),
            is_prefix(self.keys.resolved_keys@, r.extraction.resolved_keys@),
            r.extraction.pattern_warnings == self.keys.annotation_store.warnings,
            exists|after: TranslationKeyVisitor<'a>, t: WalkTrace<'a>| #[trigger] self.keys.w_statements(m.body, m.body@.len() as int, after, t)
                && r.extraction.used_keys == after.used_keys && r.extraction.warnings == after.warnings
                && r.extraction.schema_calls == after.schema_calls && r.extraction.resolved_keys == after.resolved_keys,
    {
        let FileAnalyzer { keys, hardcoded } = self;
        let hardcoded_issues = hardcoded.check(m);
        let extraction = keys.extract(m);
        FileAnalysisResult { hardcoded_issues, extraction }
    }
}

} // verus!
