//! What a command works on: the configuration, the files, and the data
//! derived from them, each computed at most once and kept.

use vstd::prelude::*;
use crate::context::MessageContext;
use crate::extraction::{MissingKeyResult, Registries};
use crate::file_analyzer::{FileAnalysisResult, file_extracted_with};
use crate::hardcoded::{issues_view, HardcodedIssue};
use crate::key_objects::{
    opt_view, path_join, path_strip_prefix, spec_path_join, spec_path_strip_prefix, TranslationFnCall, TranslationProp,
};
use crate::registries::{
    call_view, files_arrays, files_calls, files_defaults, files_imports, files_objects, files_props, files_schema,
    files_string_arrays, prop_view, reversed, AllFileImports,
};
use crate::registry::{rg_items, spec_default_export, RegistryCollector};
use crate::collector::{arrays_view, found_arrays, found_imports, found_objects, found_string_arrays, imports_view, objects_view, string_arrays_view};
use crate::schema_collector::{fns_view, spec_module_fns};
use crate::shared::{build_file_analysis, build_registries, file_hardcoded, imports_for, SourceFile};
use crate::strmap::{StrMap, StrSet};
use crate::text::chars_of;

verus! {

/// The settings of a project.
#[derive(Debug, Clone)]
pub struct Config {
    pub primary_locale: String,
    pub messages_dir: String,
    /// Glob patterns of the source files to scan (all when empty).
    pub includes: Vec<String>,
    /// Glob patterns of paths to leave out.
    pub ignores: Vec<String>,
    pub ignore_test_files: bool,
    /// JSX attributes whose text is checked for hardcoded strings.
    pub checked_attributes: Vec<String>,
    /// Texts never reported as hardcoded.
    pub ignore_texts: Vec<String>,
}

/// A locale's messages: each key with where it is defined and its value.
pub type MessageMap = StrMap<MessageContext>;

/// The messages of every locale file.
pub struct MessageData {
    /// Locale -> its messages.
    pub all_messages: StrMap<MessageMap>,
    /// The messages of the primary locale, if its file exists.
    pub primary_messages: Option<MessageMap>,
}

/// File -> its translation key usages.
pub type AllKeyUsages = StrMap<MissingKeyResult>;

/// File -> its hardcoded text.
pub type AllHardcodedIssues = StrMap<Vec<HardcodedIssue>>;

/// File -> its comments, each with the line it starts on.
pub type AllFileComments = StrMap<Vec<(usize, String)>>;

/// The data a context derives, each part empty until first set; only the
/// context's setters write it, and a part once set stays.
pub struct Cells {
    parsed_files: Option<Vec<SourceFile>>,
    registries: Option<Registries>,
    file_imports: Option<AllFileImports>,
    messages: Option<MessageData>,
    extractions: Option<AllKeyUsages>,
    hardcoded_issues: Option<AllHardcodedIssues>,
    used_keys: Option<StrSet>,
    file_comments: Option<AllFileComments>,
}

impl Cells {
    pub closed spec fn parsed_files(&self) -> Option<Vec<SourceFile>> { self.parsed_files }
    pub closed spec fn registries(&self) -> Option<Registries> { self.registries }
    pub closed spec fn file_imports(&self) -> Option<AllFileImports> { self.file_imports }
    pub closed spec fn messages(&self) -> Option<MessageData> { self.messages }
    pub closed spec fn extractions(&self) -> Option<AllKeyUsages> { self.extractions }
    pub closed spec fn hardcoded_issues(&self) -> Option<AllHardcodedIssues> { self.hardcoded_issues }
    pub closed spec fn used_keys(&self) -> Option<StrSet> { self.used_keys }
    pub closed spec fn file_comments(&self) -> Option<AllFileComments> { self.file_comments }

    /// Every part is empty.
    pub open spec fn is_empty(&self) -> bool {
        &&& self.parsed_files() is None
        &&& self.registries() is None
        &&& self.file_imports() is None
        &&& self.messages() is None
        &&& self.extractions() is None
        &&& self.hardcoded_issues() is None
        &&& self.used_keys() is None
        &&& self.file_comments() is None
    }
}

/// A part after a write: the first value written stays.
pub open spec fn first_write<T>(cur: Option<T>, data: T) -> Option<T> {
    if cur is Some { cur } else { Some(data) }
}

/// A shared reference to what a part holds.
pub open spec fn part_ref<T>(o: Option<T>, r: Option<&T>) -> bool {
    match o {
        Some(v) => r == Some(&v),
        None => r is None,
    }
}

/// One part of the derived data.
pub enum Part {
    ParsedFiles,
    Registries,
    FileImports,
    Messages,
    Extractions,
    HardcodedIssues,
    UsedKeys,
    FileComments,
}

/// `a` and `b` hold the same data in every part but `p`.
pub open spec fn same_but(a: Cells, b: Cells, p: Part) -> bool {
    &&& (p !is ParsedFiles ==> a.parsed_files() == b.parsed_files())
    &&& (p !is Registries ==> a.registries() == b.registries())
    &&& (p !is FileImports ==> a.file_imports() == b.file_imports())
    &&& (p !is Messages ==> a.messages() == b.messages())
    &&& (p !is Extractions ==> a.extractions() == b.extractions())
    &&& (p !is HardcodedIssues ==> a.hardcoded_issues() == b.hardcoded_issues())
    &&& (p !is UsedKeys ==> a.used_keys() == b.used_keys())
    &&& (p !is FileComments ==> a.file_comments() == b.file_comments())
}

/// The paths of the files.
pub open spec fn paths_of(files: Seq<SourceFile>) -> Set<Seq<char>>
    decreases files.len(),
{
    if files.len() == 0 {
        Set::empty()
    } else {
        paths_of(files.drop_last()).insert(files.last().file_path@)
    }
}

pub(crate) fn file_path_set(files: &Vec<SourceFile>) -> (r: StrSet)
    ensures
        r@ == paths_of(files@),
{
    let mut r = StrSet::new();
    let mut i: usize = 0;
    proof { assert(files@.take(0) =~= Seq::<SourceFile>::empty()); }
    while i < files.len()
        invariant
            i <= files@.len(),
            r@ == paths_of(files@.take(i as int)),
        decreases files@.len() - i,
    {
        r.insert(files[i].file_path.clone());
        proof { assert(files@.take(i + 1).drop_last() =~= files@.take(i as int)); }
        i = i + 1;
    }
    proof { assert(files@.take(files@.len() as int) =~= files@); }
    r
}

/// A list of comments, each with its line, as plain values.
pub open spec fn comment_view(v: Vec<(usize, String)>) -> Seq<(usize, Seq<char>)> {
    v@.map_values(|p: (usize, String)| (p.0, p.1@))
}

/// The comments of the files, by path (a later file with the same path
/// replaces an earlier one).
pub open spec fn comments_of(files: Seq<SourceFile>) -> Map<Seq<char>, Seq<(usize, Seq<char>)>>
    decreases files.len(),
{
    if files.len() == 0 {
        Map::empty()
    } else {
        comments_of(files.drop_last()).insert(files.last().file_path@, comment_view(files.last().comments))
    }
}

/// The comments by path, as plain values.
pub open spec fn comments_view(m: AllFileComments) -> Map<Seq<char>, Seq<(usize, Seq<char>)>> {
    m@.map_values(|v: Vec<(usize, String)>| comment_view(v))
}

fn copy_comments(v: &Vec<(usize, String)>) -> (r: Vec<(usize, String)>)
    ensures
        comment_view(r) == comment_view(*v),
{
    let mut r: Vec<(usize, String)> = Vec::new();
    let mut i: usize = 0;
    while i < v.len()
        invariant
            i <= v@.len(),
            r@ == v@.take(i as int),
        decreases v@.len() - i,
    {
        let s = v[i].1.clone();
        r.push((v[i].0, s));
        proof { assert(r@ =~= v@.take(i + 1)); }
        i = i + 1;
    }
    proof { assert(comment_view(r) =~= comment_view(*v)); }
    r
}

fn comments_map(files: &Vec<SourceFile>) -> (r: AllFileComments)
    ensures
        comments_view(r) == comments_of(files@),
{
    let mut r: AllFileComments = StrMap::new();
    let mut i: usize = 0;
    proof { assert(files@.take(0) =~= Seq::<SourceFile>::empty()); }
    while i < files.len()
        invariant
            i <= files@.len(),
            comments_view(r) == comments_of(files@.take(i as int)),
        decreases files@.len() - i,
    {
        let c = copy_comments(&files[i].comments);
        let ghost before = r@;
        r.insert(files[i].file_path.clone(), c);
        proof {
            assert(files@.take(i + 1).drop_last() =~= files@.take(i as int));
            assert(comments_view(r) =~= comments_of(files@.take(i as int)).insert(files@[i as int].file_path@,
                comment_view(files@[i as int].comments)));
        }
        i = i + 1;
    }
    proof { assert(files@.take(files@.len() as int) =~= files@); }
    r
}

/// `c` is the registry collector of file `f` after visiting it, knowing
/// the files `existing`.
pub open spec fn collected(c: (String, RegistryCollector), f: SourceFile, existing: Set<Seq<char>>) -> bool {
    &&& c.0@ == f.file_path@
    &&& c.1.file_path@ == f.file_path@
    &&& c.1.wf()
    &&& c.1.existing_files@ == existing
    &&& fns_view(c.1.schema_functions@) == spec_module_fns(f.module.body@, f.file_path@)
    &&& opt_view(c.1.default_export_name) == spec_default_export(f.module.body@, None)
    &&& objects_view(c.1.objects@) == found_objects(rg_items(f.module.body@, 0))
    &&& string_arrays_view(c.1.string_arrays@) == found_string_arrays(rg_items(f.module.body@, 0))
    &&& arrays_view(c.1.arrays@) == found_arrays(rg_items(f.module.body@, 0))
    &&& imports_view(c.1.imports@) == found_imports(rg_items(f.module.body@, 0))
}

/// `cs` holds the collector of each file, in order, each knowing the files `existing`.
pub open spec fn collected_from(cs: Seq<(String, RegistryCollector)>, files: Seq<SourceFile>, existing: Set<Seq<char>>) -> bool {
    &&& cs.len() == files.len()
    &&& forall|i: int| 0 <= i < cs.len() ==> collected(#[trigger] cs[i], files[i], existing)
}

/// `reg` and `imports` are what collecting the registries of `cs` gives.
pub open spec fn registries_of(
    reg: Registries,
    imports: AllFileImports,
    cs: Seq<(String, RegistryCollector)>,
    existing: Set<Seq<char>>,
) -> bool {
    &&& reg.schema@ == files_schema(cs)
    &&& reg.key_object@ == files_objects(cs)
    &&& reg.key_array@ == files_arrays(cs)
    &&& reg.string_array@ == files_string_arrays(cs)
    &&& reg.default_exports@ == files_defaults(cs)
    &&& imports@ == files_imports(cs)
    &&& reg.translation_fn_call@.map_values(|c: TranslationFnCall| call_view(c)) == files_calls(cs)
    &&& reg.translation_prop@.map_values(|p: TranslationProp| prop_view(p))
        == files_props(cs, files_imports(cs), files_defaults(cs), existing)
}

/// `c1` is `c0` after the registries, imports and comments of the parsed
/// files `files` were written, built from the collectors `cs`.
pub open spec fn registries_built(
    c0: Cells,
    c1: Cells,
    files: Seq<SourceFile>,
    existing: Set<Seq<char>>,
    cs: Seq<(String, RegistryCollector)>,
    reg: Registries,
    imports: AllFileImports,
    comments: AllFileComments,
) -> bool {
    &&& collected_from(cs, files, existing)
    &&& registries_of(reg, imports, cs, existing)
    &&& comments_view(comments) == comments_of(files)
    &&& c1.registries() == first_write(c0.registries(), reg)
    &&& c1.file_imports() == first_write(c0.file_imports(), imports)
    &&& c1.file_comments() == first_write(c0.file_comments(), comments)
    &&& c1.parsed_files() == c0.parsed_files()
    &&& c1.messages() == c0.messages()
    &&& c1.extractions() == c0.extractions()
    &&& c1.hardcoded_issues() == c0.hardcoded_issues()
    &&& c1.used_keys() == c0.used_keys()
}

/// What ensuring the registries does: nothing where they and the imports
/// are already there or no file is parsed yet; else it writes the
/// registries, imports and comments of the parsed files, an import
/// resolving to a parsed file or to one of `disk`.
pub open spec fn registries_ensured(c0: Cells, c1: Cells, disk: Set<Seq<char>>) -> bool {
    if c0.parsed_files() is None || (c0.registries() is Some && c0.file_imports() is Some) {
        c1 == c0
    } else {
        exists|cs: Seq<(String, RegistryCollector)>, reg: Registries, imports: AllFileImports, comments: AllFileComments|
            #[trigger] registries_built(c0, c1, c0.parsed_files()->0@, paths_of(c0.parsed_files()->0@) + disk, cs, reg, imports, comments)
    }
}

/// The path is absolute: it starts at the root, `/`.
pub open spec fn is_absolute_path(p: Seq<char>) -> bool {
    p.len() > 0 && p[0] == '/'
}

/// Every component of the path is `.`: it is relative and each of its
/// `/`-separated segments is empty or `.` (so `.` and `./` qualify, and
/// so does the empty path).
pub open spec fn only_cur_dir(p: Seq<char>) -> bool {
    &&& !is_absolute_path(p)
    &&& forall|i: int| #![trigger p[i]] 0 <= i < p.len() && p[i] != '/' ==> {
        &&& p[i] == '.'
        &&& (i == 0 || p[i - 1] == '/')
        &&& (i + 1 == p.len() || p[i + 1] == '/')
    }
}

fn is_only_cur_dir(p: &str) -> (r: bool)
    ensures
        r == only_cur_dir(p@),
{
    let cs = chars_of(p);
    if cs.len() > 0 && cs[0] == '/' {
        return false;
    }
    let mut i: usize = 0;
    while i < cs.len()
        invariant
            i <= cs@.len(),
            cs@ == p@,
            !is_absolute_path(p@),
            forall|j: int| #![trigger p@[j]] 0 <= j < i && p@[j] != '/' ==> {
                &&& p@[j] == '.'
                &&& (j == 0 || p@[j - 1] == '/')
                &&& (j + 1 == p@.len() || p@[j + 1] == '/')
            },
        decreases cs@.len() - i,
    {
        if cs[i] != '/' {
            let lone = cs[i] == '.' && (i == 0 || cs[i - 1] == '/') && (i + 1 == cs.len() || cs[i + 1] == '/');
            if !lone {
                assert(p@[i as int] != '/');
                return false;
            }
        }
        i = i + 1;
    }
    true
}

/// Where the message files are: `messages_dir` itself where it is
/// absolute or where `root_dir` is the current directory; else
/// `messages_dir`, without a leading `.` component, under `root_dir`.
pub open spec fn spec_resolved_messages_dir(root_dir: Seq<char>, messages_dir: Seq<char>) -> Seq<char> {
    if is_absolute_path(messages_dir) || only_cur_dir(root_dir) {
        messages_dir
    } else {
        let rel = match spec_path_strip_prefix(messages_dir, "."@) {
            Some(r) => r,
            None => messages_dir,
        };
        spec_path_join(root_dir, rel)
    }
}

fn messages_dir_under(root_dir: &str, messages_dir: &str) -> (r: String)
    ensures
        r@ == spec_resolved_messages_dir(root_dir@, messages_dir@),
{
    let md = chars_of(messages_dir);
    let absolute = md.len() > 0 && md[0] == '/';
    if absolute || is_only_cur_dir(root_dir) {
        return messages_dir.to_string();
    }
    let rel = match path_strip_prefix(messages_dir, ".") {
        Some(r) => r,
        None => messages_dir.to_string(),
    };
    path_join(root_dir, rel.as_str())
}

/// Every used key and every unresolved key of `m` was found in file `k`.
pub open spec fn usages_in_file(m: MissingKeyResult, k: Seq<char>) -> bool {
    &&& forall|j: int| 0 <= j < m.used_keys@.len() ==> (#[trigger] m.used_keys@[j]).file_path@ == k
    &&& forall|j: int| 0 <= j < m.warnings@.len() ==> (#[trigger] m.warnings@[j]).file_path@ == k
}

/// Every issue of `v` is in file `k`.
pub open spec fn issues_in_file(v: Vec<HardcodedIssue>, k: Seq<char>) -> bool {
    forall|j: int| 0 <= j < v@.len() ==> (#[trigger] v@[j]).file_path@ == k
}

/// The files named in a list of per-file results.
pub open spec fn result_paths(r: Seq<(String, FileAnalysisResult)>) -> Set<Seq<char>>
    decreases r.len(),
{
    if r.len() == 0 {
        Set::empty()
    } else {
        result_paths(r.drop_last()).insert(r.last().0@)
    }
}

pub(crate) proof fn lemma_result_paths(r: Seq<(String, FileAnalysisResult)>, files: Seq<SourceFile>)
    requires
        r.len() == files.len(),
        forall|i: int| 0 <= i < r.len() ==> (#[trigger] r[i]).0@ == files[i].file_path@,
    ensures
        result_paths(r) == paths_of(files),
    decreases r.len(),
{
    if r.len() > 0 {
        lemma_result_paths(r.drop_last(), files.drop_last());
    }
}

/// Splits per-file results into the key usages and the hardcoded text of
/// each file.
pub(crate) fn split_analysis(results: Vec<(String, FileAnalysisResult)>) -> (r: (AllKeyUsages, AllHardcodedIssues))
    requires
        forall|i: int| 0 <= i < results@.len() ==> usages_in_file((#[trigger] results@[i]).1.extraction, results@[i].0@),
        forall|i: int| 0 <= i < results@.len() ==> issues_in_file((#[trigger] results@[i]).1.hardcoded_issues, results@[i].0@),
    ensures
        r.0@.dom() == result_paths(results@),
        r.1@.dom() == result_paths(results@),
        forall|k: Seq<char>| #[trigger] r.0@.contains_key(k) ==> usages_in_file(r.0@[k], k),
        forall|k: Seq<char>| #[trigger] r.1@.contains_key(k) ==> issues_in_file(r.1@[k], k),
        forall|k: Seq<char>| #[trigger] r.0@.contains_key(k) ==> exists|i: int| 0 <= i < results@.len()
            && results@[i].0@ == k && r.0@[k] == #[trigger] results@[i].1.extraction,
        forall|k: Seq<char>| #[trigger] r.1@.contains_key(k) ==> exists|i: int| 0 <= i < results@.len()
            && results@[i].0@ == k && r.1@[k] == #[trigger] results@[i].1.hardcoded_issues,
{
    let ghost r0 = results@;
    let n = results.len();
    let mut rest = reversed(results);
    let ghost rv = rest@;
    let mut usages: AllKeyUsages = StrMap::new();
    let mut hardcoded: AllHardcodedIssues = StrMap::new();
    proof {
        assert(r0.take(0) =~= Seq::<(String, FileAnalysisResult)>::empty());
        assert(usages@.dom() =~= Set::<Seq<char>>::empty());
        assert(hardcoded@.dom() =~= Set::<Seq<char>>::empty());
    }
    while rest.len() > 0
        invariant
            n == r0.len(),
            rv.len() == n,
            forall|k: int| 0 <= k < n ==> rv[k] == r0[n - 1 - k],
            rest@ == rv.take(rest@.len() as int),
            rest@.len() <= n,
            forall|i: int| 0 <= i < r0.len() ==> usages_in_file((#[trigger] r0[i]).1.extraction, r0[i].0@),
            forall|i: int| 0 <= i < r0.len() ==> issues_in_file((#[trigger] r0[i]).1.hardcoded_issues, r0[i].0@),
            usages@.dom() == result_paths(r0.take(n - rest@.len())),
            hardcoded@.dom() == result_paths(r0.take(n - rest@.len())),
            forall|k: Seq<char>| #[trigger] usages@.contains_key(k) ==> usages_in_file(usages@[k], k),
            forall|k: Seq<char>| #[trigger] hardcoded@.contains_key(k) ==> issues_in_file(hardcoded@[k], k),
            forall|k: Seq<char>| #[trigger] usages@.contains_key(k) ==> exists|i: int| 0 <= i < n - rest@.len()
                && r0[i].0@ == k && usages@[k] == #[trigger] r0[i].1.extraction,
            forall|k: Seq<char>| #[trigger] hardcoded@.contains_key(k) ==> exists|i: int| 0 <= i < n - rest@.len()
                && r0[i].0@ == k && hardcoded@[k] == #[trigger] r0[i].1.hardcoded_issues,
        decreases rest@.len(),
    {
        let ghost m = rest@.len();
        let ghost done = n - m;
        let item = rest.pop().unwrap();
        proof {
            assert(item == rv[m - 1]);
            assert(item == r0[done]);
            assert(r0.take(done + 1).drop_last() =~= r0.take(done));
            assert(rest@ =~= rv.take(rest@.len() as int));
        }
        let (path, result) = item;
        let FileAnalysisResult { hardcoded_issues, extraction } = result;
        let ghost u_before = usages@;
        let ghost h_before = hardcoded@;
        usages.insert(path.clone(), extraction);
        hardcoded.insert(path, hardcoded_issues);
        proof {
            assert forall|k: Seq<char>| #[trigger] usages@.contains_key(k) implies exists|i: int| 0 <= i < done + 1
                && r0[i].0@ == k && usages@[k] == #[trigger] r0[i].1.extraction by {
                if k == r0[done].0@ {
                    assert(r0[done].0@ == k && usages@[k] == r0[done].1.extraction);
                } else {
                    assert(u_before.contains_key(k));
                    let i = choose|i: int| 0 <= i < done && r0[i].0@ == k && u_before[k] == #[trigger] r0[i].1.extraction;
                    assert(r0[i].0@ == k && usages@[k] == r0[i].1.extraction);
                }
            }
            assert forall|k: Seq<char>| #[trigger] hardcoded@.contains_key(k) implies exists|i: int| 0 <= i < done + 1
                && r0[i].0@ == k && hardcoded@[k] == #[trigger] r0[i].1.hardcoded_issues by {
                if k == r0[done].0@ {
                    assert(r0[done].0@ == k && hardcoded@[k] == r0[done].1.hardcoded_issues);
                } else {
                    assert(h_before.contains_key(k));
                    let i = choose|i: int| 0 <= i < done && r0[i].0@ == k && h_before[k] == #[trigger] r0[i].1.hardcoded_issues;
                    assert(r0[i].0@ == k && hardcoded@[k] == r0[i].1.hardcoded_issues);
                }
            }
            assert(usages@.dom() =~= result_paths(r0.take(done + 1)));
            assert(hardcoded@.dom() =~= result_paths(r0.take(done + 1)));
        }
    }
    proof { assert(r0.take(n as int) =~= r0); }
    (usages, hardcoded)
}

/// The keys of a locale's messages.
pub open spec fn message_keys(m: Option<MessageData>) -> Set<Seq<char>> {
    match m {
        Some(d) => match d.primary_messages {
            Some(p) => p@.dom(),
            None => Set::empty(),
        },
        None => Set::empty(),
    }
}

pub(crate) fn primary_keys(m: Option<&MessageData>) -> (r: StrSet)
    ensures
        r@ == message_keys(match m { Some(d) => Some(*d), None => None }),
{
    let mut r = StrSet::new();
    if let Some(d) = m {
        if let Some(p) = &d.primary_messages {
            let entries = p.entries();
            let mut i: usize = 0;
            while i < entries.len()
                invariant
                    i <= entries@.len(),
                    entries@ == p.spec_entries(),
                    forall|k: Seq<char>| #[trigger] r@.contains(k) <==> exists|j: int| 0 <= j < i && entries@[j].0@ == k,
                decreases entries@.len() - i,
            {
                r.insert(entries[i].0.clone());
                proof {
                    assert forall|k: Seq<char>| #[trigger] r@.contains(k) <==> exists|j: int| 0 <= j < i + 1 && entries@[j].0@ == k by {
                        if k == entries@[i as int].0@ {
                            assert(entries@[i as int].0@ == k);
                        }
                    }
                }
                i = i + 1;
            }
            proof {
                assert forall|k: Seq<char>| #[trigger] r@.contains(k) <==> p@.dom().contains(k) by {
                    if r@.contains(k) {
                        let j = choose|j: int| 0 <= j < entries@.len() && entries@[j].0@ == k;
                        assert(crate::strmap::has_key(p.spec_entries(), k));
                    }
                }
                assert(r@ =~= p@.dom());
            }
        } else {
            proof { assert(r@ =~= Set::<Seq<char>>::empty()); }
        }
    } else {
        proof { assert(r@ =~= Set::<Seq<char>>::empty()); }
    }
    r
}

/// `c1` is `c0` after the key usages `u` and hardcoded text `h` of the
/// parsed files were written, the text found with the checked attributes
/// `attrs` and the ignored texts `ignore`.
pub open spec fn analysis_built(
    c0: Cells,
    c1: Cells,
    u: AllKeyUsages,
    h: AllHardcodedIssues,
    attrs: Seq<Seq<char>>,
    ignore: Set<Seq<char>>,
    disk: Set<Seq<char>>,
) -> bool {
    let files = c0.parsed_files()->0@;
    &&& u@.dom() == paths_of(files)
    &&& h@.dom() == paths_of(files)
    &&& forall|k: Seq<char>| #[trigger] u@.contains_key(k) ==> usages_in_file(u@[k], k)
    &&& forall|k: Seq<char>| #[trigger] h@.contains_key(k) ==> issues_in_file(h@[k], k)
    &&& forall|k: Seq<char>| #[trigger] h@.contains_key(k) ==> exists|i: int| 0 <= i < files.len()
        && files[i].file_path@ == k && issues_view(h@[k]@) == #[trigger] file_hardcoded(files[i], attrs, ignore)
    &&& forall|k: Seq<char>| #[trigger] u@.contains_key(k) ==> exists|i: int| 0 <= i < files.len()
        && files[i].file_path@ == k
        && #[trigger] file_extracted_with(files[i], c0.registries()->0, imports_for(c0.file_imports()->0@, k),
            message_keys(c0.messages()), paths_of(files) + disk, u@[k])
    &&& c1.extractions() == first_write(c0.extractions(), u)
    &&& c1.hardcoded_issues() == first_write(c0.hardcoded_issues(), h)
    &&& c1.parsed_files() == c0.parsed_files()
    &&& c1.registries() == c0.registries()
    &&& c1.file_imports() == c0.file_imports()
    &&& c1.messages() == c0.messages()
    &&& c1.used_keys() == c0.used_keys()
    &&& c1.file_comments() == c0.file_comments()
}

/// What ensuring the analysis does: nothing where the key usages and the
/// hardcoded text are there already; else it ensures the registries and,
/// where files are parsed, writes the analysis of every parsed file.
pub open spec fn analysis_ensured(c0: Cells, c1: Cells, attrs: Seq<Seq<char>>, ignore: Set<Seq<char>>, disk: Set<Seq<char>>) -> bool {
    if c0.extractions() is Some && c0.hardcoded_issues() is Some {
        c1 == c0
    } else {
        exists|mid: Cells| #[trigger] registries_ensured(c0, mid, disk) && {
            if mid.parsed_files() is None || mid.registries() is None || mid.file_imports() is None {
                c1 == mid
            } else {
                exists|u: AllKeyUsages, h: AllHardcodedIssues| #[trigger] analysis_built(mid, c1, u, h, attrs, ignore, disk)
            }
        }
    }
}

/// The keys used in code according to the key usages of every file.
pub open spec fn used_keys_in(m: AllKeyUsages) -> Set<Seq<char>> {
    Set::new(|k: Seq<char>| exists|f: Seq<char>, j: int| #![trigger m@[f].used_keys@[j]]
        m@.contains_key(f) && 0 <= j < m@[f].used_keys@.len() && m@[f].used_keys@[j].full_key@ == k)
}

proof fn lemma_entry_value<V>(s: Seq<(String, V)>, a: int)
    requires
        crate::strmap::distinct_keys(s),
        0 <= a < s.len(),
    ensures
        crate::strmap::entries_map(s).contains_key(s[a].0@),
        crate::strmap::entries_map(s)[s[a].0@] == s[a].1,
{
    assert(crate::strmap::has_key(s, s[a].0@));
    let i = choose|i: int| 0 <= i < s.len() && s[i].0@ == s[a].0@;
    assert(i == a);
}

/// `c1` is `c0` with the used keys written from its key usages.
pub open spec fn used_keys_built(c0: Cells, c1: Cells, keys: StrSet) -> bool {
    &&& keys@ == used_keys_in(c0.extractions()->0)
    &&& c1.used_keys() == first_write(c0.used_keys(), keys)
    &&& same_but(c0, c1, Part::UsedKeys)
}

/// What ensuring the used keys does: nothing where they are there
/// already; else it ensures the analysis and, where the key usages are
/// there, writes the keys they use.
pub open spec fn used_keys_ensured(c0: Cells, c1: Cells, attrs: Seq<Seq<char>>, ignore: Set<Seq<char>>, disk: Set<Seq<char>>) -> bool {
    if c0.used_keys() is Some {
        c1 == c0
    } else {
        exists|mid: Cells| #[trigger] analysis_ensured(c0, mid, attrs, ignore, disk) && {
            if mid.extractions() is None {
                c1 == mid
            } else {
                exists|keys: StrSet| #[trigger] used_keys_built(mid, c1, keys)
            }
        }
    }
}


/// What reading and parsing a source file gave: its text, its module and
/// its comments (each with the line it starts on), or why it could not be
/// read or parsed.
pub type FileOutcome = Result<(String, crate::ast::Module, Vec<(usize, String)>), String>;

/// The files among the first `n` that were read and parsed, in order.
pub open spec fn parsed_among(files: Seq<String>, outs: Seq<FileOutcome>, n: nat) -> Seq<SourceFile>
    decreases n,
{
    if n == 0 {
        Seq::empty()
    } else {
        let rest = parsed_among(files, outs, (n - 1) as nat);
        match outs[n - 1] {
            Ok(p) => rest.push(SourceFile { file_path: files[n - 1], module: p.1, source: p.0, comments: p.2 }),
            Err(_) => rest,
        }
    }
}

/// A parse error for each file among the first `n` that could not be read
/// or parsed, in order.
pub open spec fn failed_among(files: Seq<String>, outs: Seq<FileOutcome>, n: nat) -> Seq<crate::issues::Issue>
    decreases n,
{
    if n == 0 {
        Seq::empty()
    } else {
        let rest = failed_among(files, outs, (n - 1) as nat);
        match outs[n - 1] {
            Ok(_) => rest,
            Err(e) => rest.push(crate::issues::Issue::ParseError(
                crate::issues::ParseErrorIssue { file_path: files[n - 1], error: e },
            )),
        }
    }
}

/// The configuration, the files and the data derived from them.
pub struct CheckContext {
    pub config: Config,
    pub root_dir: String,
    /// The source files to check.
    pub files: Vec<String>,
    pub ignore_texts: StrSet,
    pub verbose: bool,
    /// Files known to exist on disk besides the parsed ones; an import may
    /// resolve to any of them.
    pub disk_files: StrSet,
    /// The derived data.
    pub cells: Cells,
}

/// The members of a list of strings.
pub open spec fn string_set(v: Seq<String>) -> Set<Seq<char>> {
    Set::new(|k: Seq<char>| exists|i: int| 0 <= i < v.len() && #[trigger] v[i]@ == k)
}

fn set_of(v: &Vec<String>) -> (r: StrSet)
    ensures
        r@ == string_set(v@),
{
    let mut r = StrSet::new();
    let mut i: usize = 0;
    while i < v.len()
        invariant
            i <= v@.len(),
            r@ == string_set(v@.take(i as int)),
        decreases v@.len() - i,
    {
        r.insert(v[i].clone());
        proof {
            let t = v@.take(i + 1);
            assert forall|k: Seq<char>| #[trigger] r@.contains(k) <==> string_set(t).contains(k) by {
                if string_set(t).contains(k) {
                    let j = choose|j: int| 0 <= j < t.len() && #[trigger] t[j]@ == k;
                    if j < i {
                        assert(v@.take(i as int)[j]@ == k);
                    }
                }
                if string_set(v@.take(i as int)).contains(k) {
                    let j = choose|j: int| 0 <= j < i && #[trigger] v@.take(i as int)[j]@ == k;
                    assert(t[j]@ == k);
                }
                if k == v@[i as int]@ {
                    assert(t[i as int]@ == k);
                }
            }
            assert(r@ =~= string_set(t));
        }
        i = i + 1;
    }
    proof { assert(v@.take(v@.len() as int) =~= v@); }
    r
}

/// `a` and `b` have the same configuration, files and settings.
pub open spec fn same_settings(a: CheckContext, b: CheckContext) -> bool {
    &&& a.config == b.config
    &&& a.root_dir == b.root_dir
    &&& a.files == b.files
    &&& a.ignore_texts == b.ignore_texts
    &&& a.verbose == b.verbose
    &&& a.disk_files == b.disk_files
}

impl CheckContext {
    /// The checked attributes, as plain strings.
    pub open spec fn attrs_view(&self) -> Seq<Seq<char>> {
        self.config.checked_attributes@.map_values(|s: String| s@)
    }

    /// A context for `files` under `root_dir`, with nothing derived yet;
    /// its ignored texts are those of the configuration; no other file is
    /// known to exist until `disk_files` is set.
    pub fn new(config: Config, root_dir: String, files: Vec<String>, verbose: bool) -> (r: Self)
        ensures
            r.config == config,
            r.root_dir == root_dir,
            r.files == files,
            r.verbose == verbose,
            r.ignore_texts@ == string_set(config.ignore_texts@),
            r.disk_files@ == Set::<Seq<char>>::empty(),
            r.cells.is_empty(),
    {
        let ignore_texts = set_of(&config.ignore_texts);
        CheckContext {
            config,
            root_dir,
            files,
            ignore_texts,
            verbose,
            disk_files: StrSet::new(),
            cells: Cells {
                parsed_files: None,
                registries: None,
                file_imports: None,
                messages: None,
                extractions: None,
                hardcoded_issues: None,
                used_keys: None,
                file_comments: None,
            },
        }
    }

    pub fn parsed_files(&self) -> (r: Option<&Vec<SourceFile>>)
        ensures
            part_ref(self.cells.parsed_files(), r),
    {
        self.cells.parsed_files.as_ref()
    }

    pub fn registries(&self) -> (r: Option<&Registries>)
        ensures
            part_ref(self.cells.registries(), r),
    {
        self.cells.registries.as_ref()
    }

    pub fn file_imports(&self) -> (r: Option<&AllFileImports>)
        ensures
            part_ref(self.cells.file_imports(), r),
    {
        self.cells.file_imports.as_ref()
    }

    pub fn messages(&self) -> (r: Option<&MessageData>)
        ensures
            part_ref(self.cells.messages(), r),
    {
        self.cells.messages.as_ref()
    }

    pub fn all_key_usages(&self) -> (r: Option<&AllKeyUsages>)
        ensures
            part_ref(self.cells.extractions(), r),
    {
        self.cells.extractions.as_ref()
    }

    pub fn hardcoded_issues(&self) -> (r: Option<&AllHardcodedIssues>)
        ensures
            part_ref(self.cells.hardcoded_issues(), r),
    {
        self.cells.hardcoded_issues.as_ref()
    }

    pub fn used_keys(&self) -> (r: Option<&StrSet>)
        ensures
            part_ref(self.cells.used_keys(), r),
    {
        self.cells.used_keys.as_ref()
    }

    pub fn file_comments(&self) -> (r: Option<&AllFileComments>)
        ensures
            part_ref(self.cells.file_comments(), r),
    {
        self.cells.file_comments.as_ref()
    }


    /// Keeps the parsed source files, given what reading and parsing each
    /// file of the context gave (one outcome per file, in order): the files
    /// that were parsed, in order; returns a parse error for each file that
    /// was not, in order. Where parsed files are kept already, nothing
    /// changes and nothing is returned.
    pub fn ensure_parsed_files(&mut self, outcomes: Vec<FileOutcome>) -> (r: Vec<crate::issues::Issue>)
        requires
            outcomes@.len() == old(self).files@.len(),
        ensures
            same_settings(*old(self), *final(self)),
            same_but(old(self).cells, final(self).cells, Part::ParsedFiles),
            old(self).cells.parsed_files() is Some ==> {
                &&& final(self).cells.parsed_files() == old(self).cells.parsed_files()
                &&& r@.len() == 0
            },
            old(self).cells.parsed_files() is None ==> {
                &&& final(self).cells.parsed_files() matches Some(v)
                    && v@ == parsed_among(old(self).files@, outcomes@, outcomes@.len())
                &&& r@ == failed_among(old(self).files@, outcomes@, outcomes@.len())
            },
    {
        if self.cells.parsed_files.is_some() {
            return Vec::new();
        }
        let ghost files = self.files@;
        let ghost outs = outcomes@;
        let mut parsed: Vec<SourceFile> = Vec::new();
        let mut errors: Vec<crate::issues::Issue> = Vec::new();
        let mut rest = outcomes;
        let nfiles = self.files.len();
        let mut i: usize = 0;
        while rest.len() > 0
            invariant
                nfiles == files.len(),
                i <= outs.len(),
                outs.len() == files.len(),
                files == self.files@,
                rest@ == outs.skip(i as int),
                parsed@ == parsed_among(files, outs, i as nat),
                errors@ == failed_among(files, outs, i as nat),
            decreases rest@.len(),
        {
            let o = rest.remove(0);
            proof {
                assert(outs.skip(i as int)[0] == outs[i as int]);
                assert(outs.skip(i + 1) =~= outs.skip(i as int).drop_first());
            }
            assert(i < nfiles);
            let path = self.files[i].clone();
            match o {
                Ok(p) => {
                    let (source, module, comments) = p;
                    parsed.push(SourceFile { file_path: path, module, source, comments });
                },
                Err(e) => {
                    errors.push(crate::issues::Issue::ParseError(
                        crate::issues::ParseErrorIssue { file_path: path, error: e },
                    ));
                },
            }
            i = i + 1;
        }
        self.set_parsed_files(parsed);
        errors
    }

    /// Stores `data` unless this part is already set (the first value stays).
    pub fn set_parsed_files(&mut self, data: Vec<SourceFile>)
        ensures
            final(self).cells.parsed_files() == first_write(old(self).cells.parsed_files(), data),
            same_but(old(self).cells, final(self).cells, Part::ParsedFiles),
            same_settings(*old(self), *final(self)),
    {
        if self.cells.parsed_files.is_none() {
            self.cells.parsed_files = Some(data);
        }
    }

    /// Stores `data` unless this part is already set (the first value stays).
    pub fn set_registries(&mut self, data: Registries)
        ensures
            final(self).cells.registries() == first_write(old(self).cells.registries(), data),
            same_but(old(self).cells, final(self).cells, Part::Registries),
            same_settings(*old(self), *final(self)),
    {
        if self.cells.registries.is_none() {
            self.cells.registries = Some(data);
        }
    }

    /// Stores `data` unless this part is already set (the first value stays).
    pub fn set_file_imports(&mut self, data: AllFileImports)
        ensures
            final(self).cells.file_imports() == first_write(old(self).cells.file_imports(), data),
            same_but(old(self).cells, final(self).cells, Part::FileImports),
            same_settings(*old(self), *final(self)),
    {
        if self.cells.file_imports.is_none() {
            self.cells.file_imports = Some(data);
        }
    }

    /// Stores `data` unless this part is already set (the first value stays).
    pub fn set_messages(&mut self, data: MessageData)
        ensures
            final(self).cells.messages() == first_write(old(self).cells.messages(), data),
            same_but(old(self).cells, final(self).cells, Part::Messages),
            same_settings(*old(self), *final(self)),
    {
        if self.cells.messages.is_none() {
            self.cells.messages = Some(data);
        }
    }

    /// Stores `data` unless this part is already set (the first value stays).
    pub fn set_all_key_usages(&mut self, data: AllKeyUsages)
        ensures
            final(self).cells.extractions() == first_write(old(self).cells.extractions(), data),
            same_but(old(self).cells, final(self).cells, Part::Extractions),
            same_settings(*old(self), *final(self)),
    {
        if self.cells.extractions.is_none() {
            self.cells.extractions = Some(data);
        }
    }

    /// Stores `data` unless this part is already set (the first value stays).
    pub(crate) fn set_hardcoded_issues(&mut self, data: AllHardcodedIssues)
        ensures
            final(self).cells.hardcoded_issues() == first_write(old(self).cells.hardcoded_issues(), data),
            same_but(old(self).cells, final(self).cells, Part::HardcodedIssues),
            same_settings(*old(self), *final(self)),
    {
        if self.cells.hardcoded_issues.is_none() {
            self.cells.hardcoded_issues = Some(data);
        }
    }

    /// Stores `data` unless this part is already set (the first value stays).
    pub fn set_used_keys(&mut self, data: StrSet)
        ensures
            final(self).cells.used_keys() == first_write(old(self).cells.used_keys(), data),
            same_but(old(self).cells, final(self).cells, Part::UsedKeys),
            same_settings(*old(self), *final(self)),
    {
        if self.cells.used_keys.is_none() {
            self.cells.used_keys = Some(data);
        }
    }

    /// Stores `data` unless this part is already set (the first value stays).
    pub fn set_file_comments(&mut self, data: AllFileComments)
        ensures
            final(self).cells.file_comments() == first_write(old(self).cells.file_comments(), data),
            same_but(old(self).cells, final(self).cells, Part::FileComments),
            same_settings(*old(self), *final(self)),
    {
        if self.cells.file_comments.is_none() {
            self.cells.file_comments = Some(data);
        }
    }

    /// Builds the registries, the imports and the comments of the parsed
    /// files, unless they are there already.
    pub fn ensure_registries(&mut self)
        ensures
            registries_ensured(old(self).cells, final(self).cells, old(self).disk_files@),
            same_settings(*old(self), *final(self)),
    {
        if self.cells.registries.is_some() && self.cells.file_imports.is_some() {
            return;
        }
        if self.cells.parsed_files.is_none() {
            return;
        }
        let ghost fs = self.cells.parsed_files()->0@;
        let (reg, imports) = build_registries(self);
        let comments = comments_map(self.cells.parsed_files.as_ref().unwrap());
        let ghost c0 = self.cells;
        let ghost ex = paths_of(fs) + self.disk_files@;
        let ghost cs = choose|cs: Seq<(String, RegistryCollector)>| #![trigger collected_from(cs, fs, ex)]
            collected_from(cs, fs, ex) && registries_of(reg, imports, cs, ex);
        self.set_registries(reg);
        self.set_file_imports(imports);
        self.set_file_comments(comments);
        proof {
            assert(registries_built(c0, self.cells, fs, ex, cs, reg, imports, comments));
        }
    }

    /// The directory of the message files: the configured one, taken
    /// relative to the root directory.
    pub fn resolved_messages_dir(&self) -> (r: String)
        ensures
            r@ == spec_resolved_messages_dir(self.root_dir@, self.config.messages_dir@),
    {
        messages_dir_under(self.root_dir.as_str(), self.config.messages_dir.as_str())
    }

    /// Analyses every parsed file, its key usages and its hardcoded text,
    /// unless both are there already. The keys of the primary locale's
    /// messages, where they are loaded, are the keys a glob may stand for.
    fn ensure_file_analysis(&mut self)
        ensures
            analysis_ensured(old(self).cells, final(self).cells, old(self).attrs_view(), old(self).ignore_texts@, old(self).disk_files@),
            same_settings(*old(self), *final(self)),
    {
        if self.cells.extractions.is_some() && self.cells.hardcoded_issues.is_some() {
            return;
        }
        self.ensure_registries();
        let ghost mid = self.cells;
        if self.cells.parsed_files.is_none() || self.cells.registries.is_none() || self.cells.file_imports.is_none() {
            return;
        }
        let (usages, hardcoded) = build_file_analysis(self);
        self.set_all_key_usages(usages);
        self.set_hardcoded_issues(hardcoded);
        proof {
            assert(analysis_built(mid, self.cells, usages, hardcoded, self.attrs_view(), self.ignore_texts@, self.disk_files@));
        }
    }

    /// Ensures the key usages of every parsed file (see `analysis_ensured`).
    pub fn ensure_extractions(&mut self)
        ensures
            analysis_ensured(old(self).cells, final(self).cells, old(self).attrs_view(), old(self).ignore_texts@, old(self).disk_files@),
            same_settings(*old(self), *final(self)),
    {
        self.ensure_file_analysis()
    }

    /// Ensures the hardcoded text of every parsed file (see `analysis_ensured`).
    pub fn ensure_hardcoded_issues(&mut self)
        ensures
            analysis_ensured(old(self).cells, final(self).cells, old(self).attrs_view(), old(self).ignore_texts@, old(self).disk_files@),
            same_settings(*old(self), *final(self)),
    {
        self.ensure_file_analysis()
    }

    /// The keys used in code: every used key of every file's key usages.
    pub fn collect_used_keys(&self) -> (r: StrSet)
        requires
            self.cells.extractions() is Some,
        ensures
            r@ == used_keys_in(self.cells.extractions()->0),
    {
        let ghost m = self.cells.extractions()->0;
        let extractions = match self.cells.extractions.as_ref() {
            Some(e) => e,
            None => { return StrSet::new(); },
        };
        let entries = extractions.entries();
        let mut keys = StrSet::new();
        let mut i: usize = 0;
        while i < entries.len()
            invariant
                i <= entries@.len(),
                forall|k: Seq<char>| #[trigger] keys@.contains(k) <==> exists|a: int, b: int| #![trigger entries@[a].1.used_keys@[b]]
                    0 <= a < i && 0 <= b < entries@[a].1.used_keys@.len() && entries@[a].1.used_keys@[b].full_key@ == k,
            decreases entries@.len() - i,
        {
            let used = &entries[i].1.used_keys;
            let mut j: usize = 0;
            while j < used.len()
                invariant
                    i < entries@.len(),
                    j <= used@.len(),
                    used@ == entries@[i as int].1.used_keys@,
                    forall|k: Seq<char>| #[trigger] keys@.contains(k) <==> (
                        (exists|a: int, b: int| #![trigger entries@[a].1.used_keys@[b]]
                            0 <= a < i && 0 <= b < entries@[a].1.used_keys@.len() && entries@[a].1.used_keys@[b].full_key@ == k)
                        || (exists|b: int| 0 <= b < j && #[trigger] used@[b].full_key@ == k)),
                decreases used@.len() - j,
            {
                keys.insert(used[j].full_key.clone());
                proof {
                    assert forall|k: Seq<char>| #[trigger] keys@.contains(k) <==> (
                        (exists|a: int, b: int| #![trigger entries@[a].1.used_keys@[b]]
                            0 <= a < i && 0 <= b < entries@[a].1.used_keys@.len() && entries@[a].1.used_keys@[b].full_key@ == k)
                        || (exists|b: int| 0 <= b < j + 1 && #[trigger] used@[b].full_key@ == k)) by {
                        if k == used@[j as int].full_key@ {
                            assert(used@[j as int].full_key@ == k);
                        }
                        if exists|b: int| 0 <= b < j + 1 && #[trigger] used@[b].full_key@ == k {
                            let b = choose|b: int| 0 <= b < j + 1 && #[trigger] used@[b].full_key@ == k;
                            if b < j {
                                assert(used@[b].full_key@ == k);
                            }
                        }
                    }
                }
                j = j + 1;
            }
            proof {
                assert forall|k: Seq<char>| #[trigger] keys@.contains(k) <==> exists|a: int, b: int| #![trigger entries@[a].1.used_keys@[b]]
                    0 <= a < i + 1 && 0 <= b < entries@[a].1.used_keys@.len() && entries@[a].1.used_keys@[b].full_key@ == k by {
                    if exists|b: int| 0 <= b < used@.len() && #[trigger] used@[b].full_key@ == k {
                        let b = choose|b: int| 0 <= b < used@.len() && #[trigger] used@[b].full_key@ == k;
                        assert(entries@[i as int].1.used_keys@[b].full_key@ == k);
                    }
                    if exists|a: int, b: int| #![trigger entries@[a].1.used_keys@[b]]
                        0 <= a < i + 1 && 0 <= b < entries@[a].1.used_keys@.len() && entries@[a].1.used_keys@[b].full_key@ == k {
                        let (a, b) = choose|a: int, b: int| #![trigger entries@[a].1.used_keys@[b]]
                            0 <= a < i + 1 && 0 <= b < entries@[a].1.used_keys@.len() && entries@[a].1.used_keys@[b].full_key@ == k;
                        if a == i {
                            assert(used@[b].full_key@ == k);
                        }
                    }
                }
            }
            i = i + 1;
        }
        proof {
            assert forall|k: Seq<char>| #[trigger] keys@.contains(k) <==> used_keys_in(m).contains(k) by {
                if keys@.contains(k) {
                    let (a, b) = choose|a: int, b: int| #![trigger entries@[a].1.used_keys@[b]]
                        0 <= a < entries@.len() && 0 <= b < entries@[a].1.used_keys@.len() && entries@[a].1.used_keys@[b].full_key@ == k;
                    lemma_entry_value(entries@, a);
                    let f = entries@[a].0@;
                    assert(m@[f].used_keys@[b].full_key@ == k);
                }
                if used_keys_in(m).contains(k) {
                    let (f, b) = choose|f: Seq<char>, j: int| #![trigger m@[f].used_keys@[j]]
                        m@.contains_key(f) && 0 <= j < m@[f].used_keys@.len() && m@[f].used_keys@[j].full_key@ == k;
                    assert(crate::strmap::has_key(entries@, f));
                    let a = choose|a: int| 0 <= a < entries@.len() && entries@[a].0@ == f;
                    lemma_entry_value(entries@, a);
                    assert(entries@[a].1.used_keys@[b].full_key@ == k);
                }
            }
            assert(keys@ =~= used_keys_in(m));
        }
        keys
    }

    /// Collects the keys used in code, unless they are there already (see
    /// `used_keys_ensured`).
    pub fn ensure_used_keys(&mut self)
        ensures
            used_keys_ensured(old(self).cells, final(self).cells, old(self).attrs_view(), old(self).ignore_texts@, old(self).disk_files@),
            same_settings(*old(self), *final(self)),
    {
        if self.cells.used_keys.is_some() {
            return;
        }
        self.ensure_extractions();
        let ghost mid = self.cells;
        if self.cells.extractions.is_none() {
            return;
        }
        let keys = self.collect_used_keys();
        self.set_used_keys(keys);
        proof {
            assert(used_keys_built(mid, self.cells, keys));
        }
    }
}

} // verus!

verus! {

/// A part written twice keeps the first value written.
pub proof fn first_write_wins<T>(cur: Option<T>, a: T, b: T)
    ensures
        first_write(first_write(cur, a), b) == first_write(cur, a),
        cur is None ==> first_write(first_write(cur, a), b) == Some(a),
{
}

/// Once the registries are ensured, ensuring them again changes nothing.
pub proof fn registries_ensured_once(c0: Cells, c1: Cells, c2: Cells, disk: Set<Seq<char>>)
    requires
        registries_ensured(c0, c1, disk),
        registries_ensured(c1, c2, disk),
    ensures
        c2 == c1,
{
    if !(c0.parsed_files() is None || (c0.registries() is Some && c0.file_imports() is Some)) {
        let (cs, reg, imports, comments) = choose|cs: Seq<(String, RegistryCollector)>, reg: Registries, imports: AllFileImports, comments: AllFileComments|
            #[trigger] registries_built(c0, c1, c0.parsed_files()->0@, paths_of(c0.parsed_files()->0@) + disk, cs, reg, imports, comments);
        assert(c1.registries() is Some && c1.file_imports() is Some);
    }
}

/// After the registries are ensured with files parsed, they and the
/// imports are there.
proof fn lemma_registries_there(c0: Cells, c1: Cells, disk: Set<Seq<char>>)
    requires
        registries_ensured(c0, c1, disk),
        c0.parsed_files() is Some,
    ensures
        c1.parsed_files() is Some,
        c1.registries() is Some,
        c1.file_imports() is Some,
{
    if !(c0.registries() is Some && c0.file_imports() is Some) {
        let (cs, reg, imports, comments) = choose|cs: Seq<(String, RegistryCollector)>, reg: Registries, imports: AllFileImports, comments: AllFileComments|
            #[trigger] registries_built(c0, c1, c0.parsed_files()->0@, paths_of(c0.parsed_files()->0@) + disk, cs, reg, imports, comments);
    }
}

/// Once the analysis is ensured, ensuring it again changes nothing.
pub proof fn analysis_ensured_once(c0: Cells, c1: Cells, c2: Cells, attrs: Seq<Seq<char>>, ignore: Set<Seq<char>>, disk: Set<Seq<char>>)
    requires
        analysis_ensured(c0, c1, attrs, ignore, disk),
        analysis_ensured(c1, c2, attrs, ignore, disk),
    ensures
        c2 == c1,
{
    if !(c1.extractions() is Some && c1.hardcoded_issues() is Some) {
        // c0 was not analysed yet, and the step from c0 did not analyse either.
        assert(!(c0.extractions() is Some && c0.hardcoded_issues() is Some));
        let mid = choose|mid: Cells| #[trigger] registries_ensured(c0, mid, disk) && {
            if mid.parsed_files() is None || mid.registries() is None || mid.file_imports() is None {
                c1 == mid
            } else {
                exists|u: AllKeyUsages, h: AllHardcodedIssues| #[trigger] analysis_built(mid, c1, u, h, attrs, ignore, disk)
            }
        };
        if c0.parsed_files() is Some {
            lemma_registries_there(c0, mid, disk);
            let (u, h) = choose|u: AllKeyUsages, h: AllHardcodedIssues| #[trigger] analysis_built(mid, c1, u, h, attrs, ignore, disk);
            assert(c1.extractions() is Some && c1.hardcoded_issues() is Some);
        } else {
            // Nothing is parsed: every step leaves the cells as they are.
            assert(mid == c0);
            assert(c1 == c0);
            let mid2 = choose|mid2: Cells| #[trigger] registries_ensured(c1, mid2, disk) && {
                if mid2.parsed_files() is None || mid2.registries() is None || mid2.file_imports() is None {
                    c2 == mid2
                } else {
                    exists|u: AllKeyUsages, h: AllHardcodedIssues| #[trigger] analysis_built(mid2, c2, u, h, attrs, ignore, disk)
                }
            };
            assert(mid2 == c1);
        }
    }
}

/// Where the analysis leaves the key usages out, nothing was parsed and
/// the cells are as they were.
proof fn lemma_no_usages(c0: Cells, c1: Cells, attrs: Seq<Seq<char>>, ignore: Set<Seq<char>>, disk: Set<Seq<char>>)
    requires
        analysis_ensured(c0, c1, attrs, ignore, disk),
        c1.extractions() is None,
    ensures
        c0.parsed_files() is None,
        c1 == c0,
{
    let mid = choose|mid: Cells| #[trigger] registries_ensured(c0, mid, disk) && {
        if mid.parsed_files() is None || mid.registries() is None || mid.file_imports() is None {
            c1 == mid
        } else {
            exists|u: AllKeyUsages, h: AllHardcodedIssues| #[trigger] analysis_built(mid, c1, u, h, attrs, ignore, disk)
        }
    };
    if c0.parsed_files() is Some {
        lemma_registries_there(c0, mid, disk);
        let (u, h) = choose|u: AllKeyUsages, h: AllHardcodedIssues| #[trigger] analysis_built(mid, c1, u, h, attrs, ignore, disk);
    }
}

/// Once the used keys are ensured, ensuring them again changes nothing.
pub proof fn used_keys_ensured_once(c0: Cells, c1: Cells, c2: Cells, attrs: Seq<Seq<char>>, ignore: Set<Seq<char>>, disk: Set<Seq<char>>)
    requires
        used_keys_ensured(c0, c1, attrs, ignore, disk),
        used_keys_ensured(c1, c2, attrs, ignore, disk),
    ensures
        c2 == c1,
{
    if c1.used_keys() is None {
        let mid = choose|mid: Cells| #[trigger] analysis_ensured(c0, mid, attrs, ignore, disk) && {
            if mid.extractions() is None {
                c1 == mid
            } else {
                exists|keys: StrSet| #[trigger] used_keys_built(mid, c1, keys)
            }
        };
        if mid.extractions() is Some {
            let keys = choose|keys: StrSet| #[trigger] used_keys_built(mid, c1, keys);
        }
        lemma_no_usages(c0, mid, attrs, ignore, disk);
        let mid2 = choose|mid2: Cells| #[trigger] analysis_ensured(c1, mid2, attrs, ignore, disk) && {
            if mid2.extractions() is None {
                c2 == mid2
            } else {
                exists|keys: StrSet| #[trigger] used_keys_built(mid2, c2, keys)
            }
        };
        assert(c0.extractions() is None);
        let m3 = choose|m3: Cells| #[trigger] registries_ensured(c1, m3, disk) && {
            if m3.parsed_files() is None || m3.registries() is None || m3.file_imports() is None {
                mid2 == m3
            } else {
                exists|u: AllKeyUsages, h: AllHardcodedIssues| #[trigger] analysis_built(m3, mid2, u, h, attrs, ignore, disk)
            }
        };
        assert(mid2 == c1);
    }
}

} // verus!
