//! Registries of objects, arrays and translation functions collected from source files.

use vstd::prelude::*;
use crate::strmap::{StrMap, StrSet};
use crate::text::{concat3, decimal, push_text, text, usize_text};

verus! {

/// An object literal whose string values are translation key candidates.
#[derive(Debug)]
pub struct KeyObject {
    pub name: String,
    pub file_path: String,
    pub is_exported: bool,
    /// Whether defined at module level.
    pub is_module_level: bool,
    pub candidate_keys: Vec<String>,
}

/// Registry of objects, keyed by `file_path.object_name`.
pub type KeyObjectRegistry = StrMap<KeyObject>;

/// One import binding of a file.
#[derive(Debug)]
pub struct ImportInfo {
    pub local_name: String,
    pub imported_name: String,
    pub module_specifier: String,
}

/// Imports of a single file.
pub type FileImports = Vec<ImportInfo>;

/// An array of objects whose string properties are key candidates.
#[derive(Debug)]
pub struct KeyArray {
    pub name: String,
    pub file_path: String,
    pub is_exported: bool,
    pub is_module_level: bool,
    /// Property name -> all values found in the array elements.
    pub property_values: StrMap<Vec<String>>,
}

/// Registry of object arrays, keyed by `file_path.array_name`.
pub type KeyArrayRegistry = StrMap<KeyArray>;

/// An array of string literals.
#[derive(Debug)]
pub struct StringArray {
    pub name: String,
    pub file_path: String,
    pub is_exported: bool,
    pub is_module_level: bool,
    pub values: Vec<String>,
}

/// Registry of string arrays, keyed by `file_path.array_name`.
pub type StringArrayRegistry = StrMap<StringArray>;

/// A translation function passed as a JSX prop: `<Comp t={t} />`.
#[derive(Debug)]
pub struct TranslationProp {
    pub component_name: String,
    pub prop_name: String,
    /// Possible namespaces from the call sites (`None`: no namespace).
    pub namespaces: Vec<Option<String>>,
}

/// Registry of translation props, keyed by `Component.prop`.
pub type TranslationPropRegistry = StrMap<TranslationProp>;

/// A translation function passed as a plain call argument: `labels(t)`.
#[derive(Debug)]
pub struct TranslationFnCall {
    pub fn_file_path: String,
    pub fn_name: String,
    pub arg_index: usize,
    pub namespaces: Vec<Option<String>>,
}

/// Registry of translation function arguments, keyed by `file.fn.index`.
pub type TranslationFnCallRegistry = StrMap<TranslationFnCall>;

/// `a.b`
pub open spec fn dotted(a: Seq<char>, b: Seq<char>) -> Seq<char> {
    a + "."@ + b
}

/// Key of the prop registry: `Component.prop`.
pub fn make_translation_prop_key(component_name: &str, prop_name: &str) -> (r: String)
    ensures
        r@ == dotted(component_name@, prop_name@),
{
    concat3(component_name, ".", prop_name)
}

/// Key of the function argument registry: `file.fn.index`.
pub fn make_translation_fn_call_key(fn_file_path: &str, fn_name: &str, arg_index: usize) -> (r: String)
    ensures
        r@ == dotted(dotted(fn_file_path@, fn_name@), decimal(arg_index as nat)),
{
    let mut r = concat3(fn_file_path, ".", fn_name);
    push_text(&mut r, ".");
    let n = usize_text(arg_index);
    push_text(&mut r, n.as_str());
    r
}

/// Key of the object and array registries: `file.name`.
pub fn make_registry_key(file_path: &str, name: &str) -> (r: String)
    ensures
        r@ == dotted(file_path@, name@),
{
    concat3(file_path, ".", name)
}

/// The directory part of a path (`Path::parent`).
pub uninterp spec fn spec_path_parent(p: Seq<char>) -> Option<Seq<char>>;

/// `Path::join`.
pub uninterp spec fn spec_path_join(base: Seq<char>, rel: Seq<char>) -> Seq<char>;

/// `Path::strip_prefix`: what is left of `p` after the components of
/// `base`, if `p` starts with them.
pub uninterp spec fn spec_path_strip_prefix(p: Seq<char>, base: Seq<char>) -> Option<Seq<char>>;

/// `Path::with_extension`.
pub uninterp spec fn spec_path_with_extension(p: Seq<char>, ext: Seq<char>) -> Seq<char>;

pub open spec fn opt_view(o: Option<String>) -> Option<Seq<char>> {
    match o {
        Some(s) => Some(s@),
        None => None,
    }
}

/// The parent directory of `p` (std's `Path::parent`).
#[verifier::external_body]
fn path_parent(p: &str) -> (r: Option<String>)
    ensures
        opt_view(r) == spec_path_parent(p@),
{
    std::path::Path::new(p).parent().map(|d| d.to_string_lossy().to_string())
}

/// `base` joined with `rel` (std's `Path::join`).
#[verifier::external_body]
pub(crate) fn path_join(base: &str, rel: &str) -> (r: String)
    ensures
        r@ == spec_path_join(base@, rel@),
{
    std::path::Path::new(base).join(rel).to_string_lossy().to_string()
}

/// `p` without the leading components of `base` (std's `Path::strip_prefix`),
/// or `None` where `p` does not start with them.
#[verifier::external_body]
pub(crate) fn path_strip_prefix(p: &str, base: &str) -> (r: Option<String>)
    ensures
        opt_view(r) == spec_path_strip_prefix(p@, base@),
{
    std::path::Path::new(p).strip_prefix(base).ok().map(|d| d.to_string_lossy().to_string())
}

/// `p` with its extension set to `ext` (std's `Path::with_extension`, which
/// panics on an extension holding a path separator, ruled out here).
#[verifier::external_body]
fn path_with_extension(p: &str, ext: &str) -> (r: String)
    requires
        !ext@.contains('/'),
        !ext@.contains('\\'),
    ensures
        r@ == spec_path_with_extension(p@, ext@),
{
    std::path::Path::new(p).with_extension(ext).to_string_lossy().to_string()
}

/// Extensions tried when resolving an import.
pub open spec fn import_exts() -> Seq<Seq<char>> {
    seq!["ts"@, "tsx"@, "js"@, "jsx"@]
}

/// The files an import may refer to, in the order they are tried:
/// `base.ts`, `base.tsx`, `base.js`, `base.jsx`, then `base/index.ts` and so on.
pub open spec fn spec_import_candidates(base: Seq<char>) -> Seq<Seq<char>> {
    import_exts().map_values(|e: Seq<char>| spec_path_with_extension(base, e))
        + import_exts().map_values(|e: Seq<char>| spec_path_join(base, "index."@ + e))
}

/// The joined base path of a relative import, if the import is relative and the file has a parent.
pub open spec fn spec_import_base(current_file: Seq<char>, import_path: Seq<char>) -> Option<Seq<char>> {
    if import_path.len() > 0 && import_path[0] == '.' {
        match spec_path_parent(current_file) {
            Some(dir) => Some(spec_path_join(dir, import_path)),
            None => None,
        }
    } else {
        None
    }
}

/// First candidate that exists, else the speculative `.ts` path.
pub open spec fn first_existing(cands: Seq<Seq<char>>, existing: Set<Seq<char>>, fallback: Seq<char>) -> Seq<char>
    decreases cands.len(),
{
    if cands.len() == 0 {
        fallback
    } else if existing.contains(cands[0]) {
        cands[0]
    } else {
        first_existing(cands.drop_first(), existing, fallback)
    }
}

pub open spec fn spec_resolve_import_path(current_file: Seq<char>, import_path: Seq<char>, existing: Set<Seq<char>>) -> Option<Seq<char>> {
    match spec_import_base(current_file, import_path) {
        Some(base) => Some(first_existing(spec_import_candidates(base), existing, spec_path_with_extension(base, "ts"@))),
        None => None,
    }
}

fn import_base(current_file: &str, import_path: &str) -> (r: Option<String>)
    ensures
        opt_view(r) == spec_import_base(current_file@, import_path@),
{
    let first = crate::text::chars_of(import_path);
    if first.len() == 0 || first[0] != '.' {
        return None;
    }
    match path_parent(current_file) {
        Some(dir) => Some(path_join(dir.as_str(), import_path)),
        None => None,
    }
}

/// The candidate files of a relative import (none for a package import).
pub fn import_candidates(current_file: &str, import_path: &str) -> (r: Option<Vec<String>>)
    ensures
        match r {
            Some(v) => spec_import_base(current_file@, import_path@) is Some
                && v@.map_values(|s: String| s@) == spec_import_candidates(spec_import_base(current_file@, import_path@)->0),
            None => spec_import_base(current_file@, import_path@) is None,
        },
{
    match import_base(current_file, import_path) {
        None => None,
        Some(base) => {
            proof {
                reveal_strlit("ts"); reveal_strlit("tsx"); reveal_strlit("js"); reveal_strlit("jsx");
                reveal_strlit("index.ts"); reveal_strlit("index.tsx"); reveal_strlit("index.js"); reveal_strlit("index.jsx");
                reveal_strlit("index.");
            }
            let mut v: Vec<String> = Vec::new();
            v.push(path_with_extension(base.as_str(), "ts"));
            v.push(path_with_extension(base.as_str(), "tsx"));
            v.push(path_with_extension(base.as_str(), "js"));
            v.push(path_with_extension(base.as_str(), "jsx"));
            v.push(path_join(base.as_str(), "index.ts"));
            v.push(path_join(base.as_str(), "index.tsx"));
            v.push(path_join(base.as_str(), "index.js"));
            v.push(path_join(base.as_str(), "index.jsx"));
            proof {
                assert("index."@ + "ts"@ =~= "index.ts"@);
                assert("index."@ + "tsx"@ =~= "index.tsx"@);
                assert("index."@ + "js"@ =~= "index.js"@);
                assert("index."@ + "jsx"@ =~= "index.jsx"@);
                assert(v@.map_values(|s: String| s@) =~= spec_import_candidates(base@));
            }
            Some(v)
        },
    }
}

/// Resolves a relative import to the file it refers to.
///
/// Tries `.ts`, `.tsx`, `.js`, `.jsx` and then `index.*` inside the
/// directory; the first that is in `existing_files` wins. Without a match the
/// speculative `.ts` path is returned, so that a file scanned later still
/// matches the registry key. Package (non-relative) imports give `None`.
pub fn resolve_import_path(current_file: &str, import_path: &str, existing_files: &StrSet) -> (r: Option<String>)
    ensures
        opt_view(r) == spec_resolve_import_path(current_file@, import_path@, existing_files@),
{
    match import_base(current_file, import_path) {
        None => None,
        Some(base) => {
            let cands = import_candidates(current_file, import_path).unwrap();
            let ghost cv = cands@.map_values(|s: String| s@);
            proof { reveal_strlit("ts"); }
            let fallback = path_with_extension(base.as_str(), "ts");
            proof { reveal_strlit("ts"); assert(cv.skip(0) =~= cv); }
            let mut i: usize = 0;
            while i < cands.len()
                invariant
                    cv == cands@.map_values(|s: String| s@),
                    cv == spec_import_candidates(base@),
                    spec_import_base(current_file@, import_path@) == Some(base@),
                    fallback@ == spec_path_with_extension(base@, "ts"@),
                    i <= cands@.len(),
                    first_existing(cv, existing_files@, fallback@) == first_existing(cv.skip(i as int), existing_files@, fallback@),
                decreases cands@.len() - i,
            {
                proof { assert(cv.skip(i as int).drop_first() =~= cv.skip(i + 1)); }
                if existing_files.contains(cands[i].as_str()) {
                    assert(cv.skip(i as int)[0] == cv[i as int]);
                    return Some(cands[i].clone());
                }
                i = i + 1;
            }
            proof { assert(cv.skip(i as int).len() == 0); }
            Some(fallback)
        },
    }
}

} // verus!
