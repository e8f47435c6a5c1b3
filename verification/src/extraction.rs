//! What key extraction reports for a file, and the registries it reads.

use vstd::prelude::*;
use crate::comment::PatternWarning;
use crate::key_objects::{
    KeyArrayRegistry, KeyObjectRegistry, StringArrayRegistry, TranslationFnCallRegistry,
    TranslationPropRegistry,
};
use crate::schema::{SchemaCallInfo, SchemaRegistry};
use crate::strmap::StrMap;
use crate::value_source::ResolvedKey;

verus! {

/// A translation key used in code.
#[derive(Debug, Clone)]
pub struct UsedKey {
    pub full_key: String,
    pub file_path: String,
    pub line: usize,
    pub col: usize,
    pub source_line: String,
    /// Whether a comment for this usage takes the JSX form `{/* */}`.
    pub in_jsx_context: bool,
    /// Whether a `glot-disable-next-line` comment exempts this usage from the `untranslated` rule.
    pub untranslated_disabled: bool,
}

/// Why a key is considered dynamic.
#[derive(Debug, Clone, Copy, PartialEq, Eq, Structural)]
pub enum DynamicKeyReason {
    /// The key is a variable: `t(keyName)`.
    VariableKey,
    /// The key is a template with expressions: `` t(`${prefix}.key`) ``.
    TemplateWithExpr,
}

/// A dynamic key that cannot be resolved statically.
#[derive(Debug, Clone)]
pub struct DynamicKeyWarning {
    pub file_path: String,
    pub line: usize,
    pub col: usize,
    pub reason: DynamicKeyReason,
    pub source_line: String,
    /// Suggested annotation for the user.
    pub hint: Option<String>,
    /// The pattern inferred from a template (e.g. `Common.*.submit`).
    pub pattern: Option<String>,
    /// Whether a comment for this usage takes the JSX form `{/* */}`.
    pub in_jsx_context: bool,
}

/// Result of scanning a file for translation keys.
#[derive(Debug)]
pub struct MissingKeyResult {
    pub used_keys: Vec<UsedKey>,
    pub warnings: Vec<DynamicKeyWarning>,
    pub schema_calls: Vec<SchemaCallInfo>,
    /// Keys as resolved by the value analyzer, one per translation call.
    pub resolved_keys: Vec<ResolvedKey>,
    /// Warnings from `glot-message-keys` annotations.
    pub pattern_warnings: Vec<PatternWarning>,
}

/// The same result, under the name the extraction uses.
pub type KeyExtractionResult = MissingKeyResult;

/// All registries that the analysis of one file reads.
#[derive(Debug)]
pub struct Registries {
    pub schema: SchemaRegistry,
    pub key_object: KeyObjectRegistry,
    pub key_array: KeyArrayRegistry,
    pub string_array: StringArrayRegistry,
    pub translation_prop: TranslationPropRegistry,
    pub translation_fn_call: TranslationFnCallRegistry,
    /// File path -> name of its default-exported function.
    pub default_exports: StrMap<String>,
}

} // verus!
