//! Locations and contexts of findings in source files and message files.

use vstd::prelude::*;
use crate::text::{IntoText, text};

verus! {

/// Type of a JSON value at a key path.
#[derive(Debug, Clone, Copy, PartialEq, Eq, PartialOrd, Ord, Structural)]
pub enum ValueType {
    /// A simple string value.
    String,
    /// A string array (accessed via `t.raw()` as a whole).
    StringArray,
}

impl ValueType {
    /// The name shown for this value type.
    pub open spec fn spec_name(self) -> Seq<char> {
        match self {
            ValueType::String => seq!['s', 't', 'r', 'i', 'n', 'g'],
            ValueType::StringArray => seq!['a', 'r', 'r', 'a', 'y'],
        }
    }

    /// Renders the value type as shown to users: `string` or `array`.
    pub fn to_string(&self) -> (r: String)
        ensures
            r@ == self.spec_name(),
    {
        proof {
            reveal_strlit("string");
            reveal_strlit("array");
        }
        match self {
            ValueType::String => text("string"),
            ValueType::StringArray => text("array"),
        }
    }
}

/// Comment style used when inserting comments in source code.
#[derive(Debug, Clone, Copy, PartialEq, Eq, Structural)]
pub enum CommentStyle {
    /// JavaScript comment: `// comment`
    Js,
    /// JSX comment: `{/* comment */}`
    Jsx,
}

impl CommentStyle {
    /// Returns true if this is the JSX comment style.
    pub fn is_jsx(&self) -> (r: bool)
        ensures
            r == (*self == CommentStyle::Jsx),
    {
        match self {
            CommentStyle::Jsx => true,
            CommentStyle::Js => false,
        }
    }
}

/// Position in a source code file (TSX/JSX/TS/JS).
#[derive(Debug, Clone, PartialEq, Eq, PartialOrd, Ord)]
pub struct SourceLocation {
    pub file_path: String,
    pub line: usize,
    pub col: usize,
}

impl SourceLocation {
    pub fn new<S: IntoText>(file_path: S, line: usize, col: usize) -> (r: Self)
        ensures
            r.file_path@ == file_path.text_view(),
            r.line == line,
            r.col == col,
    {
        SourceLocation { file_path: file_path.into_text(), line, col }
    }
}

/// Position with the source line and the comment style to use there.
#[derive(Debug, Clone, PartialEq, Eq)]
pub struct SourceContext {
    pub location: SourceLocation,
    /// The source code line content for display.
    pub source_line: String,
    /// Comment style to use when inserting comments at this location.
    pub comment_style: CommentStyle,
}

impl SourceContext {
    pub fn new<S: IntoText>(location: SourceLocation, source_line: S, comment_style: CommentStyle) -> (r: Self)
        ensures
            r.location == location,
            r.source_line@ == source_line.text_view(),
            r.comment_style == comment_style,
    {
        SourceContext { location, source_line: source_line.into_text(), comment_style }
    }

    pub fn file_path(&self) -> (r: &str)
        ensures
            r@ == self.location.file_path@,
    {
        self.location.file_path.as_str()
    }

    pub fn line(&self) -> (r: usize)
        ensures
            r == self.location.line,
    {
        self.location.line
    }

    pub fn col(&self) -> (r: usize)
        ensures
            r == self.location.col,
    {
        self.location.col
    }

    /// The same place and line text.
    pub open spec fn same_as(self, other: Self) -> bool {
        &&& self.location.file_path@ == other.location.file_path@
        &&& self.location.line == other.location.line
        &&& self.location.col == other.location.col
        &&& self.source_line@ == other.source_line@
        &&& self.comment_style == other.comment_style
    }

    /// A copy of the context.
    pub fn duplicate(&self) -> (r: Self)
        ensures
            r.same_as(*self),
    {
        SourceContext {
            location: SourceLocation {
                file_path: self.location.file_path.clone(),
                line: self.location.line,
                col: self.location.col,
            },
            source_line: self.source_line.clone(),
            comment_style: self.comment_style,
        }
    }
}

/// Position in a message/locale file (JSON).
#[derive(Debug, Clone, PartialEq, Eq, PartialOrd, Ord)]
pub struct MessageLocation {
    pub file_path: String,
    pub line: usize,
    pub col: usize,
}

impl MessageLocation {
    pub fn new<S: IntoText>(file_path: S, line: usize, col: usize) -> (r: Self)
        ensures
            r.file_path@ == file_path.text_view(),
            r.line == line,
            r.col == col,
    {
        MessageLocation { file_path: file_path.into_text(), line, col }
    }

    /// Creates a location with the default column (1).
    pub fn with_line<S: IntoText>(file_path: S, line: usize) -> (r: Self)
        ensures
            r.file_path@ == file_path.text_view(),
            r.line == line,
            r.col == 1,
    {
        MessageLocation { file_path: file_path.into_text(), line, col: 1 }
    }
}

/// Position in a message file with the key and value found there.
#[derive(Debug, Clone, PartialEq, Eq)]
pub struct MessageContext {
    pub location: MessageLocation,
    /// The translation key (e.g., "Common.submit").
    pub key: String,
    /// The translation value.
    pub value: String,
}

impl MessageContext {
    pub fn new<K: IntoText, V: IntoText>(location: MessageLocation, key: K, value: V) -> (r: Self)
        ensures
            r.location == location,
            r.key@ == key.text_view(),
            r.value@ == value.text_view(),
    {
        MessageContext { location, key: key.into_text(), value: value.into_text() }
    }

    pub fn file_path(&self) -> (r: &str)
        ensures
            r@ == self.location.file_path@,
    {
        self.location.file_path.as_str()
    }

    pub fn line(&self) -> (r: usize)
        ensures
            r == self.location.line,
    {
        self.location.line
    }

    pub fn col(&self) -> (r: usize)
        ensures
            r == self.location.col,
    {
        self.location.col
    }

    /// The same place, key and value.
    pub open spec fn same_as(self, other: Self) -> bool {
        &&& self.location.file_path@ == other.location.file_path@
        &&& self.location.line == other.location.line
        &&& self.location.col == other.location.col
        &&& self.key@ == other.key@
        &&& self.value@ == other.value@
    }

    /// A copy of the context.
    pub fn duplicate(&self) -> (r: Self)
        ensures
            r.same_as(*self),
    {
        MessageContext {
            location: MessageLocation {
                file_path: self.location.file_path.clone(),
                line: self.location.line,
                col: self.location.col,
            },
            key: self.key.clone(),
            value: self.value.clone(),
        }
    }
}

/// A locale whose value has another type than in the primary locale.
#[derive(Debug, Clone, PartialEq, Eq, PartialOrd, Ord)]
pub struct LocaleTypeMismatch {
    pub locale: String,
    pub actual_type: ValueType,
    pub location: MessageLocation,
}

impl LocaleTypeMismatch {
    pub fn new<S: IntoText>(locale: S, actual_type: ValueType, location: MessageLocation) -> (r: Self)
        ensures
            r.locale@ == locale.text_view(),
            r.actual_type == actual_type,
            r.location == location,
    {
        LocaleTypeMismatch { locale: locale.into_text(), actual_type, location }
    }
}

} // verus!
