//! Classification of paths by the extension of their final segment.
use vstd::prelude::*;
use vstd::string::StrSliceExecFns;

use crate::text::{find_last, last_index_of, lemma_last_index_of, str_eq};

verus! {

/// The final segment of a path: what follows its last `/`.
pub open spec fn file_name(path: Seq<char>) -> Seq<char> {
    path.subrange(last_index_of(path, '/') + 1, path.len() as int)
}

/// The extension of a path: what follows the last `.` of its final segment.
/// A segment without a `.`, or whose only `.` leads it (a hidden file such as
/// `.gitignore`), has none.
pub open spec fn extension_of(path: Seq<char>) -> Option<Seq<char>> {
    let name = file_name(path);
    let i = last_index_of(name, '.');
    if i <= 0 {
        None
    } else {
        Some(name.subrange(i + 1, name.len() as int))
    }
}

/// A closed set of known file extensions, with `Other` for the rest.
#[derive(Debug, PartialEq, Eq, Clone, Copy, Structural)]
pub enum Extension {
    Txt,
    Csv,
    Xlsx,
    Xlsm,
    Pptx,
    Bat,
    Java,
    Class,
    Json,
    Py,
    Rs,
    Ts,
    Js,
    Tsx,
    Jsx,
    Md,
    Other,
}

/// The kind of a path: its extension's tag, and `Other` where the extension is
/// unknown or absent.
pub open spec fn classify_spec(path: Seq<char>) -> Extension {
    match extension_of(path) {
        Some(e) => Extension::spec_from_name(e),
        None => Extension::Other,
    }
}

impl Extension {
    /// The text of each tag (`other` for `Other`).
    pub open spec fn spec_name(self) -> Seq<char> {
        match self {
            Extension::Txt => "txt"@,
            Extension::Csv => "csv"@,
            Extension::Xlsx => "xlsx"@,
            Extension::Xlsm => "xlsm"@,
            Extension::Pptx => "pptx"@,
            Extension::Bat => "bat"@,
            Extension::Java => "java"@,
            Extension::Class => "class"@,
            Extension::Json => "json"@,
            Extension::Py => "py"@,
            Extension::Rs => "rs"@,
            Extension::Ts => "ts"@,
            Extension::Js => "js"@,
            Extension::Tsx => "tsx"@,
            Extension::Jsx => "jsx"@,
            Extension::Md => "md"@,
            Extension::Other => "other"@,
        }
    }

    /// The tag of an extension's text, compared case-sensitively.
    pub open spec fn spec_from_name(s: Seq<char>) -> Extension {
        if s == "txt"@ {
            Extension::Txt
        } else if s == "csv"@ {
            Extension::Csv
        } else if s == "xlsx"@ {
            Extension::Xlsx
        } else if s == "xlsm"@ {
            Extension::Xlsm
        } else if s == "pptx"@ {
            Extension::Pptx
        } else if s == "bat"@ {
            Extension::Bat
        } else if s == "java"@ {
            Extension::Java
        } else if s == "class"@ {
            Extension::Class
        } else if s == "json"@ {
            Extension::Json
        } else if s == "py"@ {
            Extension::Py
        } else if s == "rs"@ {
            Extension::Rs
        } else if s == "ts"@ {
            Extension::Ts
        } else if s == "js"@ {
            Extension::Js
        } else if s == "tsx"@ {
            Extension::Tsx
        } else if s == "jsx"@ {
            Extension::Jsx
        } else if s == "md"@ {
            Extension::Md
        } else {
            Extension::Other
        }
    }

    /// The tag of an extension's text; unknown text gives `Other`.
    pub fn str_to_self(extension: &str) -> (r: Extension)
        ensures
            r == Extension::spec_from_name(extension@),
    {
        if str_eq(extension, "txt") {
            Extension::Txt
        } else if str_eq(extension, "csv") {
            Extension::Csv
        } else if str_eq(extension, "xlsx") {
            Extension::Xlsx
        } else if str_eq(extension, "xlsm") {
            Extension::Xlsm
        } else if str_eq(extension, "pptx") {
            Extension::Pptx
        } else if str_eq(extension, "bat") {
            Extension::Bat
        } else if str_eq(extension, "java") {
            Extension::Java
        } else if str_eq(extension, "class") {
            Extension::Class
        } else if str_eq(extension, "json") {
            Extension::Json
        } else if str_eq(extension, "py") {
            Extension::Py
        } else if str_eq(extension, "rs") {
            Extension::Rs
        } else if str_eq(extension, "ts") {
            Extension::Ts
        } else if str_eq(extension, "js") {
            Extension::Js
        } else if str_eq(extension, "tsx") {
            Extension::Tsx
        } else if str_eq(extension, "jsx") {
            Extension::Jsx
        } else if str_eq(extension, "md") {
            Extension::Md
        } else {
            Extension::Other
        }
    }

    /// The text of the tag.
    pub fn as_str(&self) -> (r: &'static str)
        ensures
            r@ == self.spec_name(),
    {
        match *self {
            Extension::Txt => "txt",
            Extension::Csv => "csv",
            Extension::Xlsx => "xlsx",
            Extension::Xlsm => "xlsm",
            Extension::Pptx => "pptx",
            Extension::Bat => "bat",
            Extension::Java => "java",
            Extension::Class => "class",
            Extension::Json => "json",
            Extension::Py => "py",
            Extension::Rs => "rs",
            Extension::Ts => "ts",
            Extension::Js => "js",
            Extension::Tsx => "tsx",
            Extension::Jsx => "jsx",
            Extension::Md => "md",
            Extension::Other => "other",
        }
    }

    /// The kind of `path`; a path without an extension is `Other`.
    pub fn classify(path: &str) -> (r: Extension)
        ensures
            r == classify_spec(path@),
    {
        match extension(path) {
            Some(e) => Extension::str_to_self(e),
            None => Extension::Other,
        }
    }

    /// The kind of `path`. Classifying never fails: a path without an
    /// extension is `Other`.
    pub fn new(path: &str) -> (r: Result<Extension, String>)
        ensures
            r is Ok,
            r->Ok_0 == classify_spec(path@),
    {
        Ok(Extension::classify(path))
    }

    /// Whether `path` is of this kind.
    pub fn is_match(&self, path: &str) -> (r: bool)
        ensures
            r == (classify_spec(path@) == *self),
    {
        Extension::classify(path) == *self
    }
}

impl From<&str> for Extension {
    fn from(extension: &str) -> (r: Extension) {
        Extension::str_to_self(extension)
    }
}

impl vstd::std_specs::convert::FromSpecImpl<&str> for Extension {
    open spec fn obeys_from_spec() -> bool {
        true
    }

    open spec fn from_spec(v: &str) -> Extension {
        Extension::spec_from_name(v@)
    }
}

/// The extension of `path`, if it has one.
fn extension(path: &str) -> (r: Option<&str>)
    ensures
        match r {
            Some(e) => extension_of(path@) == Some(e@),
            None => extension_of(path@) is None,
        },
{
    let n = path.unicode_len();
    proof {
        lemma_last_index_of(path@, '/');
    }
    let start = match find_last(path, '/') {
        Some(i) => i + 1,
        None => 0,
    };
    let name = path.substring_char(start, n);
    assert(name@ == file_name(path@));
    let m = name.unicode_len();
    proof {
        lemma_last_index_of(name@, '.');
    }
    match find_last(name, '.') {
        Some(i) => {
            if i == 0 {
                None
            } else {
                Some(name.substring_char(i + 1, m))
            }
        },
        None => None,
    }
}

} // verus!
