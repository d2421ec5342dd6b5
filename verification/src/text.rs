//! Text-level rules of the catalog: summaries, extensions and the
//! supported file-type set.

use vstd::prelude::*;

verus! {

/// Number of characters a summary keeps before it is truncated.
pub const SUMMARY_LIMIT: usize = 200;

/// The summary of extracted content: the content itself when it is short
/// enough, else its first `SUMMARY_LIMIT` characters with an ellipsis.
pub open spec fn spec_summary(content: Seq<char>) -> Seq<char> {
    if content.len() <= SUMMARY_LIMIT {
        content
    } else {
        content.subrange(0, SUMMARY_LIMIT as int) + seq!['.', '.', '.']
    }
}

/// A summary never exceeds `SUMMARY_LIMIT + 3` characters, and is the
/// content verbatim whenever the content is at most `SUMMARY_LIMIT`
/// characters long.
pub proof fn lemma_summary_bounded(content: Seq<char>)
    ensures
        spec_summary(content).len() <= SUMMARY_LIMIT + 3,
        content.len() <= SUMMARY_LIMIT ==> spec_summary(content) == content,
{
}

/// Builds the display summary of one file's extracted content.
pub fn make_summary(content: &str) -> (r: String)
    ensures
        r@ == spec_summary(content@),
        r@.len() <= SUMMARY_LIMIT + 3,
{
    let n = content.unicode_len();
    if n <= SUMMARY_LIMIT {
        String::from_str(content)
    } else {
        proof {
            reveal_strlit("...");
        }
        let head = content.substring_char(0, SUMMARY_LIMIT);
        assert(("..."@) =~= seq!['.', '.', '.']);
        String::from_str(head).concat("...")
    }
}

/// Lowercases one character, for ASCII letters only; extensions are
/// matched case-insensitively over the ASCII range.
pub open spec fn spec_lower_char(c: char) -> char {
    if 'A' <= c && c <= 'Z' {
        (((c as u8) + 32) as char)
    } else {
        c
    }
}

/// The character-wise ASCII lowercasing of a string.
pub open spec fn spec_lower(s: Seq<char>) -> Seq<char> {
    s.map_values(|c: char| spec_lower_char(c))
}

fn lower_char(c: char) -> (r: char)
    ensures
        r == spec_lower_char(c),
{
    if 'A' <= c && c <= 'Z' {
        ((c as u8) + 32) as char
    } else {
        c
    }
}

/// Relies on std's `String::push`: appends exactly the one character.
#[verifier::external_body]
fn string_push_char(s: &mut String, c: char)
    ensures
        final(s)@ == old(s)@.push(c),
{
    s.push(c);
}

/// ASCII-lowercases a string character by character; characters outside
/// `'A'..='Z'` pass through unchanged.
pub fn to_ascii_lowercase(s: &str) -> (r: String)
    ensures
        r@ == spec_lower(s@),
{
    let n = s.unicode_len();
    let mut r = String::new();
    let mut i: usize = 0;
    while i < n
        invariant
            i <= n,
            n == s@.len(),
            r@ =~= spec_lower(s@.subrange(0, i as int)),
        decreases n - i,
    {
        let c = s.get_char(i);
        string_push_char(&mut r, lower_char(c));
        proof {
            assert(s@.subrange(0, i + 1) =~= s@.subrange(0, i as int).push(s@[i as int]));
            assert(spec_lower(s@.subrange(0, i + 1)) =~= spec_lower(
                s@.subrange(0, i as int),
            ).push(spec_lower_char(s@[i as int])));
        }
        i = i + 1;
    }
    proof {
        assert(s@.subrange(0, n as int) =~= s@);
    }
    r
}

/// Position of the last occurrence of `c` in `s`, if any.
fn last_index_of_char(s: &str, c: char) -> (r: Option<usize>)
    ensures
        match r {
            Some(i) => i < s@.len() && s@.index_of_last(c) == Some(i as int),
            None => s@.index_of_last(c) is None,
        },
{
    let n = s.unicode_len();
    let mut found: Option<usize> = None;
    let mut i: usize = 0;
    while i < n
        invariant
            i <= n,
            n == s@.len(),
            match found {
                Some(k) => {
                    &&& k < i
                    &&& s@[k as int] == c
                    &&& forall|j: int| k < j < i ==> s@[j] != c
                },
                None => forall|j: int| 0 <= j < i ==> s@[j] != c,
            },
        decreases n - i,
    {
        if s.get_char(i) == c {
            found = Some(i);
        }
        i = i + 1;
    }
    proof {
        s@.index_of_last_ensures(c);
        match found {
            Some(k) => {
                assert(s@.contains(c));
            },
            None => {
                assert(forall|j: int| 0 <= j < s@.len() ==> s@[j] != c);
                assert(!s@.contains(c));
            },
        }
    }
    found
}

/// The final path segment: what follows the last `'/'`, or the whole
/// path when it has none.
pub open spec fn spec_file_name(path: Seq<char>) -> Seq<char> {
    match path.index_of_last('/') {
        Some(i) => path.subrange(i + 1, path.len() as int),
        None => path,
    }
}

/// The extension of a path: the characters after the last `'.'` of the
/// final path segment; empty when the segment has no `'.'`, or when its
/// only `'.'` leads it (a hidden file has no extension).
pub open spec fn spec_extension(path: Seq<char>) -> Seq<char> {
    let name = spec_file_name(path);
    match name.index_of_last('.') {
        Some(i) => {
            if i == 0 {
                Seq::<char>::empty()
            } else {
                name.subrange(i + 1, name.len() as int)
            }
        },
        None => Seq::<char>::empty(),
    }
}

/// Extracts the extension a path's file type is read from.
pub fn extension_of(path: &str) -> (r: String)
    ensures
        r@ == spec_extension(path@),
{
    let n = path.unicode_len();
    let name: &str = match last_index_of_char(path, '/') {
        Some(i) => path.substring_char(i + 1, n),
        None => path,
    };
    assert(name@ == spec_file_name(path@));
    let name_len = name.unicode_len();
    match last_index_of_char(name, '.') {
        Some(i) => {
            if i == 0 {
                String::new()
            } else {
                String::from_str(name.substring_char(i + 1, name_len))
            }
        },
        None => String::new(),
    }
}

/// The set of extensions the pipeline indexes, compared after ASCII
/// lowercasing.
pub open spec fn spec_is_supported(ext: Seq<char>) -> bool {
    ||| ext == "txt"@
    ||| ext == "md"@
    ||| ext == "pdf"@
    ||| ext == "docx"@
    ||| ext == "html"@
    ||| ext == "htm"@
    ||| ext == "css"@
    ||| ext == "js"@
    ||| ext == "ts"@
    ||| ext == "tsx"@
    ||| ext == "jsx"@
    ||| ext == "json"@
    ||| ext == "yaml"@
    ||| ext == "yml"@
    ||| ext == "toml"@
    ||| ext == "rs"@
    ||| ext == "py"@
    ||| ext == "c"@
    ||| ext == "cpp"@
    ||| ext == "h"@
    ||| ext == "java"@
    ||| ext == "go"@
    ||| ext == "rb"@
    ||| ext == "php"@
    ||| ext == "sql"@
}

/// Whether a file with this extension is indexed at all; unsupported
/// extensions are skipped, which is not an error.
pub fn is_supported_file_type(extension: &str) -> (r: bool)
    ensures
        r == spec_is_supported(spec_lower(extension@)),
{
    let lower = to_ascii_lowercase(extension);
    lower == String::from_str("txt") || lower == String::from_str("md") || lower
        == String::from_str("pdf") || lower == String::from_str("docx") || lower
        == String::from_str("html") || lower == String::from_str("htm") || lower
        == String::from_str("css") || lower == String::from_str("js") || lower
        == String::from_str("ts") || lower == String::from_str("tsx") || lower
        == String::from_str("jsx") || lower == String::from_str("json") || lower
        == String::from_str("yaml") || lower == String::from_str("yml") || lower
        == String::from_str("toml") || lower == String::from_str("rs") || lower
        == String::from_str("py") || lower == String::from_str("c") || lower
        == String::from_str("cpp") || lower == String::from_str("h") || lower
        == String::from_str("java") || lower == String::from_str("go") || lower
        == String::from_str("rb") || lower == String::from_str("php") || lower
        == String::from_str("sql")
}

/// How a supported file's content is extracted.
pub enum ExtractorKind {
    /// Read the file as text directly.
    PlainText,
    /// Decode through the PDF extractor.
    Pdf,
    /// Decode through the DOCX extractor.
    Docx,
}

/// The extractor a supported extension dispatches to.
pub open spec fn spec_extractor_for(ext: Seq<char>) -> Option<ExtractorKind> {
    if !spec_is_supported(ext) {
        None
    } else if ext == "pdf"@ {
        Some(ExtractorKind::Pdf)
    } else if ext == "docx"@ {
        Some(ExtractorKind::Docx)
    } else {
        Some(ExtractorKind::PlainText)
    }
}

/// Chooses the extractor for an extension: `None` exactly when the
/// extension is unsupported.
pub fn extractor_for(extension: &str) -> (r: Option<ExtractorKind>)
    ensures
        r == spec_extractor_for(spec_lower(extension@)),
{
    if !is_supported_file_type(extension) {
        None
    } else {
        let lower = to_ascii_lowercase(extension);
        if lower == String::from_str("pdf") {
            Some(ExtractorKind::Pdf)
        } else if lower == String::from_str("docx") {
            Some(ExtractorKind::Docx)
        } else {
            Some(ExtractorKind::PlainText)
        }
    }
}

} // verus!
