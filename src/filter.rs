//! Case-insensitive file-name filters over regular expressions.

use vstd::prelude::*;
use crate::paths::last_index_of;
use crate::text::{ascii_lower, chars_of, lower_ascii, string_from_chars};

verus! {

/// `pattern` is a regular expression that the `regex` crate accepts.
pub uninterp spec fn regex_valid(pattern: Seq<char>) -> bool;

/// The regular expression `pattern` matches somewhere in `text`.
pub uninterp spec fn regex_is_match(pattern: Seq<char>, text: Seq<char>) -> bool;

/// The Unicode lower-case form of a string.
pub uninterp spec fn lower_of(s: Seq<char>) -> Seq<char>;

/// Relies on `regex::Regex::new`, which fails exactly on patterns it cannot
/// compile, and on `Regex::is_match`, which tells whether the compiled
/// expression matches anywhere in `text`.
#[verifier::external_body]
fn regex_match(pattern: &str, text: &str) -> (r: Option<bool>)
    ensures
        r is Some <==> regex_valid(pattern@),
        r matches Some(b) ==> b == regex_is_match(pattern@, text@),
{
    match regex::Regex::new(pattern) {
        Ok(re) => Some(re.is_match(text)),
        Err(_) => None,
    }
}

/// Relies on `str::to_lowercase`: the result depends on the characters alone.
#[verifier::external_body]
fn to_lowercase(s: &str) -> (r: String)
    ensures
        r@ == lower_of(s@),
{
    s.to_lowercase()
}

/// The base name of a path: what follows its last `/`.
pub open spec fn base_name(path: Seq<char>) -> Seq<char> {
    path.skip(last_index_of(path, '/') + 1)
}

/// The pattern of the images-only filter.
pub open spec fn images_pattern() -> Seq<char> {
    IMAGES_PATTERN@
}

/// File extensions of common image formats.
pub const IMAGES_PATTERN: &'static str = "\\.gif$|\\.jpg$|\\.jpeg$|\\.png$|\\.tif$|\\.tiff$|\\.webp$|\\.psd$|\\.raw$|\\.bmp$|\\.heif$|\\.indd$|\\.svg$|\\.ai$|\\.eps$";

/// Why a filter could not be built.
#[derive(Debug, Clone, Copy, PartialEq, Eq, Structural)]
pub enum FilterError {
    /// The pattern is not a valid regular expression.
    InvalidPattern,
}

/// A compiled-pattern filter on base file names, matched case-insensitively:
/// the pattern is kept lower-case and names are ASCII-lower-cased before
/// matching.
pub struct NameFilter {
    pattern: String,
}

impl NameFilter {
    #[verifier::type_invariant]
    spec fn inv(&self) -> bool {
        regex_valid(self.pattern@)
    }

    /// The (lower-case) regular expression this filter applies.
    pub closed spec fn pattern(&self) -> Seq<char> {
        self.pattern@
    }

    /// Whether this filter accepts a file with base name `name`.
    pub open spec fn accepts_name(&self, name: Seq<char>) -> bool {
        regex_is_match(self.pattern(), ascii_lower(name))
    }

    /// Builds a filter from a user pattern, lower-cased first.
    pub fn new(pattern: &str) -> (r: Result<NameFilter, FilterError>)
        ensures
            r is Ok <==> regex_valid(lower_of(pattern@)),
            r matches Ok(f) ==> f.pattern() == lower_of(pattern@),
    {
        let lowered = to_lowercase(pattern);
        match regex_match(lowered.as_str(), "") {
            Some(_) => Ok(NameFilter { pattern: lowered }),
            None => Err(FilterError::InvalidPattern),
        }
    }

    /// Builds the filter that keeps common image formats only.
    pub fn images_only() -> (r: Result<NameFilter, FilterError>)
        ensures
            r is Ok <==> regex_valid(images_pattern()),
            r matches Ok(f) ==> f.pattern() == images_pattern(),
    {
        let p = IMAGES_PATTERN.to_owned();
        match regex_match(p.as_str(), "") {
            Some(_) => Ok(NameFilter { pattern: p }),
            None => Err(FilterError::InvalidPattern),
        }
    }

    /// Whether the file with base name `name` passes the filter.
    pub fn accepts(&self, name: &str) -> (r: bool)
        ensures
            r == self.accepts_name(name@),
    {
        proof {
            use_type_invariant(self);
        }
        let lowered = string_from_chars(&lower_ascii(&chars_of(name)));
        match regex_match(self.pattern.as_str(), lowered.as_str()) {
            Some(b) => b,
            None => false,
        }
    }
}

/// Matching ignores ASCII case: two names equal up to case are accepted or
/// refused together.
pub proof fn lemma_filter_ignores_case(f: &NameFilter, a: Seq<char>, b: Seq<char>)
    requires
        ascii_lower(a) == ascii_lower(b),
    ensures
        f.accepts_name(a) == f.accepts_name(b),
{
}

} // verus!
