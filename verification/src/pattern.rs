//! Compiled text patterns: what is taken on trust of the `regex` crate.
//!
//! The filter is a regular expression compiled from the escaped filter text,
//! so that it finds that text literally. Nothing in this module is proved:
//! each item says what the `regex` crate documents of one of its functions.

use crate::text::contains_text;
use vstd::prelude::*;

verus! {

/// A compiled regular expression, `regex::Regex`.
#[verifier::external_type_specification]
#[verifier::external_body]
pub struct ExRegex(regex::Regex);

/// The error of a pattern that could not be compiled, `regex::Error`.
#[verifier::external_type_specification]
#[verifier::external_body]
pub struct ExRegexError(regex::Error);

/// The pattern text that a regular expression was compiled from: what
/// `Regex::as_str` returns.
pub uninterp spec fn regex_source(compiled: regex::Regex) -> Seq<char>;

/// Whether `Regex::new` compiles the pattern text `pattern`, rather than
/// refusing it as not valid or as too large once compiled.
pub uninterp spec fn regex_compiles(pattern: Seq<char>) -> bool;

/// Whether the regular expression that `Regex::new` compiles from `pattern`
/// finds a match somewhere in `haystack`.
pub uninterp spec fn regex_matches(pattern: Seq<char>, haystack: Seq<char>) -> bool;

/// Whether the regular expression `compiled` finds a match somewhere in
/// `haystack`: what `Regex::is_match` returns. It depends on the compiled
/// value, which holds more than the pattern text: the options it was built
/// with.
pub uninterp spec fn regex_finds(compiled: regex::Regex, haystack: Seq<char>) -> bool;

/// The characters that mean something in a pattern, and are escaped to stand
/// for themselves.
pub open spec fn is_meta_character(c: char) -> bool {
    ||| c == '\\'
    ||| c == '.'
    ||| c == '+'
    ||| c == '*'
    ||| c == '?'
    ||| c == '('
    ||| c == ')'
    ||| c == '|'
    ||| c == '['
    ||| c == ']'
    ||| c == '{'
    ||| c == '}'
    ||| c == '^'
    ||| c == '$'
    ||| c == '#'
    ||| c == '&'
    ||| c == '-'
    ||| c == '~'
}

/// `text` with a backslash before each of its meta characters.
pub open spec fn escaped(text: Seq<char>) -> Seq<char>
    decreases text.len(),
{
    if text.len() == 0 {
        Seq::empty()
    } else if is_meta_character(text.last()) {
        escaped(text.drop_last()).push('\\').push(text.last())
    } else {
        escaped(text.drop_last()).push(text.last())
    }
}

/// `regex::escape` puts a backslash before each meta character of `pattern`.
/// What it returns can be used as a literal in a regular expression: what
/// `Regex::new` compiles from it matches exactly the texts in which
/// `pattern` occurs.
pub assume_specification[ regex::escape ](pattern: &str) -> (quoted: String)
    ensures
        quoted@ == escaped(pattern@),
        forall|haystack: Seq<char>| #[trigger]
            regex_matches(quoted@, haystack) == contains_text(haystack, pattern@),
;

/// `Regex::new` compiles `re` with the default options, or fails: on a
/// pattern that is not valid, or on one whose compiled form would be too
/// large. Whether it succeeds depends on the pattern text alone. A regular
/// expression that it returns has `re` as its source, and matches as the
/// pattern text says.
pub assume_specification[ regex::Regex::new ](re: &str) -> (built: Result<
    regex::Regex,
    regex::Error,
>)
    ensures
        (built is Ok) == regex_compiles(re@),
        built matches Ok(compiled) ==> regex_source(compiled) == re@,
        built matches Ok(compiled) ==> forall|haystack: Seq<char>| #[trigger]
            regex_finds(compiled, haystack) == regex_matches(re@, haystack),
;

/// `Regex::is_match` says whether the regular expression finds a match
/// anywhere in `haystack`.
pub assume_specification[ regex::Regex::is_match ](
    compiled: &regex::Regex,
    haystack: &str,
) -> (found: bool)
    ensures
        found == regex_finds(*compiled, haystack@),
;

} // verus!
