//! The text filter: what the user typed, whether they are still typing, and
//! the pattern that was compiled from the text.

use crate::connection::passes;
use crate::pattern::{escaped, regex_compiles, regex_finds, regex_source};
use crate::text::contains_text;
use regex::Regex;
use vstd::prelude::*;

verus! {

/// Whether keystrokes navigate the view or are appended to the filter text.
#[derive(Clone, Copy, Debug, PartialEq, Eq, Structural)]
pub enum FilterMode {
    Normal,
    Typing,
}

/// Whether `compiled` is the pattern of the literal text `text`: it was
/// compiled from the escaped text, and finds a match in exactly the texts in
/// which `text` occurs.
pub open spec fn finds_literally(compiled: Regex, text: Seq<char>) -> bool {
    &&& regex_source(compiled) == escaped(text)
    &&& forall|haystack: Seq<char>| #[trigger]
        regex_finds(compiled, haystack) == contains_text(haystack, text)
}

/// Whether `after` is the pattern once the filter text `input` has been
/// compiled, where `before` was the pattern until then. An empty text leaves
/// no pattern. Any other text leaves the pattern of that literal text; only
/// where the escaped text cannot be compiled, the pattern that was there
/// before stays.
pub open spec fn recompiled(before: Option<Regex>, input: Seq<char>, after: Option<Regex>) -> bool {
    if input.len() == 0 {
        after is None
    } else if regex_compiles(escaped(input)) {
        after matches Some(compiled) && finds_literally(compiled, input)
    } else {
        after == before
    }
}

/// The filter: its text, whether it is being typed, and the compiled pattern.
/// No pattern means that every record passes.
pub struct FilterField {
    pub input: String,
    pub mode: FilterMode,
    pub regex: Option<Regex>,
}

impl FilterField {
    /// An empty filter, outside typing mode.
    pub fn new() -> (filter: FilterField)
        ensures
            filter.input@ == Seq::<char>::empty(),
            filter.mode == FilterMode::Normal,
            filter.regex is None,
    {
        FilterField { input: String::new(), mode: FilterMode::Normal, regex: None }
    }

    /// Takes what compiling the filter text gave: a pattern becomes the
    /// filter's pattern, and a failure leaves the pattern that was there.
    pub fn install(&mut self, built: Result<Regex, regex::Error>)
        ensures
            final(self).input == old(self).input,
            final(self).mode == old(self).mode,
            built matches Ok(compiled) ==> final(self).regex == Some(compiled),
            built is Err ==> final(self).regex == old(self).regex,
    {
        match built {
            Ok(compiled) => {
                self.regex = Some(compiled);
            },
            Err(_) => {},
        }
    }

    /// Compiles the pattern anew from the filter text. An empty text leaves no
    /// pattern; any other text is escaped and compiled, so that the pattern
    /// finds the text as it stands.
    pub fn recompile(&mut self)
        ensures
            final(self).input == old(self).input,
            final(self).mode == old(self).mode,
            recompiled(old(self).regex, old(self).input@, final(self).regex),
            old(self).input@.len() == 0 ==> final(self).regex is None,
            old(self).input@.len() > 0 && regex_compiles(escaped(old(self).input@)) ==> (final(self).regex matches Some(compiled) && finds_literally(compiled, old(self).input@)),
            old(self).input@.len() > 0 && !regex_compiles(escaped(old(self).input@)) ==> final(self).regex
                == old(self).regex,
    {
        if self.input.as_str().is_empty() {
            self.regex = None;
            return ;
        }
        let quoted = regex::escape(self.input.as_str());
        let built = Regex::new(quoted.as_str());
        self.install(built);
    }
}

/// Without a pattern every record passes.
pub proof fn lemma_no_pattern_passes_all(cells: Seq<Seq<char>>)
    ensures
        passes(cells, None),
{
}

/// Under the pattern of a literal text, a record passes if and only if the
/// text occurs in at least one of its cells, whichever cell that is.
pub proof fn lemma_literal_pattern_looks_in_every_cell(
    cells: Seq<Seq<char>>,
    compiled: Regex,
    text: Seq<char>,
)
    requires
        finds_literally(compiled, text),
    ensures
        passes(cells, Some(compiled)) <==> exists|i: int|
            0 <= i < cells.len() && contains_text(#[trigger] cells[i], text),
{
    let found = Some(compiled);
    assert(found->0 == compiled);
    if passes(cells, found) {
        let i = choose|i: int|
            0 <= i < cells.len() && #[trigger] regex_finds(compiled, cells[i]);
        assert(contains_text(cells[i], text));
    }
    if exists|i: int| 0 <= i < cells.len() && contains_text(#[trigger] cells[i], text) {
        let i = choose|i: int| 0 <= i < cells.len() && contains_text(#[trigger] cells[i], text);
        assert(regex_finds(found->0, cells[i]));
    }
}

} // verus!
