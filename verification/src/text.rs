//! Text ranges, text edits and the strings that completions are made of.

use vstd::prelude::*;

verus! {

/// A range of byte offsets in a file.
#[derive(Copy, Clone, Debug, PartialEq, Eq, Structural)]
pub struct TextRange {
    pub start: u32,
    pub end: u32,
}

impl TextRange {
    /// The range is not turned around.
    pub open spec fn wf(self) -> bool {
        self.start <= self.end
    }

    /// The range from `start` up to, and without, `end`.
    pub fn new(start: u32, end: u32) -> (range: TextRange)
        requires
            start <= end,
        ensures
            range == (TextRange { start, end }),
            range.wf(),
    {
        TextRange { start, end }
    }
}

/// What a [`TextEdit`] does, over mathematical text.
#[verifier::ext_equal]
pub struct TextEditView {
    pub delete: TextRange,
    pub insert: Seq<char>,
}

/// An edit that puts one text in the place of one range.
#[derive(Debug, PartialEq, Eq)]
pub struct TextEdit {
    pub delete: TextRange,
    pub insert: String,
}

impl View for TextEdit {
    type V = TextEditView;

    open spec fn view(&self) -> TextEditView {
        TextEditView { delete: self.delete, insert: self.insert@ }
    }
}

impl TextEdit {
    /// The edit that replaces `range` by `text`.
    pub fn replace(range: TextRange, text: String) -> (edit: TextEdit)
        ensures
            edit@ == (TextEditView { delete: range, insert: text@ }),
            edit.delete == range,
            edit.insert@ == text@,
    {
        TextEdit { delete: range, insert: text }
    }
}

/// The characters with Unicode's `White_Space` property.
pub open spec fn is_white_space(c: char) -> bool {
    ||| '\u{9}' <= c <= '\u{d}'
    ||| c == '\u{20}'
    ||| c == '\u{85}'
    ||| c == '\u{a0}'
    ||| c == '\u{1680}'
    ||| '\u{2000}' <= c <= '\u{200a}'
    ||| c == '\u{2028}'
    ||| c == '\u{2029}'
    ||| c == '\u{202f}'
    ||| c == '\u{205f}'
    ||| c == '\u{3000}'
}

/// `text` without the white space at its end.
pub open spec fn trimmed(text: Seq<char>) -> Seq<char>
    decreases text.len(),
{
    if text.len() > 0 && is_white_space(text.last()) {
        trimmed(text.drop_last())
    } else {
        text
    }
}

/// `str::trim_end` takes the trailing characters with the `White_Space` property off, and
/// nothing else.
pub assume_specification[ str::trim_end ](s: &str) -> (trimmed_end: &str)
    ensures
        trimmed_end@ == trimmed(s@),
;

/// Two texts, one behind the other.
pub fn join(first: &str, second: &str) -> (text: String)
    ensures
        text@ == first@ + second@,
{
    let mut text = first.to_owned();
    text.append(second);
    text
}

} // verus!
