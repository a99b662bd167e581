//! Long pasted texts that the prompt holds apart from what is typed, each
//! under a number that the prompt shows in its place.
use crate::text::{chars_of, lines, lines_exec};
use vstd::prelude::*;

verus! {

/// How many lines an attachment counts: those of its text, and at least one.
pub open spec fn line_total(s: Seq<char>) -> nat {
    if lines(s).len() == 0 {
        1
    } else {
        lines(s).len()
    }
}

/// A pasted text kept as an attachment of the prompt.
#[derive(Clone, Debug)]
pub struct TextAttachment {
    pub id: usize,
    pub content: String,
    pub size_chars: usize,
    pub line_count: usize,
}

/// The measures of a text: its length in characters and its line count.
fn measure(content: &String) -> (r: (usize, usize))
    ensures
        r.0 == content@.len(),
        r.1 == line_total(content@),
{
    let chars = chars_of(content.as_str());
    let split = lines_exec(chars.as_slice());
    assert(split@.len() == lines(content@).len()) by {
        assert(crate::text::views(split@).len() == split@.len());
    }
    let count = if split.len() == 0 {
        1
    } else {
        split.len()
    };
    (chars.len(), count)
}

impl TextAttachment {
    /// An attachment with the given number holding `content`.
    pub fn new(id: usize, content: String) -> (r: Self)
        ensures
            r.id == id,
            r.content@ == content@,
            r.size_chars == content@.len(),
            r.line_count == line_total(content@),
    {
        let (size_chars, line_count) = measure(&content);
        TextAttachment { id, content, size_chars, line_count }
    }

    /// Replaces the text of the attachment and measures it again.
    pub fn update_content(&mut self, content: String)
        ensures
            final(self).id == old(self).id,
            final(self).content@ == content@,
            final(self).size_chars == content@.len(),
            final(self).line_count == line_total(content@),
    {
        let (size_chars, line_count) = measure(&content);
        self.content = content;
        self.size_chars = size_chars;
        self.line_count = line_count;
    }
}

} // verus!
