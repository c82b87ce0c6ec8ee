//! Multi-line console input: a line ending in a backslash before the line
//! break continues the utterance on the next line.
use vstd::prelude::*;
use crate::text::{ends_with, strip_suffix};

verus! {

pub open spec fn continuation_marker() -> Seq<char> {
    "\\\n"@
}

/// One raw input line into the accumulated text: the new text, and whether
/// the utterance is now complete.
pub open spec fn line_step(acc: Seq<char>, line: Seq<char>) -> (Seq<char>, bool) {
    if ends_with(line, continuation_marker()) {
        (acc + line.subrange(0, line.len() - 2) + "\n"@, false)
    } else {
        // the last line, with its line break if it has one
        (acc + line, true)
    }
}

/// Accumulator for one utterance.
pub struct InputBuffer {
    text: String,
    finished: bool,
}

impl InputBuffer {
    pub closed spec fn text_view(&self) -> Seq<char> {
        self.text@
    }

    pub closed spec fn finished_view(&self) -> bool {
        self.finished
    }

    pub fn new() -> (r: InputBuffer)
        ensures
            r.text_view() == Seq::<char>::empty(),
            !r.finished_view(),
    {
        InputBuffer { text: String::new(), finished: false }
    }

    /// Takes one raw line, with its line break if it has one. Returns whether
    /// the utterance is complete; once it is, further lines are ignored.
    pub fn push_line(&mut self, line: &str) -> (r: bool)
        ensures
            old(self).finished_view() ==> final(self).text_view() == old(self).text_view()
                && final(self).finished_view(),
            !old(self).finished_view() ==> (final(self).text_view(), final(self).finished_view())
                == line_step(old(self).text_view(), line@),
            r == final(self).finished_view(),
    {
        if self.finished {
            return true;
        }
        proof {
            reveal_strlit("\\\n");
        }
        match strip_suffix(line, "\\\n") {
            Some(head) => {
                proof {
                    assert(line@.subrange(0, line@.len() - 2) =~= head@);
                    assert(line@.subrange(line@.len() - 2, line@.len() as int) =~= "\\\n"@);
                }
                self.text.append(head);
                self.text.append("\n");
                false
            },
            None => {
                self.text.append(line);
                self.finished = true;
                true
            },
        }
    }

    pub fn is_finished(&self) -> (r: bool)
        ensures
            r == self.finished_view(),
    {
        self.finished
    }

    /// The utterance so far.
    pub fn utterance(&self) -> (r: String)
        ensures
            r@ == self.text_view(),
    {
        self.text.clone()
    }
}

} // verus!
