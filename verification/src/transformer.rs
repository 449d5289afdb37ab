//! Line transformers. A transformer hands out text in batches of lines;
//! transformers wrap one another to form a pipeline.

use vstd::prelude::*;

verus! {

/// The text of some lines, each as its characters.
pub open spec fn text(lines: Seq<String>) -> Seq<Seq<char>> {
    Seq::new(lines.len(), |i: int| lines[i]@)
}

/// Each call of `next_lines` hands out the next batch of lines.
pub trait Transformer {
    /// What holds of a transformer between calls. A transformer that says
    /// nothing else is always in order.
    open spec fn inv(&self) -> bool {
        true
    }

    /// Returns the next batch of text lines.
    ///
    /// Returns `None` at the end of the text. Returns an empty batch where
    /// the end has not been reached but no line can be handed out yet.
    fn next_lines(&mut self) -> (batch: Option<Vec<String>>)
        requires
            old(self).inv(),
        ensures
            final(self).inv(),
    ;
}

/// A transformer over lines that are held in memory: each call hands out
/// one line, in order, as a batch of its own.
pub struct Lines {
    lines: Vec<String>,
    next: usize,
}

impl Lines {
    /// The lines that have not been handed out yet.
    pub closed spec fn rest(&self) -> Seq<Seq<char>> {
        text(self.lines@).skip(self.next as int)
    }

    /// A transformer that hands out `lines`, one at a time.
    pub fn new(lines: Vec<String>) -> (source: Self)
        ensures
            source.inv(),
            source.rest() == text(lines@),
    {
        let source = Lines { lines, next: 0 };
        assert(source.rest() =~= text(lines@));
        source
    }
}

impl Transformer for Lines {
    closed spec fn inv(&self) -> bool {
        self.next <= self.lines@.len()
    }

    fn next_lines(&mut self) -> (batch: Option<Vec<String>>)
        ensures
            old(self).rest().len() == 0 ==> batch is None && final(self).rest() == old(self).rest(),
            old(self).rest().len() > 0 ==> batch is Some && text(batch->0@) == seq![
                old(self).rest()[0],
            ] && final(self).rest() == old(self).rest().skip(1),
    {
        if self.next < self.lines.len() {
            let line = self.lines[self.next].clone();
            self.next = self.next + 1;
            let batch = vec![line];
            assert(text(batch@) =~= seq![old(self).rest()[0]]);
            assert(final(self).rest() =~= old(self).rest().skip(1));
            Some(batch)
        } else {
            None
        }
    }
}

} // verus!
