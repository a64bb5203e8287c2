use vstd::prelude::*;
use vstd::string::StrSliceExecFns;

verus! {

/// A character predicate usable by [`Cursor::take_while`]: an executable
/// test paired with the spec-level set of characters it accepts.
pub trait CharPred {
    spec fn test_spec(c: char) -> bool;

    fn test(&self, c: char) -> (r: bool)
        ensures
            r == Self::test_spec(c),
    ;
}

/// A single-character lookahead cursor over the characters of a string, with
/// one level of checkpoint/rewind for speculative parsing.
///
/// The characters before `position()` are the ones consumed so far, and
/// `drain_rest` returns exactly the characters from `position()` on, so no
/// sequence of operations loses or duplicates a character of the input.
pub struct Cursor<'a> {
    text: &'a str,
    len: usize,
    pos: usize,
    mark: usize,
}

impl<'a> Cursor<'a> {
    /// The whole input, as a sequence of characters.
    pub closed spec fn input(self) -> Seq<char> {
        self.text@
    }

    /// How many characters have been consumed so far.
    pub closed spec fn position(self) -> int {
        self.pos as int
    }

    /// The position captured by the most recent `checkpoint`.
    pub closed spec fn saved(self) -> int {
        self.mark as int
    }

    pub closed spec fn wf(self) -> bool {
        &&& self.len as nat == self.text@.len()
        &&& self.pos <= self.len
        &&& self.mark <= self.len
    }

    /// What `peek` answers at the current position.
    /// What well-formedness guarantees about the two positions.
    pub broadcast proof fn lemma_wf_bounds(self)
        requires
            #[trigger] self.wf(),
        ensures
            0 <= self.position() <= self.input().len(),
            0 <= self.saved() <= self.input().len(),
    {
    }

    /// The cursor never loses characters: what has been consumed so far
    /// (`input().take(position())`) and what `drain_rest` would still
    /// return (`input().skip(position())`) make up the input exactly.
    pub proof fn lemma_never_loses_characters(self)
        requires
            self.wf(),
        ensures
            self.input().take(self.position()) + self.input().skip(self.position())
                == self.input(),
    {
        assert(self.input().take(self.position()) + self.input().skip(self.position())
            =~= self.input());
    }

    pub open spec fn peek_spec(self) -> Option<char> {
        if self.position() < self.input().len() {
            Some(self.input()[self.position()])
        } else {
            None
        }
    }

    pub fn new(text: &'a str) -> (r: Cursor<'a>)
        ensures
            r.wf(),
            r.input() == text@,
            r.position() == 0,
            r.saved() == 0,
    {
        let len = text.unicode_len();
        Cursor { text, len, pos: 0, mark: 0 }
    }

    /// The next character, without consuming it; `None` at end of input.
    pub fn peek(&self) -> (r: Option<char>)
        requires
            self.wf(),
        ensures
            r == self.peek_spec(),
    {
        if self.pos < self.len {
            Some(self.text.get_char(self.pos))
        } else {
            None
        }
    }

    /// Consume the character that `peek` just returned.
    pub fn advance(&mut self)
        requires
            old(self).wf(),
            old(self).position() < old(self).input().len(),
        ensures
            final(self).wf(),
            final(self).input() == old(self).input(),
            final(self).saved() == old(self).saved(),
            final(self).position() == old(self).position() + 1,
    {
        self.pos = self.pos + 1;
    }

    /// Remember the current position; `rewind` restores it.
    pub fn checkpoint(&mut self)
        requires
            old(self).wf(),
        ensures
            final(self).wf(),
            final(self).input() == old(self).input(),
            final(self).position() == old(self).position(),
            final(self).saved() == old(self).position(),
    {
        self.mark = self.pos;
    }

    /// Restore the position captured by the most recent `checkpoint`,
    /// discarding any consumption that happened in between.
    pub fn rewind(&mut self)
        requires
            old(self).wf(),
        ensures
            final(self).wf(),
            final(self).input() == old(self).input(),
            final(self).saved() == old(self).saved(),
            final(self).position() == old(self).saved(),
    {
        self.pos = self.mark;
    }

    /// Consume the maximal run of leading characters accepted by `p` and
    /// return it; the first rejected character, if any, is left unconsumed.
    pub fn take_while<P: CharPred>(&mut self, p: &P) -> (r: String)
        requires
            old(self).wf(),
        ensures
            final(self).wf(),
            final(self).input() == old(self).input(),
            final(self).saved() == old(self).saved(),
            old(self).position() <= final(self).position() <= final(self).input().len(),
            r@ == final(self).input().subrange(old(self).position(), final(self).position()),
            forall|i: int|
                old(self).position() <= i < final(self).position() ==> #[trigger] P::test_spec(
                    final(self).input()[i],
                ),
            final(self).position() < final(self).input().len() ==> !P::test_spec(
                final(self).input()[final(self).position()],
            ),
    {
        let text = self.text;
        let len = self.len;
        let start = self.pos;
        let mut end = start;
        loop
            invariant_except_break
                len as nat == text@.len(),
                start <= end <= len,
                forall|i: int| start <= i < end ==> #[trigger] P::test_spec(text@[i]),
            ensures
                start <= end <= len,
                forall|i: int| start <= i < end ==> #[trigger] P::test_spec(text@[i]),
                end < len ==> !P::test_spec(text@[end as int]),
            decreases len - end,
        {
            if end >= len {
                break ;
            }
            let c = text.get_char(end);
            if !p.test(c) {
                break ;
            }
            end = end + 1;
        }
        self.pos = end;
        text.substring_char(start, end).to_owned()
    }

    /// Consume and return all remaining characters.
    pub fn drain_rest(&mut self) -> (r: String)
        requires
            old(self).wf(),
        ensures
            final(self).wf(),
            final(self).input() == old(self).input(),
            final(self).saved() == old(self).saved(),
            final(self).position() == final(self).input().len(),
            r@ == old(self).input().subrange(old(self).position(), old(self).input().len() as int),
    {
        let r = self.text.substring_char(self.pos, self.len).to_owned();
        self.pos = self.len;
        r
    }
}

} // verus!
