use vstd::prelude::*;

verus! {

/// The single-line edit buffer: the text being edited, one element per
/// codepoint, and the cursor index, always within `[0, text.len()]`.
pub struct EditBuffer {
    pub text: Vec<char>,
    pub cursor: usize,
}

impl EditBuffer {
    /// The cursor stays within `[0, text.len()]`.
    pub open spec fn wf(&self) -> bool {
        self.cursor <= self.text@.len()
    }

    /// An empty buffer with the cursor at the start.
    pub fn new() -> (b: EditBuffer)
        ensures
            b.wf(),
            b.text@ == Seq::<char>::empty(),
            b.cursor == 0,
    {
        let b = EditBuffer { text: Vec::new(), cursor: 0 };
        proof {
            assert(b.text@ =~= Seq::<char>::empty());
        }
        b
    }

    /// Inserts one character at the cursor: the text grows by one, the
    /// inserted character sits at the old cursor index, and the cursor moves
    /// just past it.
    pub fn insert(&mut self, c: char)
        requires
            old(self).wf(),
        ensures
            final(self).wf(),
            final(self).text@ == old(self).text@.insert(old(self).cursor as int, c),
            final(self).text@.len() == old(self).text@.len() + 1,
            final(self).text@[old(self).cursor as int] == c,
            final(self).cursor == old(self).cursor + 1,
    {
        self.text.insert(self.cursor, c);
        proof {
            assert(self.text@.len() == vstd::std_specs::vec::spec_vec_len(&self.text));
        }
        self.cursor = self.cursor + 1;
    }

    /// Removes the characters of `[start, end)`. A cursor inside the removed
    /// range lands on `start`; one past it moves back by the removed length.
    pub fn delete_range(&mut self, start: usize, end: usize)
        requires
            old(self).wf(),
            start <= end <= old(self).text@.len(),
        ensures
            final(self).wf(),
            final(self).text@ == old(self).text@.take(start as int) + old(self).text@.skip(
                end as int,
            ),
            final(self).cursor == if old(self).cursor <= start {
                old(self).cursor as int
            } else if old(self).cursor <= end {
                start as int
            } else {
                old(self).cursor - (end - start)
            },
    {
        let ghost orig = self.text@;
        let mut removed: usize = 0;
        while removed < end - start
            invariant
                removed <= end - start,
                start <= end <= orig.len(),
                self.cursor == old(self).cursor,
                self.text@ == orig.take(start as int) + orig.skip(start + removed),
            decreases end - start - removed,
        {
            let ghost prev = self.text@;
            self.text.remove(start);
            removed = removed + 1;
            proof {
                assert(prev.remove(start as int) =~= orig.take(start as int) + orig.skip(
                    start + removed,
                ));
            }
        }
        if self.cursor > end {
            self.cursor = self.cursor - (end - start);
        } else if self.cursor > start {
            self.cursor = start;
        }
    }

    /// Inserts the given characters at the cursor and moves the cursor to
    /// the end of the inserted run.
    pub fn insert_text(&mut self, s: &Vec<char>)
        requires
            old(self).wf(),
            old(self).text@.len() + s@.len() <= usize::MAX,
        ensures
            final(self).wf(),
            final(self).text@ == old(self).text@.take(old(self).cursor as int) + s@ + old(
                self,
            ).text@.skip(old(self).cursor as int),
            final(self).cursor == old(self).cursor + s@.len(),
    {
        let ghost orig = self.text@;
        let ghost c0 = self.cursor as int;
        let mut i: usize = 0;
        while i < s.len()
            invariant
                i <= s@.len(),
                c0 + i <= self.text@.len(),
                orig.len() + s@.len() <= usize::MAX,
                0 <= c0 <= orig.len(),
                self.cursor == c0,
                self.text@ == orig.take(c0) + s@.take(i as int) + orig.skip(c0),
            decreases s@.len() - i,
        {
            let ghost prev = self.text@;
            self.text.insert(self.cursor + i, s[i]);
            i = i + 1;
            proof {
                assert(prev.insert(c0 + i - 1, s@[i - 1]) =~= orig.take(c0) + s@.take(i as int)
                    + orig.skip(c0));
            }
        }
        proof {
            assert(s@.take(s@.len() as int) =~= s@);
        }
        self.cursor = self.cursor + s.len();
    }

    /// Replaces the whole text and puts the cursor at its end.
    pub fn replace_all(&mut self, text: Vec<char>)
        ensures
            final(self).wf(),
            final(self).text@ == text@,
            final(self).cursor == text@.len(),
    {
        self.cursor = text.len();
        self.text = text;
    }

    /// Empties the buffer and puts the cursor at the start.
    pub fn clear(&mut self)
        ensures
            final(self).wf(),
            final(self).text@ == Seq::<char>::empty(),
            final(self).cursor == 0,
    {
        self.text = Vec::new();
        self.cursor = 0;
        proof {
            assert(self.text@ =~= Seq::<char>::empty());
        }
    }
}

} // verus!
