use vstd::prelude::*;
use vstd::string::StringExecFns;

use crate::textops::chars_to_string;
use crate::textops::push_char;
use crate::textops::str_chars;

verus! {

/// A bounded command history with a navigation index.
///
/// `lines` holds past entries, oldest first, capped at `max_lines`
/// (the oldest entry is dropped first when the cap is exceeded).
/// `index` is the navigation cursor: `index == lines.len()` means
/// "not currently recalling, editing a fresh line".
#[derive(Debug, Clone)]
pub struct History {
    lines: Vec<String>,
    file: String,
    index: usize,
    max_lines: usize,
}

/// The last `max` elements of a sequence (all of them if it is shorter).
pub open spec fn retained(lines: Seq<Seq<char>>, max: nat) -> Seq<Seq<char>> {
    if lines.len() <= max {
        lines
    } else {
        lines.skip(lines.len() - max)
    }
}

/// What one appended entry does to the retained sequence: the entry is
/// appended, then the front is dropped until at most `max` entries remain.
pub open spec fn history_pushed(entries: Seq<Seq<char>>, l: Seq<char>, max: nat) -> Seq<Seq<char>> {
    retained(entries.push(l), max)
}

/// A line with one trailing carriage return removed, as a CRLF terminator
/// leaves it on the piece before the newline.
pub open spec fn strip_cr(l: Seq<char>) -> Seq<char> {
    if l.len() > 0 && l.last() == '\r' {
        l.drop_last()
    } else {
        l
    }
}

/// The text split at newline characters, built from the right: the empty
/// text holds one empty piece; a trailing newline closes the last piece
/// (dropping a carriage return left right before it) and opens a fresh
/// empty one; any other trailing character extends the last piece.
pub open spec fn split_lines(s: Seq<char>) -> Seq<Seq<char>>
    decreases s.len(),
{
    if s.len() == 0 {
        seq![Seq::<char>::empty()]
    } else if s.last() == '\n' {
        let p = split_lines(s.drop_last());
        p.update(p.len() - 1, strip_cr(p.last())).push(Seq::<char>::empty())
    } else {
        let p = split_lines(s.drop_last());
        p.update(p.len() - 1, p.last().push(s.last()))
    }
}

/// The entries read back from a history file's text: none for empty text,
/// otherwise the text split at newline characters, where a trailing newline
/// is a terminator — it closes the last entry rather than opening an empty
/// one.
pub open spec fn parsed_history(s: Seq<char>) -> Seq<Seq<char>> {
    if s.len() == 0 {
        Seq::<Seq<char>>::empty()
    } else if s.last() == '\n' {
        split_lines(s).drop_last()
    } else {
        split_lines(s)
    }
}

/// The entries of a history file joined with single newline characters.
pub open spec fn join_lines(lines: Seq<Seq<char>>) -> Seq<char>
    decreases lines.len(),
{
    if lines.len() == 0 {
        Seq::<char>::empty()
    } else if lines.len() == 1 {
        lines[0]
    } else {
        join_lines(lines.drop_last()) + seq!['\n'] + lines.last()
    }
}

/// The result of pushing a sequence of entries one at a time.
pub open spec fn pushed_all(entries: Seq<Seq<char>>, ls: Seq<Seq<char>>, max: nat) -> Seq<
    Seq<char>,
>
    decreases ls.len(),
{
    if ls.len() == 0 {
        entries
    } else {
        pushed_all(history_pushed(entries, ls[0], max), ls.skip(1), max)
    }
}

proof fn lemma_retained_append(x: Seq<Seq<char>>, y: Seq<Seq<char>>, max: nat)
    ensures
        retained(retained(x, max) + y, max) == retained(x + y, max),
{
    if x.len() <= max {
        assert(retained(x, max) + y =~= x + y);
    } else {
        let d = x.len() - max;
        assert(x.skip(d as int).len() == max);
        if y.len() == 0 {
            assert(retained(x, max) + y =~= x.skip(d as int));
            assert(retained(x + y, max) =~= x.skip(d as int));
        } else {
            assert(retained(retained(x, max) + y, max) =~= retained(x + y, max));
        }
    }
}

/// Pushing entries one at a time retains exactly the last `max` of the
/// prior entries followed by everything pushed, oldest first.
pub proof fn lemma_history_capacity(entries: Seq<Seq<char>>, ls: Seq<Seq<char>>, max: nat)
    requires
        entries.len() <= max,
    ensures
        pushed_all(entries, ls, max) == retained(entries + ls, max),
    decreases ls.len(),
{
    if ls.len() == 0 {
        assert(entries + ls =~= entries);
    } else {
        let e1 = history_pushed(entries, ls[0], max);
        assert(e1.len() <= max);
        lemma_history_capacity(e1, ls.skip(1), max);
        assert(entries.push(ls[0]) + ls.skip(1) =~= entries + ls);
        lemma_retained_append(entries.push(ls[0]), ls.skip(1), max);
    }
}

proof fn lemma_split_single(s: Seq<char>)
    requires
        !s.contains('\n'),
    ensures
        split_lines(s) == seq![s],
    decreases s.len(),
{
    if s.len() == 0 {
        assert(s =~= Seq::<char>::empty());
        assert(split_lines(s) =~= seq![s]);
    } else {
        assert(s.last() != '\n') by {
            assert(s[s.len() - 1] == s.last());
        }
        assert(!s.drop_last().contains('\n')) by {
            if s.drop_last().contains('\n') {
                let i = choose|i: int|
                    0 <= i < s.drop_last().len() && s.drop_last()[i] == '\n';
                assert(s[i] == '\n');
            }
        }
        lemma_split_single(s.drop_last());
        assert(s.drop_last().push(s.last()) =~= s);
        assert(split_lines(s) =~= seq![s]);
    }
}

proof fn lemma_split_len(s: Seq<char>)
    ensures
        split_lines(s).len() >= 1,
    decreases s.len(),
{
    if s.len() > 0 {
        lemma_split_len(s.drop_last());
    }
}

proof fn lemma_split_extend(a: Seq<char>, b: Seq<char>)
    requires
        !b.contains('\n'),
    ensures
        split_lines(a + b) == split_lines(a).update(
            split_lines(a).len() - 1,
            split_lines(a).last() + b,
        ),
    decreases b.len(),
{
    lemma_split_len(a);
    let p = split_lines(a);
    if b.len() == 0 {
        assert(a + b =~= a);
        assert(p.last() + b =~= p.last());
        assert(p.update(p.len() - 1, p.last() + b) =~= p);
    } else {
        assert(b.last() != '\n') by {
            assert(b[b.len() - 1] == b.last());
        }
        assert(!b.drop_last().contains('\n')) by {
            if b.drop_last().contains('\n') {
                let i = choose|i: int|
                    0 <= i < b.drop_last().len() && b.drop_last()[i] == '\n';
                assert(b[i] == '\n');
            }
        }
        lemma_split_extend(a, b.drop_last());
        let q = split_lines(a + b.drop_last());
        assert((a + b).drop_last() =~= a + b.drop_last());
        assert((a + b).last() == b.last());
        assert(q.last() == p.last() + b.drop_last());
        assert((p.last() + b.drop_last()).push(b.last()) =~= p.last() + b);
        assert(split_lines(a + b) =~= p.update(p.len() - 1, p.last() + b));
    }
}

proof fn lemma_split_newline(a: Seq<char>)
    ensures
        split_lines(a + seq!['\n']) == split_lines(a).update(
            split_lines(a).len() - 1,
            strip_cr(split_lines(a).last()),
        ).push(Seq::<char>::empty()),
{
    assert((a + seq!['\n']).last() == '\n');
    assert((a + seq!['\n']).drop_last() =~= a);
}

proof fn lemma_join_then_split(lines: Seq<Seq<char>>)
    requires
        lines.len() >= 1,
        forall|i: int| 0 <= i < lines.len() ==> !(#[trigger] lines[i]).contains('\n'),
        forall|i: int|
            0 <= i < lines.len() ==> ((#[trigger] lines[i]).len() > 0 ==> lines[i].last() != '\r'),
    ensures
        split_lines(join_lines(lines)) == lines,
    decreases lines.len(),
{
    if lines.len() == 1 {
        lemma_split_single(lines[0]);
        assert(seq![lines[0]] =~= lines);
    } else {
        let dl = lines.drop_last();
        assert(forall|i: int| 0 <= i < dl.len() ==> !(#[trigger] dl[i]).contains('\n'));
        assert(forall|i: int|
            0 <= i < dl.len() ==> ((#[trigger] dl[i]).len() > 0 ==> dl[i].last() != '\r'));
        lemma_join_then_split(dl);
        lemma_split_newline(join_lines(dl));
        lemma_split_extend(join_lines(dl) + seq!['\n'], lines.last());
        lemma_split_len(join_lines(dl) + seq!['\n']);
        assert((join_lines(dl) + seq!['\n']) + lines.last() =~= join_lines(lines));
        let r = split_lines(join_lines(dl) + seq!['\n']);
        assert(strip_cr(dl.last()) == dl.last());
        assert(dl.update(dl.len() - 1, dl.last()) =~= dl);
        assert(r == dl.push(Seq::<char>::empty()));
        assert(Seq::<char>::empty() + lines.last() =~= lines.last());
        assert(r.update(r.len() - 1, r.last() + lines.last()) =~= dl.push(lines.last()));
        assert(dl.push(lines.last()) =~= lines);
    }
}

/// Saving and reloading reproduces the retained entries: parsing the
/// newline-joined text yields the same sequence, provided no entry holds an
/// embedded newline or ends with a carriage return, and the newest entry is
/// not empty (the inputs on which the newline-delimited file format is not
/// faithful: an empty newest entry is read back as a trailing terminator
/// and lost).
pub proof fn lemma_save_reload(lines: Seq<Seq<char>>)
    requires
        forall|i: int| 0 <= i < lines.len() ==> !(#[trigger] lines[i]).contains('\n'),
        forall|i: int|
            0 <= i < lines.len() ==> ((#[trigger] lines[i]).len() > 0 ==> lines[i].last() != '\r'),
        lines.len() > 0 ==> lines.last().len() > 0,
    ensures
        parsed_history(join_lines(lines)) == lines,
{
    if lines.len() == 0 {
        assert(parsed_history(join_lines(lines)) =~= lines);
    } else {
        let ll = lines[lines.len() - 1];
        if lines.len() == 1 {
            assert(join_lines(lines) == ll);
        } else {
            assert(join_lines(lines) == join_lines(lines.drop_last()) + seq!['\n']
                + lines.last());
        }
        assert(join_lines(lines).len() > 0);
        assert(join_lines(lines).last() == ll.last());
        assert(ll.last() != '\n') by {
            if ll[ll.len() - 1] == '\n' {
                assert(ll.contains('\n'));
            }
        }
        lemma_join_then_split(lines);
    }
}

/// Reloading the text a history saves reproduces its retained entries,
/// provided no entry holds an embedded newline or ends with a carriage
/// return, and the newest entry is not empty (the inputs on which the
/// newline-delimited file format is not faithful).
pub proof fn lemma_history_round_trip(h: History)
    requires
        h.wf(),
        forall|i: int| 0 <= i < h.entries().len() ==> !(#[trigger] h.entries()[i]).contains('\n'),
        forall|i: int|
            0 <= i < h.entries().len() ==> ((#[trigger] h.entries()[i]).len() > 0
                ==> h.entries()[i].last() != '\r'),
        h.entries().len() > 0 ==> h.entries().last().len() > 0,
    ensures
        retained(parsed_history(join_lines(h.entries())), h.cap()) == h.entries(),
{
    lemma_save_reload(h.entries());
}

impl History {
    /// The retained entries, oldest first.
    pub closed spec fn entries(&self) -> Seq<Seq<char>> {
        self.lines.deep_view()
    }

    /// The navigation index.
    pub closed spec fn nav(&self) -> int {
        self.index as int
    }

    /// The retention cap.
    pub closed spec fn cap(&self) -> nat {
        self.max_lines as nat
    }

    /// The path of the backing file.
    pub closed spec fn path(&self) -> Seq<char> {
        self.file@
    }

    /// Well-formedness: the cap is respected and the navigation index
    /// stays within `[0, entries.len()]`.
    pub open spec fn wf(&self) -> bool {
        self.entries().len() <= self.cap() && 0 <= self.nav() <= self.entries().len()
    }

    /// Creates an empty history backed by the given file path.
    pub fn new(file: String, max_lines: usize) -> (h: History)
        ensures
            h.wf(),
            h.entries() == Seq::<Seq<char>>::empty(),
            h.nav() == 0,
            h.cap() == max_lines,
            h.path() == file@,
    {
        let h = History { lines: Vec::new(), file, index: 0, max_lines };
        proof {
            assert(h.lines.deep_view() =~= Seq::<Seq<char>>::empty());
        }
        h
    }

    /// Builds a history from the text of its backing file, as the caller
    /// read it (a missing file reads as empty text). The text is split at
    /// newline characters; only the last `max_lines` entries are retained.
    pub fn from_text(file: String, text: &str, max_lines: usize) -> (h: History)
        ensures
            h.wf(),
            h.entries() == retained(parsed_history(text@), max_lines as nat),
            h.nav() == h.entries().len(),
            h.cap() == max_lines,
            h.path() == file@,
    {
        let chars = str_chars(text);
        let mut lines: Vec<String> = Vec::new();
        let mut cur: Vec<char> = Vec::new();
        let mut i: usize = 0;
        while i < chars.len()
            invariant
                i <= chars.len(),
                chars@ == text@,
                split_lines(text@.take(i as int)) == lines.deep_view().push(cur@),
            decreases chars.len() - i,
        {
            let c = chars[i];
            let ghost prev = lines.deep_view();
            let ghost pc = cur@;
            i = i + 1;
            proof {
                assert(text@.take(i as int).drop_last() =~= text@.take(i - 1));
            }
            if c == '\n' {
                if cur.len() > 0 && cur[cur.len() - 1] == '\r' {
                    cur.pop();
                }
                proof {
                    assert(cur@ =~= strip_cr(pc));
                }
                lines.push(chars_to_string(&cur));
                cur = Vec::new();
                proof {
                    assert(lines.deep_view() =~= prev.push(strip_cr(pc)));
                    assert(cur@ =~= Seq::<char>::empty());
                    assert(split_lines(text@.take(i as int)) =~= lines.deep_view().push(cur@));
                }
            } else {
                cur.push(c);
                proof {
                    assert(split_lines(text@.take(i as int)) =~= prev.push(pc.push(c)));
                }
            }
        }
        proof {
            assert(text@.take(chars.len() as int) =~= text@);
        }
        if chars.len() > 0 {
            if chars[chars.len() - 1] != '\n' {
                let ghost prev = lines.deep_view();
                let ghost pc = cur@;
                lines.push(chars_to_string(&cur));
                proof {
                    assert(lines.deep_view() =~= prev.push(pc));
                }
            } else {
                // The text ends in a terminator: the loop already closed the
                // last entry, and the fresh piece after it is not one.
                proof {
                    assert(split_lines(text@).drop_last() =~= lines.deep_view());
                }
            }
        }
        proof {
            assert(lines.deep_view() =~= parsed_history(text@));
        }
        let ghost full = lines.deep_view();
        while lines.len() > max_lines
            invariant
                lines.deep_view() == full.skip(full.len() - lines.len()),
                lines.len() <= full.len(),
                lines.len() >= max_lines || lines.len() == full.len(),
            decreases lines.len(),
        {
            let ghost prevv = lines@;
            let ghost prevd = lines.deep_view();
            lines.remove(0);
            proof {
                assert(lines@ =~= prevv.skip(1));
                assert(lines.deep_view() =~= prevd.skip(1));
                assert(lines.deep_view() =~= full.skip(full.len() - lines.len()));
            }
        }
        proof {
            assert(full.skip(0) =~= full);
            assert(lines.deep_view() =~= retained(full, max_lines as nat));
        }
        let index = lines.len();
        History { lines, file, index, max_lines }
    }

    /// The entries joined with single newline characters: the text that the
    /// caller writes back to the backing file.
    pub fn to_text(&self) -> (r: String)
        ensures
            r@ == join_lines(self.entries()),
    {
        let mut s = String::new();
        let mut i: usize = 0;
        while i < self.lines.len()
            invariant
                i <= self.lines.len(),
                i == 0 ==> s@ == Seq::<char>::empty(),
                i > 0 ==> s@ == join_lines(self.entries().take(i as int)),
            decreases self.lines.len() - i,
        {
            if i > 0 {
                push_char(&mut s, '\n');
            }
            s.append(self.lines[i].as_str());
            i = i + 1;
            proof {
                assert(self.entries().take(i as int).drop_last() =~= self.entries().take(i - 1));
                if i > 1 {
                    assert(s@ =~= join_lines(self.entries().take(i as int)));
                }
            }
        }
        proof {
            assert(self.entries().take(self.lines.len() as int) =~= self.entries());
        }
        s
    }

    /// Adds a line to the history, dropping the oldest entry if the cap
    /// is exceeded, and resets the navigation index past the newest entry.
    pub fn push(&mut self, l: String)
        requires
            old(self).wf(),
        ensures
            final(self).wf(),
            final(self).entries() == history_pushed(old(self).entries(), l@, old(self).cap()),
            final(self).nav() == final(self).entries().len(),
            final(self).cap() == old(self).cap(),
            final(self).path() == old(self).path(),
    {
        self.lines.push(l);
        if self.lines.len() > self.max_lines {
            self.lines.remove(0);
            proof {
                assert(self.lines.deep_view() =~= history_pushed(
                    old(self).entries(),
                    l@,
                    old(self).cap(),
                ));
            }
        } else {
            proof {
                assert(self.lines.deep_view() =~= history_pushed(
                    old(self).entries(),
                    l@,
                    old(self).cap(),
                ));
            }
        }
        self.index = self.lines.len();
    }

    /// Resets the navigation index past the newest entry.
    pub fn reset_index(&mut self)
        requires
            old(self).wf(),
        ensures
            final(self).wf(),
            final(self).entries() == old(self).entries(),
            final(self).nav() == final(self).entries().len(),
            final(self).cap() == old(self).cap(),
            final(self).path() == old(self).path(),
    {
        self.index = self.lines.len();
    }

    /// Steps the navigation index one entry toward the oldest and returns
    /// that entry; returns nothing (and moves nothing) at the oldest entry.
    pub fn up(&mut self) -> (r: Option<String>)
        requires
            old(self).wf(),
        ensures
            final(self).wf(),
            final(self).entries() == old(self).entries(),
            final(self).cap() == old(self).cap(),
            final(self).path() == old(self).path(),
            old(self).nav() == 0 ==> r is None && final(self).nav() == 0,
            old(self).nav() > 0 ==> {
                &&& final(self).nav() == old(self).nav() - 1
                &&& r is Some
                &&& r->Some_0@ == old(self).entries()[old(self).nav() - 1]
            },
    {
        if self.index > 0 {
            self.index = self.index - 1;
            Some(self.lines[self.index].clone())
        } else {
            None
        }
    }

    /// Steps the navigation index one entry toward the newest and returns
    /// that entry; returns nothing once the newest entry is reached, which
    /// tells the caller to present a fresh line.
    pub fn down(&mut self) -> (r: Option<String>)
        requires
            old(self).wf(),
        ensures
            final(self).wf(),
            final(self).entries() == old(self).entries(),
            final(self).cap() == old(self).cap(),
            final(self).path() == old(self).path(),
            old(self).nav() + 1 < old(self).entries().len() ==> {
                &&& final(self).nav() == old(self).nav() + 1
                &&& r is Some
                &&& r->Some_0@ == old(self).entries()[old(self).nav() + 1]
            },
            old(self).nav() + 1 >= old(self).entries().len() ==> r is None && final(self).nav()
                == old(self).nav(),
    {
        if self.lines.len() >= 2 && self.index < self.lines.len() - 1 {
            self.index = self.index + 1;
            Some(self.lines[self.index].clone())
        } else {
            None
        }
    }

    /// The retained entries, for callers outside the library.
    pub fn lines(&self) -> (r: &Vec<String>)
        ensures
            r.deep_view() == self.entries(),
    {
        &self.lines
    }

    /// The path of the backing file, for the caller that persists it.
    pub fn file_path(&self) -> (r: &String)
        ensures
            r@ == self.path(),
    {
        &self.file
    }
}

} // verus!
