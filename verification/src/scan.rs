use vstd::prelude::*;

verus! {

/// The largest index below `start` holding a delimiter, or -1 if there is
/// none.
pub open spec fn last_break_before(breaks: Seq<char>, data: Seq<char>, start: int) -> int
    decreases start,
{
    if start <= 0 {
        -1
    } else if breaks.contains(data[start - 1]) {
        start - 1
    } else {
        last_break_before(breaks, data, start - 1)
    }
}

/// The smallest index in `[from, until)` holding a delimiter, or `until` if
/// there is none.
pub open spec fn first_break_in(breaks: Seq<char>, data: Seq<char>, from: int, until: int) -> int
    decreases until - from,
{
    if from >= until {
        until
    } else if breaks.contains(data[from]) {
        from
    } else {
        first_break_in(breaks, data, from + 1, until)
    }
}

/// Where a backward scan from `start` stops: at the delimiter itself when it
/// sits just below `start` (so runs of delimiters are stepped one at a time),
/// just past it when it sits further away (so the run of non-delimiters is
/// consumed but the delimiter is kept), and at the buffer edge when there is
/// no delimiter at all.
pub open spec fn boundary_back(breaks: Seq<char>, data: Seq<char>, start: int) -> int {
    let j = last_break_before(breaks, data, start);
    if j < 0 {
        0
    } else if start - j > 1 {
        j + 1
    } else {
        j
    }
}

/// Where a forward scan from `start` stops: at the first delimiter above
/// `start`, or at the last index of the buffer when there is none (the scan
/// never looks past `len - 1`).
pub open spec fn boundary_fwd(breaks: Seq<char>, data: Seq<char>, start: int) -> int {
    let j = first_break_in(breaks, data, start + 1, data.len() as int);
    if j < data.len() {
        j
    } else {
        data.len() - 1
    }
}

/// Whether a character is an element of the break set.
pub fn contains_char(breaks: &Vec<char>, c: char) -> (r: bool)
    ensures
        r == breaks@.contains(c),
{
    let mut i: usize = 0;
    while i < breaks.len()
        invariant
            i <= breaks.len(),
            forall|j: int| 0 <= j < i ==> breaks@[j] != c,
        decreases breaks.len() - i,
    {
        if breaks[i] == c {
            return true;
        }
        i = i + 1;
    }
    false
}

/// Scans from `start` toward the nearer buffer edge for a character of the
/// break set, one codepoint at a time.
pub(crate) fn scan_boundary(breaks: &Vec<char>, data: &Vec<char>, start: usize, backwards: bool) -> (r:
    usize)
    requires
        start <= data@.len(),
        !backwards ==> start < data@.len(),
    ensures
        backwards ==> r == boundary_back(breaks@, data@, start as int),
        !backwards ==> r == boundary_fwd(breaks@, data@, start as int),
        backwards ==> r <= start,
        !backwards ==> start <= r < data@.len(),
{
    if backwards {
        let mut i = start;
        while i != 0
            invariant
                i <= start <= data@.len(),
                last_break_before(breaks@, data@, start as int) == last_break_before(
                    breaks@,
                    data@,
                    i as int,
                ),
            decreases i,
        {
            i = i - 1;
            if contains_char(breaks, data[i]) {
                proof {
                    assert(last_break_before(breaks@, data@, i + 1) == i);
                }
                if start - i > 1 {
                    return i + 1;
                } else {
                    return i;
                }
            }
        }
        proof {
            assert(last_break_before(breaks@, data@, 0) == -1);
        }
        0
    } else {
        let stop = data.len() - 1;
        let mut i = start;
        while i != stop
            invariant
                start <= i <= stop,
                stop == data@.len() - 1,
                first_break_in(breaks@, data@, start + 1, data@.len() as int) == first_break_in(
                    breaks@,
                    data@,
                    i + 1,
                    data@.len() as int,
                ),
            decreases stop - i,
        {
            i = i + 1;
            if contains_char(breaks, data[i]) {
                proof {
                    assert(first_break_in(breaks@, data@, i as int, data@.len() as int) == i);
                }
                return i;
            }
        }
        i
    }
}

} // verus!
