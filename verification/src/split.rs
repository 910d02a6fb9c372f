//! Splitting byte strings on a delimiter, forwards and backwards.
//!
//! The backward splitter drives qualified-name parsing: the outer objects
//! of a name are listed outermost first in the text but wanted innermost
//! first, so the pieces come off the right end.

use vstd::prelude::*;

verus! {

/// Index of the first occurrence of `d` in `s`, or `s.len()` when absent.
pub open spec fn first_index_of(s: Seq<u8>, d: u8) -> int
    decreases s.len(),
{
    if s.len() == 0 {
        0
    } else if s[0] == d {
        0
    } else {
        1 + first_index_of(s.drop_first(), d)
    }
}

pub proof fn lemma_first_index_of(s: Seq<u8>, d: u8)
    ensures
        0 <= first_index_of(s, d) <= s.len(),
        first_index_of(s, d) < s.len() ==> s[first_index_of(s, d)] == d,
        forall|j: int| 0 <= j < first_index_of(s, d) ==> s[j] != d,
    decreases s.len(),
{
    if s.len() > 0 && s[0] != d {
        lemma_first_index_of(s.drop_first(), d);
        assert forall|j: int| 0 <= j < first_index_of(s, d) implies s[j] != d by {
            if j >= 1 {
                assert(s.drop_first()[j - 1] == s[j]);
            }
        }
    }
}

/// Index of the last occurrence of `d` in `s`, or `-1` when absent.
pub open spec fn last_index_of(s: Seq<u8>, d: u8) -> int
    decreases s.len(),
{
    if s.len() == 0 {
        -1
    } else if s[s.len() - 1] == d {
        s.len() - 1
    } else {
        last_index_of(s.drop_last(), d)
    }
}

pub proof fn lemma_last_index_of(s: Seq<u8>, d: u8)
    ensures
        -1 <= last_index_of(s, d) < s.len(),
        last_index_of(s, d) >= 0 ==> s[last_index_of(s, d)] == d,
        forall|j: int| last_index_of(s, d) < j < s.len() ==> s[j] != d,
    decreases s.len(),
{
    if s.len() > 0 && s[s.len() - 1] != d {
        lemma_last_index_of(s.drop_last(), d);
        assert forall|j: int| last_index_of(s, d) < j < s.len() implies s[j] != d by {
            if j < s.len() - 1 {
                assert(s.drop_last()[j] == s[j]);
            }
        }
    }
}

/// The pieces of `s` split left to right on `d`: everything before each
/// delimiter in turn, then the remainder if it is nonempty.
pub open spec fn split_pieces(s: Seq<u8>, d: u8) -> Seq<Seq<u8>>
    decreases s.len(),
    via split_pieces_decreases
{
    let i = first_index_of(s, d);
    if i == s.len() {
        if s.len() == 0 {
            Seq::empty()
        } else {
            seq![s]
        }
    } else {
        seq![s.subrange(0, i)] + split_pieces(s.subrange(i + 1, s.len() as int), d)
    }
}

#[via_fn]
proof fn split_pieces_decreases(s: Seq<u8>, d: u8) {
    lemma_first_index_of(s, d);
}

/// The pieces of `s` split right to left on `d`: everything after each
/// delimiter in turn, then the remainder if it is nonempty.
pub open spec fn rsplit_pieces(s: Seq<u8>, d: u8) -> Seq<Seq<u8>>
    decreases s.len(),
    via rsplit_pieces_decreases
{
    let i = last_index_of(s, d);
    if i < 0 {
        if s.len() == 0 {
            Seq::empty()
        } else {
            seq![s]
        }
    } else {
        seq![s.subrange(i + 1, s.len() as int)] + rsplit_pieces(s.subrange(0, i), d)
    }
}

#[via_fn]
proof fn rsplit_pieces_decreases(s: Seq<u8>, d: u8) {
    lemma_last_index_of(s, d);
}

/// A nonempty byte string splits into at least one piece, both ways.
pub proof fn lemma_pieces_of_nonempty(s: Seq<u8>, d: u8)
    requires
        s.len() > 0,
    ensures
        split_pieces(s, d).len() >= 1,
        rsplit_pieces(s, d).len() >= 1,
{
    lemma_first_index_of(s, d);
    lemma_last_index_of(s, d);
}

/// Yields the pieces of a byte string left to right.
pub struct SplitIterator {
    source: Vec<u8>,
    pos: usize,
    delimiter: u8,
}

impl SplitIterator {
    /// The cursor lies inside the source.
    pub closed spec fn wf(&self) -> bool {
        self.pos <= self.source@.len()
    }

    /// The pieces this iterator has still to yield.
    pub closed spec fn remaining(&self) -> Seq<Seq<u8>> {
        split_pieces(self.source@.subrange(self.pos as int, self.source@.len() as int),
            self.delimiter)
    }

    pub fn new(source: Vec<u8>, delimiter: u8) -> (r: SplitIterator)
        ensures
            r.wf(),
            r.remaining() == split_pieces(source@, delimiter),
    {
        let r = SplitIterator { source, pos: 0, delimiter };
        proof {
            assert(r.source@.subrange(0, r.source@.len() as int) =~= r.source@);
        }
        r
    }

    /// The next piece, or `None` once the source is exhausted.
    pub fn next(&mut self) -> (r: Option<Vec<u8>>)
        requires
            old(self).wf(),
        ensures
            final(self).wf(),
            match r {
                Some(piece) => old(self).remaining().len() > 0 && piece@ == old(
                    self,
                ).remaining()[0] && final(self).remaining() == old(self).remaining().drop_first(),
                None => old(self).remaining().len() == 0 && final(self).remaining() == old(
                    self,
                ).remaining(),
            },
    {
        let n = self.source.len();
        let ghost sub = self.source@.subrange(self.pos as int, n as int);
        proof {
            lemma_first_index_of(sub, self.delimiter);
        }
        if self.pos >= n {
            proof {
                assert(sub =~= Seq::<u8>::empty());
            }
            return None;
        }
        let i = scan_for(&self.source, self.pos, n, self.delimiter);
        proof {
            // i - pos is the first delimiter index within the remainder
            assert(forall|j: int| 0 <= j < i - self.pos ==> sub[j] != self.delimiter);
            if i < n {
                assert(sub[i - self.pos] == self.delimiter);
            }
            assert(first_index_of(sub, self.delimiter) == i - self.pos);
        }
        let piece = copy_range(&self.source, self.pos, i);
        if i < n {
            self.pos = i + 1;
            proof {
                assert(piece@ =~= sub.subrange(0, i - old(self).pos));
                assert(self.source@.subrange(self.pos as int, n as int) =~= sub.subrange(
                    i + 1 - old(self).pos,
                    sub.len() as int,
                ));
            }
        } else {
            self.pos = n;
            proof {
                assert(piece@ =~= sub);
                assert(self.source@.subrange(n as int, n as int) =~= Seq::<u8>::empty());
            }
        }
        Some(piece)
    }
}

/// Yields the pieces of a byte string right to left.
pub struct ReverseSplitIterator {
    source: Vec<u8>,
    end: usize,
    delimiter: u8,
}

impl ReverseSplitIterator {
    /// The cursor lies inside the source.
    pub closed spec fn wf(&self) -> bool {
        self.end <= self.source@.len()
    }

    /// The pieces this iterator has still to yield.
    pub closed spec fn remaining(&self) -> Seq<Seq<u8>> {
        rsplit_pieces(self.source@.subrange(0, self.end as int), self.delimiter)
    }

    pub fn new(source: Vec<u8>, delimiter: u8) -> (r: ReverseSplitIterator)
        ensures
            r.wf(),
            r.remaining() == rsplit_pieces(source@, delimiter),
    {
        let end = source.len();
        let r = ReverseSplitIterator { source, end, delimiter };
        proof {
            assert(r.source@.subrange(0, r.end as int) =~= r.source@);
        }
        r
    }

    /// The next piece from the right, or `None` once the source is
    /// exhausted.
    pub fn next(&mut self) -> (r: Option<Vec<u8>>)
        requires
            old(self).wf(),
        ensures
            final(self).wf(),
            match r {
                Some(piece) => old(self).remaining().len() > 0 && piece@ == old(
                    self,
                ).remaining()[0] && final(self).remaining() == old(self).remaining().drop_first(),
                None => old(self).remaining().len() == 0 && final(self).remaining() == old(
                    self,
                ).remaining(),
            },
    {
        let ghost sub = self.source@.subrange(0, self.end as int);
        proof {
            lemma_last_index_of(sub, self.delimiter);
        }
        if self.end == 0 {
            proof {
                assert(sub =~= Seq::<u8>::empty());
            }
            return None;
        }
        let i = rscan_for(&self.source, self.end, self.delimiter);
        // i - 1 is the last delimiter index, or i == 0 when there is none
        if i > 0 {
            proof {
                assert(sub[i - 1] == self.delimiter);
                assert(forall|j: int| i - 1 < j < sub.len() ==> sub[j] != self.delimiter);
                assert(last_index_of(sub, self.delimiter) == i - 1);
            }
            let piece = copy_range(&self.source, i, self.end);
            self.end = i - 1;
            proof {
                assert(piece@ =~= sub.subrange(i as int, sub.len() as int));
                assert(self.source@.subrange(0, i - 1) =~= sub.subrange(0, i - 1));
            }
            Some(piece)
        } else {
            proof {
                assert(forall|j: int| 0 <= j < sub.len() ==> sub[j] != self.delimiter);
                assert(last_index_of(sub, self.delimiter) == -1);
            }
            let piece = copy_range(&self.source, 0, self.end);
            self.end = 0;
            proof {
                assert(piece@ =~= sub);
                assert(self.source@.subrange(0, 0) =~= Seq::<u8>::empty());
            }
            Some(piece)
        }
    }
}

/// Returns the index of the first `d` in `source[from..to)`, or `to`.
pub(crate) fn scan_for(source: &Vec<u8>, from: usize, to: usize, d: u8) -> (i: usize)
    requires
        from <= to <= source@.len(),
    ensures
        from <= i <= to,
        forall|j: int| from <= j < i ==> source@[j] != d,
        i < to ==> source@[i as int] == d,
{
    let mut i = from;
    while i < to
        invariant
            from <= i <= to <= source@.len(),
            forall|j: int| from <= j < i ==> source@[j] != d,
        decreases to - i,
    {
        if source[i] == d {
            return i;
        }
        i = i + 1;
    }
    i
}

/// Returns one past the index of the last `d` in `source[0..to)`, or `0`.
fn rscan_for(source: &Vec<u8>, to: usize, d: u8) -> (i: usize)
    requires
        to <= source@.len(),
    ensures
        i <= to,
        forall|j: int| i <= j < to ==> source@[j] != d,
        i > 0 ==> source@[i - 1] == d,
{
    let mut i = to;
    while i > 0
        invariant
            i <= to <= source@.len(),
            forall|j: int| i <= j < to ==> source@[j] != d,
        decreases i,
    {
        if source[i - 1] == d {
            return i;
        }
        i = i - 1;
    }
    i
}

/// Copies `source[from..to]` into a fresh vector.
pub fn copy_range(source: &Vec<u8>, from: usize, to: usize) -> (r: Vec<u8>)
    requires
        from <= to <= source@.len(),
    ensures
        r@ == source@.subrange(from as int, to as int),
{
    let mut out: Vec<u8> = Vec::new();
    let mut i = from;
    while i < to
        invariant
            from <= i <= to <= source@.len(),
            out@ == source@.subrange(from as int, i as int),
        decreases to - i,
    {
        out.push(source[i]);
        proof {
            assert(out@ =~= source@.subrange(from as int, i + 1));
        }
        i = i + 1;
    }
    out
}

} // verus!
