//! Counting the lines of a log from its bytes.
//!
//! A line ends at a line feed; bytes that follow the last line feed form a
//! final line that counts too. The counter takes the content block by block,
//! so a caller never has to hold more than one block.

use vstd::prelude::*;

verus! {

/// The byte that ends a line.
pub const LINE_FEED: u8 = 0x0A;

/// How many line feeds `content` holds.
pub open spec fn terminators(content: Seq<u8>) -> nat
    decreases content.len(),
{
    if content.len() == 0 {
        0
    } else {
        terminators(content.drop_last()) + if content.last() == LINE_FEED {
            1nat
        } else {
            0nat
        }
    }
}

/// Whether `content` ends inside a line: it is not empty and its last byte is
/// no line feed.
pub open spec fn ends_open(content: Seq<u8>) -> bool {
    content.len() > 0 && content.last() != LINE_FEED
}

/// The number of lines of `content`: one for each line feed, and one more for
/// a final line without a line feed.
pub open spec fn line_count(content: Seq<u8>) -> nat {
    terminators(content) + if ends_open(content) {
        1nat
    } else {
        0nat
    }
}

/// The content made of the given lines, each followed by a line feed.
pub open spec fn terminated(lines: Seq<Seq<u8>>) -> Seq<u8>
    decreases lines.len(),
{
    if lines.len() == 0 {
        Seq::empty()
    } else {
        terminated(lines.drop_last()) + lines.last().push(LINE_FEED)
    }
}

/// Whether `line` holds no line feed.
pub open spec fn is_single_line(line: Seq<u8>) -> bool {
    forall|i: int| 0 <= i < line.len() ==> line[i] != LINE_FEED
}

/// A counter of lines that is fed the content of a log block by block.
pub struct LineCounter {
    total: usize,
    open: bool,
    content: Ghost<Seq<u8>>,
}

impl LineCounter {
    #[verifier::type_invariant]
    closed spec fn inv(&self) -> bool {
        &&& self.total == line_count(self.content@)
        &&& self.open == ends_open(self.content@)
    }

    /// Everything the counter has been fed, in order.
    pub closed spec fn content(&self) -> Seq<u8> {
        self.content@
    }

    /// A counter that has been fed nothing.
    pub fn new() -> (r: LineCounter)
        ensures
            r.content() == Seq::<u8>::empty(),
    {
        LineCounter { total: 0, open: false, content: Ghost(Seq::empty()) }
    }

    /// Feeds the next block of the content. The count has to stay within
    /// `usize`; a block adds at most one line for each of its bytes.
    pub fn feed(&mut self, block: &[u8])
        requires
            line_count(old(self).content()) + block.len() <= usize::MAX,
        ensures
            final(self).content() == old(self).content() + block@,
    {
        proof {
            use_type_invariant(&*self);
        }
        let ghost before = self.content@;
        let mut total = self.total;
        let mut open = self.open;
        let mut i: usize = 0;
        while i < block.len()
            invariant
                i <= block.len(),
                line_count(before) + block.len() <= usize::MAX,
                total == line_count(before + block@.take(i as int)),
                total <= line_count(before) + i,
                open == ends_open(before + block@.take(i as int)),
            decreases block.len() - i,
        {
            proof {
                assert((before + block@.take(i + 1)).drop_last() =~= before + block@.take(
                    i as int,
                ));
            }
            let byte = block[i];
            if !open {
                total += 1;
            }
            open = byte != LINE_FEED;
            i += 1;
        }
        proof {
            assert(block@.take(block.len() as int) =~= block@);
        }
        *self = LineCounter { total, open, content: Ghost(before + block@) };
    }

    /// The number of lines of the content fed so far.
    pub fn total(&self) -> (r: usize)
        ensures
            r == line_count(self.content()),
    {
        proof {
            use_type_invariant(self);
        }
        self.total
    }
}

/// Counts the lines of `content`.
pub fn count_lines(content: &[u8]) -> (r: usize)
    ensures
        r == line_count(content@),
{
    let mut counter = LineCounter::new();
    proof {
        lemma_line_count_bounded(content@);
    }
    counter.feed(content);
    counter.total()
}

/// Content has at most one line for each of its bytes.
pub proof fn lemma_line_count_bounded(content: Seq<u8>)
    ensures
        line_count(content) <= content.len(),
    decreases content.len(),
{
    if content.len() > 0 {
        lemma_line_count_bounded(content.drop_last());
    }
}

/// The line feeds of two pieces of content add up.
pub proof fn lemma_terminators_concat(first: Seq<u8>, second: Seq<u8>)
    ensures
        terminators(first + second) == terminators(first) + terminators(second),
    decreases second.len(),
{
    if second.len() > 0 {
        lemma_terminators_concat(first, second.drop_last());
        assert((first + second).drop_last() =~= first + second.drop_last());
    }
}

/// A line without a line feed holds none.
pub proof fn lemma_single_line_terminators(line: Seq<u8>)
    requires
        is_single_line(line),
    ensures
        terminators(line) == 0,
    decreases line.len(),
{
    if line.len() > 0 {
        lemma_single_line_terminators(line.drop_last());
    }
}

/// Content made of terminated lines has exactly that many lines.
pub proof fn lemma_terminated_line_count(lines: Seq<Seq<u8>>)
    requires
        forall|i: int| 0 <= i < lines.len() ==> is_single_line(#[trigger] lines[i]),
    ensures
        terminators(terminated(lines)) == lines.len(),
        !ends_open(terminated(lines)),
        line_count(terminated(lines)) == lines.len(),
    decreases lines.len(),
{
    if lines.len() > 0 {
        let earlier = lines.drop_last();
        lemma_terminated_line_count(earlier);
        let ending = lines.last().push(LINE_FEED);
        lemma_terminators_concat(terminated(earlier), ending);
        assert(ending.drop_last() =~= lines.last());
        lemma_single_line_terminators(lines.last());
    }
}

/// Content made of some terminated lines and one more line that is not empty
/// and not terminated has one line more than the terminated ones.
pub proof fn lemma_trailing_line_counts(lines: Seq<Seq<u8>>, trailing: Seq<u8>)
    requires
        forall|i: int| 0 <= i < lines.len() ==> is_single_line(#[trigger] lines[i]),
        is_single_line(trailing),
        trailing.len() > 0,
    ensures
        line_count(terminated(lines) + trailing) == lines.len() + 1,
{
    lemma_terminated_line_count(lines);
    lemma_terminators_concat(terminated(lines), trailing);
    lemma_single_line_terminators(trailing);
}

} // verus!
