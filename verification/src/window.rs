//! Windows: the stretches of a track that are kept, and the rules that a
//! list of them has to meet.

use vstd::prelude::*;
use crate::time::{fits_i64, TimeOffset, TimePoint};

verus! {

/// A stretch of a track's timeline that is to be kept: the material from
/// `start` on, for `extent` worth of time. In the output, `start` is the new
/// zero and `extent` the last instant.
#[derive(Clone, Copy, Debug, PartialEq, Eq, Structural)]
pub struct Window {
    pub start: TimeOffset,
    pub extent: TimePoint,
}

/// A stretch of a track's timeline given by its two ends, both counted
/// from the zero of that timeline.
#[derive(Clone, Copy, Debug, PartialEq, Eq, Structural)]
pub struct Block {
    pub start: TimePoint,
    pub end: TimePoint,
}

/// A rule that a list of blocks has to meet.
#[derive(Clone, Copy, Debug, PartialEq, Eq, Structural)]
pub enum WindowRule {
    /// A block ends after it starts.
    StartBeforeEnd,
    /// A block starts no earlier than the block before it ends. The first
    /// block has none before it and may start anywhere.
    AfterPrevious,
}

/// Why a list of blocks was refused: the place of the first block that
/// breaks a rule, and the first rule that it breaks.
#[derive(Clone, Copy, Debug, PartialEq, Eq, Structural)]
pub struct InvalidWindowError {
    pub index: usize,
    pub rule: WindowRule,
}

impl View for Block {
    type V = (int, int);

    open spec fn view(&self) -> (int, int) {
        (self.start@, self.end@)
    }
}

/// The blocks of a list, each as its pair of ends in milliseconds.
pub open spec fn block_views(blocks: Seq<Block>) -> Seq<(int, int)> {
    blocks.map_values(|b: Block| b@)
}

/// The first rule that block `i` breaks, if it breaks one.
pub open spec fn broken_rule(blocks: Seq<(int, int)>, i: int) -> Option<WindowRule> {
    if !(blocks[i].0 < blocks[i].1) {
        Some(WindowRule::StartBeforeEnd)
    } else if i >= 1 && !(blocks[i - 1].1 <= blocks[i].0) {
        Some(WindowRule::AfterPrevious)
    } else {
        None
    }
}

/// A list of blocks is valid if no block in it breaks a rule.
pub open spec fn blocks_valid(blocks: Seq<(int, int)>) -> bool {
    forall|i: int| 0 <= i < blocks.len() ==> (#[trigger] broken_rule(blocks, i)) is None
}

/// True if block `i` is the first in the list that breaks a rule.
pub open spec fn first_broken(blocks: Seq<(int, int)>, i: int) -> bool {
    &&& 0 <= i < blocks.len()
    &&& broken_rule(blocks, i) is Some
    &&& forall|j: int| 0 <= j < i ==> (#[trigger] broken_rule(blocks, j)) is None
}

/// True if the length of every block, from its start to its end, can be
/// held in an `i64` count of milliseconds.
pub open spec fn blocks_fit(blocks: Seq<(int, int)>) -> bool {
    forall|i: int| 0 <= i < blocks.len() ==> fits_i64((#[trigger] blocks[i]).1 - blocks[i].0)
}

/// In a valid list every block ends after it starts, and of two blocks the
/// earlier in the list ends before the later one starts or just as it
/// starts. So the blocks rise along the timeline and no two of them overlap.
pub proof fn lemma_valid_blocks_rise(blocks: Seq<(int, int)>)
    requires
        blocks_valid(blocks),
    ensures
        forall|i: int| 0 <= i < blocks.len() ==> (#[trigger] blocks[i]).0 < blocks[i].1,
        forall|i: int, j: int|
            0 <= i < j < blocks.len() ==> (#[trigger] blocks[i]).1 <= (#[trigger] blocks[j]).0,
    decreases blocks.len(),
{
    if blocks.len() > 0 {
        let n = blocks.len() as int;
        let front = blocks.drop_last();
        assert forall|i: int| 0 <= i < front.len() implies (#[trigger] broken_rule(
            front,
            i,
        )) is None by {
            assert(broken_rule(blocks, i) is None);
        }
        lemma_valid_blocks_rise(front);
        assert(broken_rule(blocks, n - 1) is None);
        assert forall|i: int| 0 <= i < blocks.len() implies (#[trigger] blocks[i]).0
            < blocks[i].1 by {
            if i < n - 1 {
                assert(front[i] == blocks[i]);
            }
        }
        assert forall|i: int, j: int| 0 <= i < j < blocks.len() implies (#[trigger] blocks[i]).1 <= (
        #[trigger] blocks[j]).0 by {
            if j < n - 1 {
                assert(front[i] == blocks[i] && front[j] == blocks[j]);
            } else if i < n - 2 {
                assert(front[i] == blocks[i] && front[n - 2] == blocks[n - 2]);
            }
        }
    }
}

impl Window {
    /// The window that keeps `extent` worth of time from `start` on.
    pub fn new(start: TimeOffset, extent: TimePoint) -> (w: Window)
        ensures
            w.start == start,
            w.extent == extent,
    {
        Window { start, extent }
    }
}

impl Block {
    /// The block from `start` to `end`. Nothing is checked.
    pub fn new(start: TimePoint, end: TimePoint) -> (b: Block)
        ensures
            b.start == start,
            b.end == end,
    {
        Block { start, end }
    }

    /// Tells whether the block's length, from its start to its end, can be
    /// held in an `i64` count of milliseconds.
    pub fn length_fits(&self) -> (b: bool)
        ensures
            b == fits_i64(self.end@ - self.start@),
    {
        self.end.msecs().checked_sub(self.start.msecs()).is_some()
    }

    /// The window that keeps this block: it starts where the block starts,
    /// and its extent is the block's length.
    pub fn window(&self) -> (w: Window)
        requires
            fits_i64(self.end@ - self.start@),
        ensures
            w.start@ == self.start@,
            w.extent@ == self.end@ - self.start@,
    {
        Window {
            start: TimeOffset::from_msecs(self.start.msecs()),
            extent: TimePoint::from_msecs(self.end.msecs() - self.start.msecs()),
        }
    }
}

/// Checks a list of blocks against the rules, from the first block on, and
/// stops at the first block that breaks one.
///
/// The list is accepted exactly when it is valid. Otherwise the error names
/// the first block that breaks a rule, and the first rule that this block
/// breaks.
pub fn validate_blocks(blocks: &[Block]) -> (r: Result<(), InvalidWindowError>)
    ensures
        r is Ok <==> blocks_valid(block_views(blocks@)),
        r matches Err(e) ==> first_broken(block_views(blocks@), e.index as int) && broken_rule(
            block_views(blocks@),
            e.index as int,
        ) == Some(e.rule),
{
    let ghost views = block_views(blocks@);
    let mut i: usize = 0;
    while i < blocks.len()
        invariant
            i <= blocks@.len(),
            views == block_views(blocks@),
            forall|j: int| 0 <= j < i ==> (#[trigger] broken_rule(views, j)) is None,
        decreases blocks@.len() - i,
    {
        let block = &blocks[i];
        assert(views[i as int] == block@);
        if !block.start.is_before(&block.end) {
            return Err(InvalidWindowError { index: i, rule: WindowRule::StartBeforeEnd });
        }
        if i > 0 {
            let previous = &blocks[i - 1];
            assert(views[i - 1] == previous@);
            if block.start.is_before(&previous.end) {
                return Err(InvalidWindowError { index: i, rule: WindowRule::AfterPrevious });
            }
        }
        i = i + 1;
    }
    Ok(())
}

/// Tells whether the length of every block can be held in an `i64` count of
/// milliseconds.
pub fn blocks_in_range(blocks: &[Block]) -> (b: bool)
    ensures
        b == blocks_fit(block_views(blocks@)),
{
    let ghost views = block_views(blocks@);
    let mut i: usize = 0;
    while i < blocks.len()
        invariant
            i <= blocks@.len(),
            views == block_views(blocks@),
            forall|j: int| 0 <= j < i ==> fits_i64((#[trigger] views[j]).1 - views[j].0),
        decreases blocks@.len() - i,
    {
        assert(views[i as int] == blocks[i as int]@);
        if !blocks[i].length_fits() {
            return false;
        }
        i = i + 1;
    }
    true
}

} // verus!
