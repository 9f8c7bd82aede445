//! Extracting one window, or a list of blocks, from a track.

use vstd::prelude::*;
use crate::cue::{cue_views, source_views, Cue, CueView, SourceCue, SourceCueView};
use crate::trim::{lemma_trimmed_track_within_window, trim_subtitles, trimmed_track};
use crate::window::{
    block_views, blocks_fit, blocks_in_range, blocks_valid, broken_rule, first_broken,
    validate_blocks, Block, InvalidWindowError, Window,
};

verus! {

/// What is to be extracted from a track.
#[derive(Clone, Debug, PartialEq, Eq)]
pub enum WindowRequest {
    /// One window, taken as it is given.
    Single(Window),
    /// A list of blocks, which has to be valid. Each block is cut out on its
    /// own, and the cuts are put one behind the other.
    Multiple(Vec<Block>),
}

/// The track that is left of `cues` in one block: the block's start becomes
/// zero, and the block's length is the extent.
pub open spec fn extracted_block(cues: Seq<SourceCueView>, block: (int, int)) -> Seq<CueView> {
    trimmed_track(cues, block.0, block.1 - block.0)
}

/// The track made of what is left of `cues` in each block of `blocks`, in
/// the order of the blocks. Every block counts its times from its own start.
pub open spec fn extracted_blocks(cues: Seq<SourceCueView>, blocks: Seq<(int, int)>) -> Seq<
    CueView,
>
    decreases blocks.len(),
{
    if blocks.len() == 0 {
        Seq::empty()
    } else {
        extracted_blocks(cues, blocks.drop_last()) + extracted_block(cues, blocks.last())
    }
}

/// The track that `request` asks for, where the request is one that
/// [`extract`] accepts.
pub open spec fn extracted(cues: Seq<SourceCueView>, request: WindowRequest) -> Seq<CueView> {
    match request {
        WindowRequest::Single(w) => trimmed_track(cues, w.start@, w.extent@),
        WindowRequest::Multiple(blocks) => extracted_blocks(cues, block_views(blocks@)),
    }
}

/// True if [`extract`] accepts `request`: a single window always, a list
/// of blocks where it is valid.
pub open spec fn request_valid(request: WindowRequest) -> bool {
    match request {
        WindowRequest::Single(_) => true,
        WindowRequest::Multiple(blocks) => blocks_valid(block_views(blocks@)),
    }
}

/// True if what `request` asks for can be counted: in a valid list of
/// blocks, the length of every block can be held in an `i64` count of
/// milliseconds. A cue may come out as long as the block it is cut from.
pub open spec fn request_in_range(request: WindowRequest) -> bool {
    match request {
        WindowRequest::Single(_) => true,
        WindowRequest::Multiple(blocks) => blocks_valid(block_views(blocks@)) ==> blocks_fit(
            block_views(blocks@),
        ),
    }
}

/// The place in `blocks` of the block that cue `k` of the extracted track
/// was cut from.
pub open spec fn block_of(cues: Seq<SourceCueView>, blocks: Seq<(int, int)>, k: int) -> int
    decreases blocks.len(),
{
    if blocks.len() == 0 {
        0
    } else if k < extracted_blocks(cues, blocks.drop_last()).len() {
        block_of(cues, blocks.drop_last(), k)
    } else {
        blocks.len() - 1
    }
}

/// Cutting out two lists of blocks one after the other gives the same track
/// as cutting out the one list made of both: what a block yields does not
/// depend on the blocks around it, and the yields stand in the order of the
/// blocks.
pub proof fn lemma_extracted_blocks_concat(
    cues: Seq<SourceCueView>,
    a: Seq<(int, int)>,
    b: Seq<(int, int)>,
)
    ensures
        extracted_blocks(cues, a + b) == extracted_blocks(cues, a) + extracted_blocks(cues, b),
    decreases b.len(),
{
    if b.len() == 0 {
        assert(a + b =~= a);
        assert(extracted_blocks(cues, a) + extracted_blocks(cues, b) =~= extracted_blocks(
            cues,
            a,
        ));
    } else {
        assert((a + b).drop_last() =~= a + b.drop_last());
        assert((a + b).last() == b.last());
        lemma_extracted_blocks_concat(cues, a, b.drop_last());
        assert(extracted_blocks(cues, a + b) =~= extracted_blocks(cues, a) + extracted_blocks(
            cues,
            b,
        ));
    }
}

/// A list of one block yields what that block yields.
pub proof fn lemma_extracted_blocks_single(cues: Seq<SourceCueView>, block: (int, int))
    ensures
        extracted_blocks(cues, seq![block]) == extracted_block(cues, block),
{
    let one = seq![block];
    assert(one.drop_last() =~= Seq::<(int, int)>::empty());
    assert(extracted_blocks(cues, one.drop_last()) =~= Seq::<CueView>::empty());
    assert(extracted_blocks(cues, one) =~= extracted_block(cues, block));
}

/// Every cue that a valid list of blocks yields lies within the block that
/// it was cut from, counted from that block's start: where no cue of the
/// track that is cut ends before it starts, `0 <= start <= end <= length`,
/// with `length` the distance from the block's start to its end. The cues
/// stand in the order of the blocks that they were cut from.
pub proof fn lemma_extracted_blocks_within(cues: Seq<SourceCueView>, blocks: Seq<(int, int)>)
    requires
        blocks_valid(blocks),
        forall|i: int| 0 <= i < cues.len() ==> (#[trigger] cues[i]).well_formed(),
    ensures
        forall|k: int|
            0 <= k < extracted_blocks(cues, blocks).len() ==> ({
                let i = #[trigger] block_of(cues, blocks, k);
                &&& 0 <= i < blocks.len()
                &&& 0 <= extracted_blocks(cues, blocks)[k].start
                &&& extracted_blocks(cues, blocks)[k].start <= extracted_blocks(cues, blocks)[k].end
                &&& extracted_blocks(cues, blocks)[k].end <= blocks[i].1 - blocks[i].0
            }),
        forall|j: int, k: int|
            0 <= j <= k < extracted_blocks(cues, blocks).len() ==> (#[trigger] block_of(
                cues,
                blocks,
                j,
            )) <= (#[trigger] block_of(cues, blocks, k)),
    decreases blocks.len(),
{
    if blocks.len() > 0 {
        let n = blocks.len() as int;
        let front = blocks.drop_last();
        let last = blocks.last();
        let out = extracted_blocks(cues, blocks);
        let out_front = extracted_blocks(cues, front);
        let out_last = extracted_block(cues, last);
        assert(blocks[n - 1] == last);
        assert(broken_rule(blocks, n - 1) is None);
        assert forall|i: int| 0 <= i < front.len() implies (#[trigger] broken_rule(
            front,
            i,
        )) is None by {
            assert(broken_rule(blocks, i) is None);
        }
        lemma_extracted_blocks_within(cues, front);
        lemma_trimmed_track_within_window(cues, last.0, last.1 - last.0);
        assert forall|k: int| 0 <= k < out.len() implies ({
            let i = #[trigger] block_of(cues, blocks, k);
            &&& 0 <= i < blocks.len()
            &&& 0 <= out[k].start
            &&& out[k].start <= out[k].end
            &&& out[k].end <= blocks[i].1 - blocks[i].0
        }) by {
            if k < out_front.len() {
                assert(out[k] == out_front[k]);
                let i = block_of(cues, front, k);
                assert(front[i] == blocks[i]);
            } else {
                assert(out[k] == out_last[k - out_front.len()]);
            }
        }
        assert forall|j: int, k: int| 0 <= j <= k < out.len() implies (#[trigger] block_of(
            cues,
            blocks,
            j,
        )) <= (#[trigger] block_of(cues, blocks, k)) by {
            if k < out_front.len() {
                assert(block_of(cues, front, j) <= block_of(cues, front, k));
            } else if j < out_front.len() {
                let i = block_of(cues, front, j);
                assert(0 <= i < front.len());
            }
        }
    }
}

/// The track that is left of `track` in `window`.
pub fn extract_window(track: &Vec<SourceCue>, window: &Window) -> (out: Vec<Cue>)
    ensures
        cue_views(out@) == trimmed_track(source_views(track@), window.start@, window.extent@),
{
    let mut out: Vec<Cue> = Vec::new();
    trim_subtitles(track, window, &mut out);
    assert(cue_views(out@) =~= trimmed_track(
        source_views(track@),
        window.start@,
        window.extent@,
    ));
    out
}

/// Cuts every block of `blocks` out of `track` and puts the cuts one behind
/// the other, in the order of the blocks.
///
/// The list of blocks is checked first. Where it is not valid nothing is cut,
/// and the error is the one that [`validate_blocks`] gives.
///
/// A valid list has to hold blocks whose lengths can be counted, which
/// [`blocks_in_range`] tells.
pub fn extract_blocks(track: &Vec<SourceCue>, blocks: &[Block]) -> (r: Result<
    Vec<Cue>,
    InvalidWindowError,
>)
    requires
        blocks_valid(block_views(blocks@)) ==> blocks_fit(block_views(blocks@)),
    ensures
        r is Ok <==> blocks_valid(block_views(blocks@)),
        r matches Ok(out) ==> cue_views(out@) == extracted_blocks(
            source_views(track@),
            block_views(blocks@),
        ),
        r matches Err(e) ==> first_broken(block_views(blocks@), e.index as int) && broken_rule(
            block_views(blocks@),
            e.index as int,
        ) == Some(e.rule),
{
    match validate_blocks(blocks) {
        Err(e) => {
            return Err(e);
        },
        Ok(()) => {},
    }
    let ghost views = block_views(blocks@);
    let ghost cues = source_views(track@);
    let mut out: Vec<Cue> = Vec::new();
    assert(cue_views(out@) =~= extracted_blocks(cues, views.take(0)));
    let mut i: usize = 0;
    while i < blocks.len()
        invariant
            i <= blocks@.len(),
            views == block_views(blocks@),
            cues == source_views(track@),
            blocks_fit(views),
            cue_views(out@) == extracted_blocks(cues, views.take(i as int)),
        decreases blocks@.len() - i,
    {
        let block = &blocks[i];
        assert(views[i as int] == block@);
        let window = block.window();
        let ghost so_far = cue_views(out@);
        trim_subtitles(track, &window, &mut out);
        proof {
            let upto = views.take(i + 1);
            assert(upto.drop_last() =~= views.take(i as int));
            assert(upto.last() == views[i as int]);
            assert(cue_views(out@) =~= so_far + extracted_block(cues, views[i as int]));
        }
        i = i + 1;
    }
    assert(views.take(i as int) =~= views);
    Ok(out)
}

/// Extracts from `track` what `request` asks for.
///
/// A single window is trimmed as it is given. A list of blocks is checked
/// first; where it is valid, every block is cut out on its own and the cuts
/// are put one behind the other, and where it is not, nothing is produced
/// and the error names the first block that breaks a rule and that rule.
///
/// The request has to be in range, which [`in_range`] tells.
pub fn extract(track: &Vec<SourceCue>, request: &WindowRequest) -> (r: Result<
    Vec<Cue>,
    InvalidWindowError,
>)
    requires
        request_in_range(*request),
    ensures
        r is Ok <==> request_valid(*request),
        r matches Ok(out) ==> cue_views(out@) == extracted(source_views(track@), *request),
        r matches Err(e) ==> (request matches WindowRequest::Multiple(blocks) && first_broken(
            block_views(blocks@),
            e.index as int,
        ) && broken_rule(block_views(blocks@), e.index as int) == Some(e.rule)),
{
    match request {
        WindowRequest::Single(window) => Ok(extract_window(track, window)),
        WindowRequest::Multiple(blocks) => extract_blocks(track, blocks.as_slice()),
    }
}

/// Tells whether the length of every block of `request` can be counted. A
/// request for which this holds is in range.
pub fn in_range(request: &WindowRequest) -> (b: bool)
    ensures
        b ==> request_in_range(*request),
        b == match *request {
            WindowRequest::Single(_) => true,
            WindowRequest::Multiple(blocks) => blocks_fit(block_views(blocks@)),
        },
{
    match request {
        WindowRequest::Single(_) => true,
        WindowRequest::Multiple(blocks) => blocks_in_range(blocks.as_slice()),
    }
}

} // verus!
