//! Trimming a track to one window.

use vstd::prelude::*;
use crate::cue::{cue_views, source_views, Cue, CueView, SourceCue, SourceCueView};
use crate::time::{TimePoint, TimeSpan};
use crate::window::Window;

verus! {

/// What becomes of one cue in the window that keeps `extent` milliseconds
/// from `start` on.
///
/// The cue is first moved so that `start` becomes zero. It is left out if it
/// then ends at zero or before, or starts at `extent` or later: a cue that
/// only touches an edge of the window has no part in it. Otherwise its start
/// is raised to zero and its end lowered to `extent` where they lie outside,
/// and a cue without text gets the empty text.
pub open spec fn trimmed_cue(c: SourceCueView, start: int, extent: int) -> Option<CueView> {
    let s = c.start - start;
    let e = c.end - start;
    if e <= 0 || s >= extent {
        None
    } else {
        Some(
            CueView {
                start: if s < 0 { 0 } else { s },
                end: if e > extent { extent } else { e },
                text: c.text_or_empty(),
            },
        )
    }
}

/// [`trimmed_cue`] for a fixed window, as a function of the cue.
pub open spec fn trimmer(start: int, extent: int) -> spec_fn(SourceCueView) -> Option<CueView> {
    |c: SourceCueView| trimmed_cue(c, start, extent)
}

/// The track that is left of `cues` in the window that keeps `extent`
/// milliseconds from `start` on: the cues that [`trimmed_cue`] keeps, each as
/// it leaves them, in the order in which they stand in `cues`.
pub open spec fn trimmed_track(cues: Seq<SourceCueView>, start: int, extent: int) -> Seq<CueView> {
    cues.filter_map(trimmer(start, extent))
}

/// For each cue of the trimmed track, the place in `cues` of the cue that it
/// was made from.
pub open spec fn origins(cues: Seq<SourceCueView>, start: int, extent: int) -> Seq<int>
    decreases cues.len(),
{
    if cues.len() == 0 {
        Seq::empty()
    } else {
        let front = origins(cues.drop_last(), start, extent);
        if trimmed_cue(cues.last(), start, extent) is Some {
            front.push(cues.len() - 1)
        } else {
            front
        }
    }
}

/// A cue as it stands, with the empty text where it has none.
pub open spec fn unmoved(c: SourceCueView) -> CueView {
    CueView { start: c.start, end: c.end, text: c.text_or_empty() }
}

/// A cue is left out exactly when, counted from the window's start, it ends
/// at zero or before, or starts at the window's extent or later. Both edges
/// of the window shut out what only touches them: a cue that starts at the
/// very instant at which the window ends is left out, however short it is,
/// and so is a cue that ends at the very instant at which the window starts.
pub proof fn lemma_left_out_iff_outside(c: SourceCueView, start: int, extent: int)
    ensures
        trimmed_cue(c, start, extent) is None <==> (c.end - start <= 0 || c.start - start
            >= extent),
        c.start - start >= extent ==> trimmed_cue(c, start, extent) is None,
        c.end - start <= 0 ==> trimmed_cue(c, start, extent) is None,
{
}

/// A cue that comes out has a part within the window: counted from the
/// window's start it ends after zero and starts before the window's extent.
/// Where the window's extent is not negative, it comes out ending after
/// zero.
pub proof fn lemma_kept_cue_reaches_into_window(c: SourceCueView, start: int, extent: int)
    ensures
        trimmed_cue(c, start, extent) is Some ==> 0 < c.end - start && c.start - start < extent,
        trimmed_cue(c, start, extent) matches Some(t) ==> (0 < extent ==> 0 < t.end),
{
}

/// Every cue is judged on its own: a track with one more cue at its end
/// yields what the track without it yields, and behind that the new cue as
/// trimmed, or nothing where the new cue is left out.
pub proof fn lemma_trimmed_track_push(
    cues: Seq<SourceCueView>,
    c: SourceCueView,
    start: int,
    extent: int,
)
    ensures
        trimmed_cue(c, start, extent) is None ==> trimmed_track(cues.push(c), start, extent)
            == trimmed_track(cues, start, extent),
        trimmed_cue(c, start, extent) matches Some(t) ==> trimmed_track(
            cues.push(c),
            start,
            extent,
        ) == trimmed_track(cues, start, extent).push(t),
{
    let all = cues.push(c);
    assert(all.drop_last() =~= cues);
    assert(all.last() == c);
    match trimmed_cue(c, start, extent) {
        Some(t) => {
            assert(trimmed_track(all, start, extent) =~= trimmed_track(cues, start, extent).push(
                t,
            ));
        },
        None => {},
    }
}

/// In a window whose extent is not negative, a cue that does not end before
/// it starts comes out with `0 <= start <= end <= extent`. Without either
/// condition the start is still not negative and the end still not beyond
/// the extent.
pub proof fn lemma_trimmed_cue_within_window(c: SourceCueView, start: int, extent: int)
    ensures
        trimmed_cue(c, start, extent) matches Some(t) ==> 0 <= t.start && t.end <= extent,
        trimmed_cue(c, start, extent) matches Some(t) ==> (0 <= extent && c.well_formed() ==> 0
            <= t.start <= t.end <= extent),
{
}

/// In a window whose extent is not negative, every cue of the trimmed track
/// lies within the window, `0 <= start <= end <= extent`, where no cue of the
/// track that is trimmed ends before it starts.
pub proof fn lemma_trimmed_track_within_window(
    cues: Seq<SourceCueView>,
    start: int,
    extent: int,
)
    requires
        0 <= extent,
        forall|i: int| 0 <= i < cues.len() ==> (#[trigger] cues[i]).well_formed(),
    ensures
        forall|k: int|
            0 <= k < trimmed_track(cues, start, extent).len() ==> 0 <= (#[trigger] trimmed_track(
                cues,
                start,
                extent,
            )[k]).start <= trimmed_track(cues, start, extent)[k].end <= extent,
    decreases cues.len(),
{
    if cues.len() > 0 {
        let front = cues.drop_last();
        let rest = trimmed_track(front, start, extent);
        let out = trimmed_track(cues, start, extent);
        assert forall|i: int| 0 <= i < front.len() implies (#[trigger] front[i]).well_formed() by {
            assert(front[i] == cues[i]);
        }
        lemma_trimmed_track_within_window(front, start, extent);
        assert(cues.last() == cues[cues.len() - 1]);
        lemma_trimmed_cue_within_window(cues.last(), start, extent);
        assert forall|k: int| 0 <= k < out.len() implies 0 <= (#[trigger] out[k]).start
            <= out[k].end <= extent by {
            if k < rest.len() {
                assert(out[k] == rest[k]);
            }
        }
    }
}

/// The trimmed track holds the cues that reach into the window, once each
/// and in the order in which they stand in the track that is trimmed:
/// [`origins`] names, for each cue that comes out, the cue that it was made
/// from; these places rise; and no cue that reaches into the window is
/// missing.
pub proof fn lemma_trimmed_track_keeps_order(cues: Seq<SourceCueView>, start: int, extent: int)
    ensures
        origins(cues, start, extent).len() == trimmed_track(cues, start, extent).len(),
        forall|k: int|
            0 <= k < origins(cues, start, extent).len() ==> 0 <= (#[trigger] origins(
                cues,
                start,
                extent,
            )[k]) < cues.len() && trimmed_cue(cues[origins(cues, start, extent)[k]], start, extent)
                == Some(trimmed_track(cues, start, extent)[k]),
        forall|j: int, k: int|
            0 <= j < k < origins(cues, start, extent).len() ==> (#[trigger] origins(
                cues,
                start,
                extent,
            )[j]) < (#[trigger] origins(cues, start, extent)[k]),
        forall|i: int|
            0 <= i < cues.len() && (#[trigger] trimmed_cue(cues[i], start, extent)) is Some
                ==> origins(cues, start, extent).contains(i),
    decreases cues.len(),
{
    if cues.len() > 0 {
        let n = cues.len() as int;
        let front = cues.drop_last();
        let from = origins(cues, start, extent);
        let from_front = origins(front, start, extent);
        let out = trimmed_track(cues, start, extent);
        let out_front = trimmed_track(front, start, extent);
        lemma_trimmed_track_keeps_order(front, start, extent);
        assert forall|k: int| 0 <= k < from.len() implies 0 <= (#[trigger] from[k]) < n
            && trimmed_cue(cues[from[k]], start, extent) == Some(out[k]) by {
            if k < from_front.len() {
                assert(from[k] == from_front[k]);
                assert(front[from_front[k]] == cues[from_front[k]]);
                assert(out[k] == out_front[k]);
            }
        }
        assert forall|j: int, k: int| 0 <= j < k < from.len() implies (#[trigger] from[j]) < (
        #[trigger] from[k]) by {
            assert(from[j] == from_front[j]);
            if k < from_front.len() {
                assert(from[k] == from_front[k]);
            }
        }
        assert forall|i: int|
            0 <= i < n && (#[trigger] trimmed_cue(cues[i], start, extent)) is Some implies from.contains(
            i,
        ) by {
            if i < n - 1 {
                assert(front[i] == cues[i]);
                assert(from_front.contains(i));
                let k = choose|k: int| 0 <= k < from_front.len() && from_front[k] == i;
                assert(from[k] == i);
            } else {
                assert(from[from.len() - 1] == i);
            }
        }
    }
}

/// A window that starts at zero and reaches beyond the track leaves the
/// track as it is, but that a cue without text gets the empty text. This
/// holds where no cue starts before zero, every cue ends after zero, every
/// cue starts before the window's extent, and none ends after it.
pub proof fn lemma_wide_window_keeps_track(cues: Seq<SourceCueView>, extent: int)
    requires
        forall|i: int|
            0 <= i < cues.len() ==> 0 <= (#[trigger] cues[i]).start < extent && 0 < cues[i].end
                <= extent,
    ensures
        trimmed_track(cues, 0, extent) == cues.map_values(|c: SourceCueView| unmoved(c)),
    decreases cues.len(),
{
    let same = cues.map_values(|c: SourceCueView| unmoved(c));
    if cues.len() == 0 {
        assert(trimmed_track(cues, 0, extent) =~= same);
    } else {
        let front = cues.drop_last();
        assert forall|i: int| 0 <= i < front.len() implies 0 <= (#[trigger] front[i]).start
            < extent && 0 < front[i].end <= extent by {
            assert(front[i] == cues[i]);
        }
        lemma_wide_window_keeps_track(front, extent);
        assert(cues.last() == cues[cues.len() - 1]);
        assert(trimmed_cue(cues.last(), 0, extent) == Some(unmoved(cues.last())));
        assert(trimmed_track(cues, 0, extent) =~= same);
    }
}

/// Trims one cue to `window`: `None` if the cue lies outside the window,
/// else the cue moved to the window's zero and clipped to the window.
pub fn trim_cue(cue: &SourceCue, window: &Window) -> (r: Option<Cue>)
    ensures
        r is Some <==> trimmed_cue(cue@, window.start@, window.extent@) is Some,
        r matches Some(c) ==> trimmed_cue(cue@, window.start@, window.extent@) == Some(c@),
{
    let s: i128 = cue.span.start.rebased(&window.start);
    let e: i128 = cue.span.end.rebased(&window.start);
    let extent: i128 = window.extent.msecs() as i128;
    if e <= 0 || s >= extent {
        return None;
    }
    let start: i64 = if s < 0 { 0 } else { s as i64 };
    let end: i64 = if e > extent { window.extent.msecs() } else { e as i64 };
    let span = TimeSpan::new(TimePoint::from_msecs(start), TimePoint::from_msecs(end));
    Some(Cue::new(span, cue.text_or_empty()))
}

/// Trims `subtitles` to `window` and appends what is left to `new_subtitles`.
///
/// The cues that were in `new_subtitles` stay where they are. Behind them
/// come the cues of `subtitles` that reach into the window, in their order,
/// each moved to the window's zero and clipped to the window.
pub fn trim_subtitles(subtitles: &Vec<SourceCue>, window: &Window, new_subtitles: &mut Vec<Cue>)
    ensures
        final(new_subtitles)@.len() >= old(new_subtitles)@.len(),
        final(new_subtitles)@.take(old(new_subtitles)@.len() as int) == old(new_subtitles)@,
        cue_views(final(new_subtitles)@) == cue_views(old(new_subtitles)@) + trimmed_track(
            source_views(subtitles@),
            window.start@,
            window.extent@,
        ),
{
    let ghost before = new_subtitles@;
    let ghost source = source_views(subtitles@);
    let ghost f = trimmer(window.start@, window.extent@);
    let n: usize = subtitles.len();
    let mut i: usize = 0;
    while i < n
        invariant
            i <= n,
            n == subtitles@.len(),
            source == source_views(subtitles@),
            f == trimmer(window.start@, window.extent@),
            new_subtitles@.len() >= before.len(),
            new_subtitles@.take(before.len() as int) == before,
            cue_views(new_subtitles@) == cue_views(before) + source.take(i as int).filter_map(f),
        decreases n - i,
    {
        let ghost so_far = new_subtitles@;
        proof {
            source.lemma_filter_map_take_succ(f, i as int);
        }
        match trim_cue(&subtitles[i], window) {
            Some(cue) => {
                new_subtitles.push(cue);
                assert(cue_views(new_subtitles@) =~= cue_views(so_far).push(cue@));
                assert(new_subtitles@.take(before.len() as int) =~= so_far.take(
                    before.len() as int,
                ));
            },
            None => {},
        }
        i = i + 1;
    }
    assert(source.take(n as int) =~= source);
}

} // verus!
