//! Cues and tracks.
//!
//! A track is a `Vec` of cues in the order in which they were read. Nothing
//! here asks that the cues be sorted or that they do not overlap.

use vstd::prelude::*;
use crate::time::TimeSpan;

verus! {

/// A cue as it was read from a subtitle file. Formats that hold pictures in
/// place of text deliver cues without text.
#[derive(Clone, Debug, PartialEq, Eq)]
pub struct SourceCue {
    pub span: TimeSpan,
    pub text: Option<String>,
}

/// A cue of an output track: a span and the text shown during it. The text
/// may be empty.
#[derive(Clone, Debug, PartialEq, Eq)]
pub struct Cue {
    pub span: TimeSpan,
    pub text: String,
}

/// What a [`SourceCue`] stands for: its times in milliseconds and its text,
/// where it has one.
pub struct SourceCueView {
    pub start: int,
    pub end: int,
    pub text: Option<Seq<char>>,
}

/// What a [`Cue`] stands for: its times in milliseconds and its text.
pub struct CueView {
    pub start: int,
    pub end: int,
    pub text: Seq<char>,
}

impl View for SourceCue {
    type V = SourceCueView;

    open spec fn view(&self) -> SourceCueView {
        SourceCueView {
            start: self.span.start@,
            end: self.span.end@,
            text: match self.text {
                Some(t) => Some(t@),
                None => None,
            },
        }
    }
}

impl View for Cue {
    type V = CueView;

    open spec fn view(&self) -> CueView {
        CueView { start: self.span.start@, end: self.span.end@, text: self.text@ }
    }
}

impl SourceCueView {
    /// The text of the cue, or the empty text where it has none.
    pub open spec fn text_or_empty(self) -> Seq<char> {
        match self.text {
            Some(t) => t,
            None => Seq::empty(),
        }
    }

    /// True if the cue does not end before it starts.
    pub open spec fn well_formed(self) -> bool {
        self.start <= self.end
    }
}

/// The cues of a source track, each by its view.
pub open spec fn source_views(cues: Seq<SourceCue>) -> Seq<SourceCueView> {
    cues.map_values(|c: SourceCue| c@)
}

/// The cues of an output track, each by its view.
pub open spec fn cue_views(cues: Seq<Cue>) -> Seq<CueView> {
    cues.map_values(|c: Cue| c@)
}

impl SourceCue {
    /// A cue shown during `span`, with `text` where it has one.
    pub fn new(span: TimeSpan, text: Option<String>) -> (c: SourceCue)
        ensures
            c.span == span,
            c.text == text,
    {
        SourceCue { span, text }
    }

    /// The text of the cue, copied, or the empty text where it has none.
    pub fn text_or_empty(&self) -> (t: String)
        ensures
            t@ == self@.text_or_empty(),
    {
        match &self.text {
            Some(t) => t.clone(),
            None => String::new(),
        }
    }
}

impl Cue {
    /// A cue that shows `text` during `span`.
    pub fn new(span: TimeSpan, text: String) -> (c: Cue)
        ensures
            c.span == span,
            c.text == text,
    {
        Cue { span, text }
    }
}

} // verus!
