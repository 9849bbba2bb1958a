//! Verified notation model and engraving decisions for guitar tablature and staff display.
#![allow(unused_imports)]

pub mod accidentals;
pub mod display;
pub mod document;
pub mod error;
pub mod export;
pub mod glyphs;
pub mod guitar_pro;
pub mod interaction;
pub mod metadata;
pub mod notation;
pub mod numbered;
pub mod percussion;
pub mod rests;
pub mod score;
pub mod spans;
pub mod style;
pub mod text;
pub mod track;
pub mod validation;

pub use error::{ErrorKind, RenderError};
pub use notation::{
    Barre, Beaming, ChordDiagram, Clef, DisplayMode, Fade, FermataKind, LayoutMode, Navigation,
    NoteHead, Ornament, Ottava, Pedal, Pitch, Placement, PluckingTechnique, ScoreMetadata, Simile,
    SlideDirection, Span, SpanKind, StemDirection,
};
pub use track::{BeatAddress, Duration, Fret, Note, QuarterBeats, Selection};
pub use glyphs::MusicGlyph;
pub use interaction::{BeatTime, Interaction, PointerInput, ScoreBeatTime, ScoreInteraction};
pub use spans::{RenderState, SpanBeat, SpanNote, SpanTrack};
pub use style::{Color, ElementVisibility, FingeringMode, RenderStyle, TabRhythm};
pub use validation::MeasureHeader;
pub use score::{CrossStaffSpan, CrossStaffSpanKind, InstrumentBracket, InstrumentGroup, ScoreBeatAddress, ScoreSelection};
