//! One snapshot of head pose, eye gaze and blend shapes.
//!
//! A frame is generic in its numbers: the library decides which number goes
//! where and never computes with them. A frame read from text carries them
//! as [`Numeral`]s, the way the wire wrote them.

use crate::decimal::is_decimal_literal;
use vstd::prelude::*;

verus! {

/// A number as a tracking source wrote it.
#[derive(Clone, Debug, PartialEq, Eq)]
pub enum Numeral {
    /// A whole number of hundredths.
    Percent(i16),
    /// A number written out in decimal notation.
    Decimal(String),
}

/// What a [`Numeral`] says.
pub enum NumeralView {
    Percent(i16),
    Decimal(Seq<char>),
}

impl View for Numeral {
    type V = NumeralView;

    open spec fn view(&self) -> NumeralView {
        match *self {
            Numeral::Percent(p) => NumeralView::Percent(p),
            Numeral::Decimal(text) => NumeralView::Decimal(text@),
        }
    }
}

/// Whether a numeral can be read as a number: a written-out one has to be a
/// decimal literal.
pub open spec fn readable(numeral: NumeralView) -> bool {
    match numeral {
        NumeralView::Percent(_) => true,
        NumeralView::Decimal(text) => is_decimal_literal(text),
    }
}

/// Three coordinates.
#[derive(Clone, Debug, PartialEq, Eq)]
pub struct Cords<N> {
    pub x: N,
    pub y: N,
    pub z: N,
}

/// What three written coordinates say.
pub struct CordsView {
    pub x: NumeralView,
    pub y: NumeralView,
    pub z: NumeralView,
}

impl View for Cords<Numeral> {
    type V = CordsView;

    open spec fn view(&self) -> CordsView {
        CordsView { x: self.x@, y: self.y@, z: self.z@ }
    }
}

/// A named blend-shape value.
#[derive(Clone, Debug, PartialEq, Eq)]
pub struct Shape<N> {
    pub k: String,
    pub v: N,
}

/// What a written blend shape says.
pub struct ShapeView {
    pub k: Seq<char>,
    pub v: NumeralView,
}

impl View for Shape<Numeral> {
    type V = ShapeView;

    open spec fn view(&self) -> ShapeView {
        ShapeView { k: self.k@, v: self.v@ }
    }
}

/// One tracking frame.
#[derive(Clone, Debug, PartialEq, Eq)]
pub struct TrackingResponse<N> {
    /// Seconds since the epoch at which the frame was taken in.
    pub timestamp: u64,
    /// Reserved.
    pub hotkey: i16,
    pub face_found: bool,
    /// Head rotation in degrees.
    pub rotation: Cords<N>,
    /// Head position.
    pub position: Cords<N>,
    /// Gaze of the left eye.
    pub eye_left: Cords<N>,
    pub blend_shapes: Vec<Shape<N>>,
}

/// What a written frame says.
pub struct FrameView {
    pub timestamp: u64,
    pub hotkey: i16,
    pub face_found: bool,
    pub rotation: CordsView,
    pub position: CordsView,
    pub eye_left: CordsView,
    pub blend_shapes: Seq<ShapeView>,
}

impl View for TrackingResponse<Numeral> {
    type V = FrameView;

    open spec fn view(&self) -> FrameView {
        FrameView {
            timestamp: self.timestamp,
            hotkey: self.hotkey,
            face_found: self.face_found,
            rotation: self.rotation@,
            position: self.position@,
            eye_left: self.eye_left@,
            blend_shapes: self.blend_shapes@.map_values(|shape: Shape<Numeral>| shape@),
        }
    }
}

} // verus!
