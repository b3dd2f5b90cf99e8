//! The tour record: a name and an ordered track of coordinates.
//!
//! Latitude, longitude and altitude travel through the pipeline as the decimal
//! text they are rendered with in the GPX output; the pipeline itself never
//! computes with them.

use vstd::prelude::*;

verus! {

/// One track point: latitude, longitude (degrees) and altitude (meters),
/// each held as its decimal rendering.
#[derive(Debug, PartialEq, Eq)]
pub struct Coordinate {
    pub lat: String,
    pub lng: String,
    pub alt: String,
}

/// The mathematical value of a `Coordinate`: the three renderings as
/// character sequences.
pub struct CoordView {
    pub lat: Seq<char>,
    pub lng: Seq<char>,
    pub alt: Seq<char>,
}

impl View for Coordinate {
    type V = CoordView;

    open spec fn view(&self) -> CoordView {
        CoordView { lat: self.lat@, lng: self.lng@, alt: self.alt@ }
    }
}

/// A tour: its name and its track, in traversal order.
#[derive(Debug, PartialEq, Eq)]
pub struct Tour {
    pub name: String,
    pub coordinates: Vec<Coordinate>,
}

/// The mathematical value of a `Tour`.
pub struct TourView {
    pub name: Seq<char>,
    pub coordinates: Seq<CoordView>,
}

impl View for Tour {
    type V = TourView;

    open spec fn view(&self) -> TourView {
        TourView {
            name: self.name@,
            coordinates: Seq::new(self.coordinates@.len(), |i: int| self.coordinates@[i]@),
        }
    }
}

} // verus!
