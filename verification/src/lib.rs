//! Extracts a tour (name and coordinate track) from a route-planning site's
//! HTML page and renders it as a GPX 1.1 track document.

use vstd::prelude::*;

pub mod extract;
pub mod gpx;
pub mod laws;
pub mod json;
pub mod tour;

pub use extract::ExtractError;
pub use extract::ExtractOutcome;
pub use extract::extract;
pub use gpx::build_gpx;
pub use gpx::filename_for;
pub use json::JsonValue;
pub use tour::Coordinate;
pub use tour::CoordView;
pub use tour::Tour;
pub use tour::TourView;

verus! {

/// One pipeline run over a fetched page: extracts the tour and renders it,
/// yielding the output filename (derived from the tour's name) and the GPX
/// document to write under it, or the extraction failure.
pub fn komoot_to_file(body: &str) -> (r: Result<(String, String), ExtractError>)
    ensures
        match r {
            Ok(f) => extract::extract_spec(body@) matches ExtractOutcome::Tour(t)
                && f.0@ == gpx::gpx_filename(t.name) && f.1@ == gpx::gpx_spec(t),
            Err(e) => match e {
                ExtractError::PatternNotFound => extract::extract_spec(body@)
                    == ExtractOutcome::PatternNotFound,
                ExtractError::MalformedJson(_) => extract::extract_spec(body@)
                    == ExtractOutcome::MalformedJson,
                ExtractError::MissingField(f) => extract::extract_spec(body@)
                    == ExtractOutcome::MissingField(f@),
                ExtractError::InvalidCoordinate(i) => extract::extract_spec(body@)
                    == ExtractOutcome::InvalidCoordinate(i as int),
            },
        },
{
    let tour = match extract::extract(body) {
        Ok(t) => t,
        Err(e) => {
            return Err(e);
        },
    };
    let name = gpx::filename_for(tour.name.as_str());
    let doc = gpx::build_gpx(&tour);
    Ok((name, doc))
}

} // verus!
