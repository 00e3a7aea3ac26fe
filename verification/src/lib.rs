//! Verified booking-record enrichment pipeline.
//!
//! The library loads two reference datasets (a hotel directory stored as one
//! JSON object per line, and a room-name directory stored as headerless
//! pipe-delimited rows), builds lookup indices over them, and enriches each
//! row of a pipe-delimited input file into a semicolon-delimited output row
//! with derived fields: the normalized check-in date, the check-out date one
//! calendar day later, the occupant count (pax), the per-person price rounded
//! to two decimal places, and the merged room-type/meal label.
//!
//! All parsing, arithmetic and formatting is verified; reading and writing
//! files is left to the surrounding application.

pub mod dates;
pub mod enrich;
pub mod hotels;
pub mod index;
pub mod lines;
pub mod num;
pub mod pipeline;
pub mod price;
pub mod records;
pub mod room_names;

use vstd::prelude::*;

verus! {

/// Run configuration: where to read the booking rows and where to write the
/// enriched output. The application fills it from the command line; a missing
/// output name defaults to `output.csv` there.
pub struct Config {
    pub input_filename: String,
    pub output_filename: Option<String>,
}

} // verus!
