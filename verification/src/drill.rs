//! Drill programs: the data model, and the stages that read Excellon text,
//! merge programs by plating class and write the canonical dialect.
//!
//! Every length is held as a whole number of steps of 10⁻⁵ mm, the
//! resolution of the canonical dialect: coordinates as `i64`, diameters as
//! `u64`.

use vstd::prelude::*;

pub mod altium;
pub mod coordinate;
pub mod detect;
pub mod emit;
pub mod grammar;
pub mod kicad;
pub mod merge;
pub mod process;
pub mod round_trip;
pub mod route;
pub mod tools;

pub use altium::parse_ad_excellon;
pub use coordinate::parse_ad_coordinate;
pub use detect::{detect_drill_eda, is_drill_file, is_through_drill};
pub use emit::{generate_jlc_excellon, generate_jlc_excellon_with_header};
pub use kicad::parse_kicad_excellon;
pub use merge::{merge_and_split_drills, merge_operations_by_diameter};
pub use process::{process_drill_files, process_drill_files_with_headers};

verus! {

/// One millimetre, in steps.
pub const STEPS_PER_MM: u64 = 100_000;

/// Plating class of a hole.
#[derive(Debug, Clone, Copy, PartialEq, Eq, Structural)]
pub enum HoleType {
    /// Plated through hole.
    Plated,
    /// Non-plated through hole.
    NonPlated,
}

/// The unit a drill file declares.
#[derive(Debug, Clone, Copy, PartialEq, Eq, Structural)]
pub enum DrillUnit {
    Inch,
    Metric,
}

/// One machining step. Coordinates are in steps of 10⁻⁵ mm.
#[derive(Debug, Clone, Copy, PartialEq, Eq, Structural)]
pub enum DrillCommand {
    /// A drilled hole.
    Hole { x: i64, y: i64 },
    /// A routed slot from a start point to an end point.
    Slot { start_x: i64, start_y: i64, end_x: i64, end_y: i64 },
}

/// One tool and the commands it carries out.
#[derive(Debug, Clone)]
pub struct DrillOperation {
    /// Tool diameter in steps of 10⁻⁵ mm.
    pub diameter: u64,
    pub hole_type: HoleType,
    pub commands: Vec<DrillCommand>,
}

/// A drill program: one operation per tool, in tool order.
#[derive(Debug, Clone)]
pub struct DrillFile {
    pub operations: Vec<DrillOperation>,
}

/// What processing a set of drill files gives.
#[derive(Debug)]
pub struct DrillResult {
    pub pth_content: Option<String>,
    pub npth_content: Option<String>,
    pub warnings: Vec<String>,
}

/// The tool a drill file was exported from.
#[derive(Debug, Clone, Copy, PartialEq, Eq, Structural)]
pub enum DrillEdaType {
    Altium,
    KiCad,
    Unknown,
}

/// The mathematical content of a [`DrillOperation`].
pub struct Operation {
    pub diameter: u64,
    pub hole_type: HoleType,
    pub commands: Seq<DrillCommand>,
}

impl View for DrillOperation {
    type V = Operation;

    open spec fn view(&self) -> Operation {
        Operation { diameter: self.diameter, hole_type: self.hole_type, commands: self.commands@ }
    }
}

/// The views of a vector of operations.
pub open spec fn operation_views(ops: Seq<DrillOperation>) -> Seq<Operation> {
    Seq::new(ops.len(), |i: int| ops[i]@)
}

impl View for DrillFile {
    type V = Seq<Operation>;

    open spec fn view(&self) -> Seq<Operation> {
        operation_views(self.operations@)
    }
}

} // verus!
