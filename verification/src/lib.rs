//! Verified core of a bus-timetable extraction pipeline.
//!
//! Raw text recovered from scanned timetable documents is triaged for
//! quality, parsed into per-stop departure records, and merged into one
//! deterministically ordered corpus map. All text handling here works on
//! sequences of characters and is specified over `Seq<char>` views; the
//! surrounding binary does the document I/O.

pub mod chars;
pub mod corpus;
pub mod correction;
pub mod departure;
pub mod document;
pub mod legend;
pub mod normalize;
pub mod text;
pub mod triage;

use vstd::prelude::*;

verus! {

/// Day-service category a departure belongs to.
#[derive(Clone, Copy, PartialEq, Eq, Structural, Debug)]
pub enum OperatingDays {
    MonFri,
    Saturday,
    Sunday,
}

/// School-calendar restriction carried by a departure's suffix code.
#[derive(Clone, Copy, PartialEq, Eq, Structural, Debug)]
pub enum SchoolRestriction {
    Normal,
    SchoolOnly,
    FreeDayOnly,
}

/// Mathematical view of one departure record.
pub ghost struct RecordView {
    pub time: Seq<char>,
    pub line: Seq<char>,
    pub destination: Seq<char>,
    pub operating_days: OperatingDays,
    pub school_restriction: SchoolRestriction,
}

/// One scheduled departure at one stop: a zero-padded `HH:MM` time, the line
/// identifier, the canonical destination, the day category and the
/// school-calendar restriction.
#[derive(Debug, PartialEq, Eq)]
pub struct StopDetailsBus {
    pub time: Vec<char>,
    pub line: Vec<char>,
    pub destination: Vec<char>,
    pub operating_days: OperatingDays,
    pub school_restriction: SchoolRestriction,
}

impl View for StopDetailsBus {
    type V = RecordView;

    open spec fn view(&self) -> RecordView {
        RecordView {
            time: self.time@,
            line: self.line@,
            destination: self.destination@,
            operating_days: self.operating_days,
            school_restriction: self.school_restriction,
        }
    }
}

/// The views of a sequence of records.
pub open spec fn recs_view(v: Seq<StopDetailsBus>) -> Seq<RecordView> {
    v.map_values(|r: StopDetailsBus| r@)
}

} // verus!
