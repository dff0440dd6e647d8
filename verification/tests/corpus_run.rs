use timetable_core::corpus::{reduce, sorted_entries, DocMap};
use timetable_core::correction::{
    corrected_artifact_used, correction_outcome, plan_correction, CorrectionAction,
    CorrectionOutcome,
};
use timetable_core::document::parse_document;
use timetable_core::triage::assess;
use timetable_core::{OperatingDays, SchoolRestriction, StopDetailsBus};

fn cv(s: &str) -> Vec<char> {
    s.chars().collect()
}

fn sv(v: &[char]) -> String {
    v.iter().collect()
}

fn rec(time: &str, line: &str, dest: &str, days: OperatingDays) -> StopDetailsBus {
    StopDetailsBus {
        time: cv(time),
        line: cv(line),
        destination: cv(dest),
        operating_days: days,
        school_restriction: SchoolRestriction::Normal,
    }
}

const BOUNDARY: &str = "Organizator:ZPGSA, ul. Piastowska 19a, Tel: 74 832 87 78";

#[test]
fn quality_triage_thresholds() {
    let good: String = "a".repeat(85) + &"\u{1}".repeat(15);
    assert!(assess(&good));
    let bad: String = "a".repeat(60) + &"\u{1}".repeat(40);
    assert!(!assess(&bad));
}

#[test]
fn quality_triage_empty_text_needs_correction() {
    assert!(!assess(""));
    assert!(!assess("   \n\t "));
}

#[test]
fn quality_triage_normalizes_whitespace_first() {
    // 85 words separated by newline runs: normalization collapses each run
    // to one space, so the sample is 85 letters and 84 spaces, all plausible.
    let text = vec!["a"; 85].join("\n\n\n");
    assert!(assess(&text));
}

#[test]
fn document_parse_recovers_weekday_records() {
    let text = format!(
        "LINIA: 5 KIERUNEK: Central Przystanek: Plaza 1001 Czas odjazdu \
         Dni robocze 6:15 7:05S {} trailing artifact",
        BOUNDARY
    );
    let dm = parse_document(&text);
    assert_eq!(dm.entries.len(), 1);
    let (id, recs) = &dm.entries[0];
    assert_eq!(sv(id), "1001");
    assert_eq!(recs.len(), 2);
    assert_eq!(sv(&recs[0].time), "06:15");
    assert_eq!(sv(&recs[0].destination), "Central");
    assert_eq!(recs[0].operating_days, OperatingDays::MonFri);
    assert_eq!(recs[0].school_restriction, SchoolRestriction::Normal);
    assert_eq!(sv(&recs[1].time), "07:05");
    assert_eq!(recs[1].school_restriction, SchoolRestriction::SchoolOnly);
}

#[test]
fn document_parse_uses_legend_for_destination_variant() {
    let text = format!(
        "LINIA: 7 KIERUNEK: Central Przystanek: Plaza 84 Czas odjazdu \
         Legenda: A - Kurs do: Downtown przez Midtown Operator: Q \
         Soboty 9:10A 10:20 {} tail",
        BOUNDARY
    );
    let dm = parse_document(&text);
    assert_eq!(dm.entries.len(), 1);
    let (id, recs) = &dm.entries[0];
    assert_eq!(sv(id), "84");
    assert_eq!(recs.len(), 2);
    assert_eq!(sv(&recs[0].destination), "Downtown");
    assert_eq!(recs[0].operating_days, OperatingDays::Saturday);
    assert_eq!(sv(&recs[1].destination), "Central");
}

#[test]
fn document_parse_collapses_whitespace_runs() {
    let spaced = format!(
        "LINIA: 5 KIERUNEK: Central Przystanek: Plaza 1001 Czas odjazdu Dni robocze 6:15 {} t",
        BOUNDARY
    );
    let ragged = format!(
        "LINIA:\n5\n KIERUNEK:\tCentral\n Przystanek:  Plaza\n1001  Czas odjazdu\nDni robocze\n6:15 {} t",
        BOUNDARY
    );
    assert_eq!(parse_document(&spaced).entries, parse_document(&ragged).entries);
}

#[test]
fn document_parse_is_idempotent() {
    let text = format!(
        "LINIA: 5 KIERUNEK: Central Przystanek: Plaza 1001 Czas odjazdu \
         Dni robocze 6:15 Niedziele i święta 8:00W {} tail",
        BOUNDARY
    );
    let once = parse_document(&text);
    let twice = parse_document(&text);
    assert_eq!(once.entries, twice.entries);
}

#[test]
fn document_without_boundary_contributes_nothing() {
    let dm = parse_document("LINIA: 5 KIERUNEK: C Przystanek: P 1 Czas Dni robocze 6:15");
    assert_eq!(dm.entries.len(), 0);
}

#[test]
fn malformed_segment_skipped_others_kept() {
    let text = format!(
        "no anchors in this segment {} LINIA: 2 KIERUNEK: Central Przystanek: Plaza 45. \
         Czas odjazdu Dni robocze 5:55 {} tail",
        BOUNDARY, BOUNDARY
    );
    let dm = parse_document(&text);
    assert_eq!(dm.entries.len(), 1);
    assert_eq!(sv(&dm.entries[0].0), "45");
    assert_eq!(dm.entries[0].1.len(), 1);
}

#[test]
fn end_to_end_two_documents_accumulate_under_one_stop() {
    let doc_a = format!(
        "LINIA: 5 KIERUNEK: Central Przystanek: Plaza 1001 Czas odjazdu Dni robocze 6:15 {} t",
        BOUNDARY
    );
    let doc_b = format!(
        "LINIA: 9 KIERUNEK: Harbor Przystanek: Plaza 1001 Czas odjazdu Soboty 7:40 {} t",
        BOUNDARY
    );
    let a = parse_document(&doc_a);
    let b = parse_document(&doc_b);
    let merged = reduce(vec![a, b]);
    let out = sorted_entries(merged);
    assert_eq!(out.len(), 1);
    let (id, recs) = &out[0];
    assert_eq!(sv(id), "1001");
    assert_eq!(recs.len(), 2);
    assert_eq!(sv(&recs[0].time), "06:15");
    assert_eq!(recs[0].operating_days, OperatingDays::MonFri);
    assert_eq!(sv(&recs[1].time), "07:40");
    assert_eq!(recs[1].operating_days, OperatingDays::Saturday);
}

#[test]
fn merge_of_disjoint_maps_is_order_independent() {
    let mut a = DocMap::new();
    a.add(cv("84"), vec![rec("06:15", "5", "Central", OperatingDays::MonFri)]);
    let mut b = DocMap::new();
    b.add(cv("1001"), vec![rec("07:40", "9", "Harbor", OperatingDays::Saturday)]);
    let mut a2 = DocMap::new();
    a2.add(cv("84"), vec![rec("06:15", "5", "Central", OperatingDays::MonFri)]);
    let mut b2 = DocMap::new();
    b2.add(cv("1001"), vec![rec("07:40", "9", "Harbor", OperatingDays::Saturday)]);
    let ab = sorted_entries(reduce(vec![a, b]));
    let ba = sorted_entries(reduce(vec![b2, a2]));
    assert_eq!(ab, ba);
}

#[test]
fn corpus_entries_sorted_by_identifier() {
    let mut m = DocMap::new();
    m.add(cv("84"), vec![rec("06:15", "5", "C", OperatingDays::MonFri)]);
    m.add(cv("338"), vec![rec("07:00", "5", "C", OperatingDays::MonFri)]);
    m.add(cv("1001"), vec![rec("08:00", "5", "C", OperatingDays::MonFri)]);
    m.add(cv("84"), vec![rec("09:00", "5", "C", OperatingDays::MonFri)]);
    let out = sorted_entries(m);
    let keys: Vec<String> = out.iter().map(|e| sv(&e.0)).collect();
    assert_eq!(keys, vec!["1001".to_string(), "338".to_string(), "84".to_string()]);
    let at84 = &out[2].1;
    assert_eq!(at84.len(), 2);
    assert_eq!(sv(&at84[0].time), "06:15");
    assert_eq!(sv(&at84[1].time), "09:00");
}

#[test]
fn correction_plan_and_outcomes() {
    assert_eq!(plan_correction(true, true), CorrectionAction::UseExisting);
    assert_eq!(plan_correction(true, false), CorrectionAction::UseExisting);
    assert_eq!(plan_correction(false, true), CorrectionAction::RunOcr);
    assert_eq!(plan_correction(false, false), CorrectionAction::Skip);
    assert_eq!(correction_outcome(true, false, false), CorrectionOutcome::AlreadyCorrected);
    assert_eq!(correction_outcome(false, true, true), CorrectionOutcome::Corrected);
    assert_eq!(correction_outcome(false, true, false), CorrectionOutcome::Failed);
    assert_eq!(correction_outcome(false, false, false), CorrectionOutcome::Skipped);
    assert!(corrected_artifact_used(CorrectionOutcome::Corrected));
    assert!(corrected_artifact_used(CorrectionOutcome::AlreadyCorrected));
    assert!(!corrected_artifact_used(CorrectionOutcome::Failed));
    assert!(!corrected_artifact_used(CorrectionOutcome::Skipped));
}
