use timetable_core::departure::parse_token;
use timetable_core::legend::{resolve_legend, Legend};
use timetable_core::normalize::{canonical_destination, correct_identifier};
use timetable_core::{OperatingDays, SchoolRestriction};

fn cv(s: &str) -> Vec<char> {
    s.chars().collect()
}

fn sv(v: &[char]) -> String {
    v.iter().collect()
}

#[test]
fn token_time_is_zero_padded_five_chars() {
    let lg = Legend::new();
    let r = parse_token(&cv("6:15"), &lg, &cv("Central"), &cv("5"), OperatingDays::MonFri)
        .expect("valid token");
    assert_eq!(sv(&r.time), "06:15");
    assert_eq!(r.time.len(), 5);
    let r2 = parse_token(&cv("12:45"), &lg, &cv("Central"), &cv("5"), OperatingDays::MonFri)
        .expect("valid token");
    assert_eq!(sv(&r2.time), "12:45");
    assert_eq!(r2.time.len(), 5);
}

#[test]
fn token_suffix_decoding() {
    let mut lg = Legend::new();
    lg.insert('A', cv("Downtown"));
    let r = parse_token(&cv("6:15AW"), &lg, &cv("Central"), &cv("5"), OperatingDays::MonFri)
        .expect("valid token");
    assert_eq!(sv(&r.destination), "Downtown");
    assert_eq!(r.school_restriction, SchoolRestriction::FreeDayOnly);
    assert_eq!(sv(&r.time), "06:15");

    let empty = Legend::new();
    let r2 = parse_token(&cv("7:05"), &empty, &cv("Central"), &cv("5"), OperatingDays::MonFri)
        .expect("valid token");
    assert_eq!(sv(&r2.destination), "Central");
    assert_eq!(r2.school_restriction, SchoolRestriction::Normal);
}

#[test]
fn token_school_only_suffix() {
    let lg = Legend::new();
    let r = parse_token(&cv("7:30S"), &lg, &cv("Central"), &cv("3"), OperatingDays::Saturday)
        .expect("valid token");
    assert_eq!(r.school_restriction, SchoolRestriction::SchoolOnly);
    assert_eq!(r.operating_days, OperatingDays::Saturday);
    assert_eq!(sv(&r.line), "3");
}

#[test]
fn malformed_token_is_skipped_not_fatal() {
    let lg = Legend::new();
    assert!(parse_token(&cv(""), &lg, &cv("C"), &cv("5"), OperatingDays::MonFri).is_none());
    assert!(parse_token(&cv("abc"), &lg, &cv("C"), &cv("5"), OperatingDays::MonFri).is_none());
    assert!(parse_token(&cv("6:15x"), &lg, &cv("C"), &cv("5"), OperatingDays::MonFri).is_none());
    assert!(parse_token(&cv("6:1"), &lg, &cv("C"), &cv("5"), OperatingDays::MonFri).is_none());
}

#[test]
fn destination_normalizer_rewrites_known_variants() {
    assert_eq!(
        sv(&canonical_destination(&cv("Dzierżoniów dworzec PKP"))),
        "Dzierżoniów Dworzec PKP"
    );
    assert_eq!(
        sv(&canonical_destination(&cv("Owiesno Kościół. Nie kursuje"))),
        "Owiesno Kościół"
    );
    assert_eq!(sv(&canonical_destination(&cv("Jodłownik Jodłownik"))), "Jodłownik");
    assert_eq!(sv(&canonical_destination(&cv("Byszów 221/81"))), "Byszów 221");
}

#[test]
fn destination_normalizer_strips_service_note_only() {
    assert_eq!(sv(&canonical_destination(&cv("Plaza. Nie kursuje"))), "Plaza");
    assert_eq!(sv(&canonical_destination(&cv("Plaza"))), "Plaza");
}

#[test]
fn identifier_correction_disambiguates_by_destination() {
    let a = correct_identifier(
        &cv("X"),
        &cv("Dzierżoniów Piłsudskiego"),
        &cv("337-338"),
    );
    let b = correct_identifier(&cv("X"), &cv("Książnica 27"), &cv("337-338"));
    assert_eq!(sv(&a), "338");
    assert_eq!(sv(&b), "337");
    assert_ne!(a, b);
}

#[test]
fn identifier_correction_tables() {
    assert_eq!(sv(&correct_identifier(&cv("Jędrzejowice"), &cv("D"), &cv("99"))), "5001");
    assert_eq!(sv(&correct_identifier(&cv("X"), &cv("Dobrocin Szkoła"), &cv("221"))), "5005");
    assert_eq!(sv(&correct_identifier(&cv("X"), &cv("D"), &cv("(hotel)"))), "6000");
    assert_eq!(sv(&correct_identifier(&cv("X"), &cv("D"), &cv("284."))), "284");
    assert_eq!(sv(&correct_identifier(&cv("X"), &cv("D"), &cv("999"))), "84");
    assert_eq!(sv(&correct_identifier(&cv("X"), &cv("D"), &cv("plain"))), "plain");
}

#[test]
fn legend_resolves_cued_entries_and_drops_others() {
    let text = cv("intro Legenda: A - Kurs do: Downtown przez Midtown B - no cue here Operator: Z");
    let lg = resolve_legend(&text);
    assert_eq!(sv(lg.get('A').expect("entry for A")), "Downtown");
    assert!(lg.get('B').is_none());
    assert!(lg.get('C').is_none());
}

#[test]
fn legend_without_section_is_empty() {
    let lg = resolve_legend(&cv("no anchors at all"));
    assert!(lg.get('A').is_none());
    let lg2 = resolve_legend(&cv("Legenda: A - Kurs do: X but no closing anchor"));
    assert!(lg2.get('A').is_none());
}

#[test]
fn legend_value_normalized_and_later_entry_wins() {
    let text = cv("Legenda: A - Kurs do: Niemcza dworzec PKP A - Kurs do: Plaza Operator: Z");
    let lg = resolve_legend(&text);
    assert_eq!(sv(lg.get('A').expect("entry for A")), "Plaza");
    let one = resolve_legend(&cv("Legenda: A - Kurs do: Niemcza dworzec PKP Operator: Z"));
    assert_eq!(sv(one.get('A').expect("entry for A")), "Niemcza Dworzec PKP");
}
