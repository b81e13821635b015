use jev_ncr_demo::double::Double;
use jev_ncr_demo::form::{
    analysis_details, analysis_headline, asks_for_description, auto_selected_count, has_more,
    suggested_codes, toggle_label, visible_codes, Fetches, NcrForm, SuggestedDefectCode,
};
use jev_ncr_demo::ncr::{DefectCode, DefectCodeSuggestion, Suggestion};
use jev_ncr_demo::text::{decimal_text, parse_unsigned, place, same_text, Place};
use jev_ncr_demo::text_map::TextMap;

fn code(id: &str, selected: bool) -> SuggestedDefectCode {
    SuggestedDefectCode {
        id: id.to_owned(),
        title: format!("title of {id}"),
        description: format!("description of {id}"),
        selected,
        confidence: Double { bits: 0 },
    }
}

fn codes(n: usize) -> Vec<SuggestedDefectCode> {
    (0..n).map(|i| code(&format!("D-{i}"), i < 2)).collect()
}

fn ids(codes: &[SuggestedDefectCode]) -> Vec<&str> {
    codes.iter().map(|code| code.id.as_str()).collect()
}

#[test]
fn suggestions_keep_their_order() {
    let item = |id: &str, selected: bool, bits: u64| DefectCodeSuggestion {
        defect_code: DefectCode {
            id: id.to_owned(),
            title: format!("title of {id}"),
            description: format!("description of {id}"),
        },
        selected,
        confidence: Double { bits },
    };
    let suggestion = Suggestion { defect_codes: vec![item("b", true, 7), item("a", false, 5)] };
    let codes = suggested_codes(suggestion);
    assert_eq!(ids(&codes), vec!["b", "a"]);
    assert_eq!(codes[0].title, "title of b");
    assert_eq!(codes[1].description, "description of a");
    assert!(codes[0].selected);
    assert_eq!(codes[1].confidence.bits, 5);
}

#[test]
fn the_form_starts_with_an_example() {
    let form = NcrForm::default();
    assert_eq!(form.date, "Sept 19, 2026");
    assert_eq!(form.time, "07:24 PM");
    assert_eq!(form.location, "Line 3 - Assembly");
    assert_eq!(form.severity, "Medium");
    assert_eq!(form.suspected_cause, "Handling / Transportation");
    assert_eq!(form.affected_part, "Housing (Metal)");
    assert_eq!(form.recommended_action, "Rework / Refinish");
    assert!(form.selected_defects.is_empty());
    assert!(form.description.starts_with("During final inspection"));
    assert_eq!(form.char_count(), form.description.chars().count());
}

#[test]
fn codes_are_toggled() {
    let mut form = NcrForm::default();
    form.toggle_defect("a".to_owned());
    form.toggle_defect("b".to_owned());
    assert_eq!(form.selected_defects, vec!["a", "b"]);
    assert!(form.is_selected("a"));
    form.toggle_defect("a".to_owned());
    assert_eq!(form.selected_defects, vec!["b"]);
    assert!(!form.is_selected("a"));
    form.toggle_defect("c".to_owned());
    form.toggle_defect("c".to_owned());
    assert_eq!(form.selected_defects, vec!["b"]);
    assert_eq!(form.severity, "Medium");
}

#[test]
fn codes_are_removed_wherever_they_are() {
    let mut form = NcrForm::default();
    form.selected_defects = vec!["a".to_owned(), "b".to_owned(), "a".to_owned()];
    form.remove_defect("a");
    assert_eq!(form.selected_defects, vec!["b"]);
    form.remove_defect("x");
    assert_eq!(form.selected_defects, vec!["b"]);
}

#[test]
fn an_analysis_replaces_the_selection() {
    let mut form = NcrForm::default();
    form.toggle_defect("manual".to_owned());
    form.select_suggested(&codes(4));
    assert_eq!(form.selected_defects, vec!["D-0", "D-1"]);
    form.select_suggested(&Vec::new());
    assert!(form.selected_defects.is_empty());
}

#[test]
fn selected_codes_are_found_by_id() {
    let mut form = NcrForm::default();
    form.selected_defects = vec!["D-2".to_owned(), "unknown".to_owned(), "D-0".to_owned()];
    let all = codes(3);
    assert_eq!(ids(&form.selected_codes(&all)), vec!["D-2", "D-0"]);
    assert!(form.selected_codes(&Vec::new()).is_empty());
}

#[test]
fn characters_are_counted() {
    let mut form = NcrForm::default();
    form.description = "é".to_owned();
    assert_eq!(form.char_count(), 1);
    form.description = "é…a".to_owned();
    assert_eq!(form.char_count(), 3);
    form.description = String::new();
    assert_eq!(form.char_count(), 0);
}

#[test]
fn the_best_matches_are_shown() {
    assert_eq!(ids(&visible_codes(Some(codes(7)), false)), ids(&codes(5)));
    assert_eq!(visible_codes(Some(codes(7)), true), codes(7));
    assert_eq!(visible_codes(Some(codes(3)), false), codes(3));
    assert!(visible_codes(None, true).is_empty());
}

#[test]
fn labels_say_how_the_analysis_stands() {
    assert_eq!(analysis_headline(true, true), "AI analysis failed");
    assert_eq!(analysis_headline(false, true), "AI Autofill Complete");
    assert_eq!(analysis_headline(false, false), "Analyzing description...");
    assert_eq!(analysis_details(Some("why".to_owned()), &Some(codes(3))), "why");
    assert_eq!(
        analysis_details(None, &Some(codes(3))),
        "Found 2 high-confidence defect codes and additional details."
    );
    assert_eq!(
        analysis_details(None, &None),
        "Suggesting defect codes and related information."
    );
    assert_eq!(auto_selected_count(&Some(codes(1))), 1);
    assert_eq!(auto_selected_count(&None), 0);
    assert!(asks_for_description(&Some(Vec::new())));
    assert!(!asks_for_description(&Some(codes(1))));
    assert!(!asks_for_description(&None));
    assert!(has_more(&Some(codes(6))));
    assert!(!has_more(&Some(codes(5))));
    assert!(!has_more(&None));
    assert_eq!(toggle_label(true, &Some(codes(6))), " Show fewer suggestions");
    assert_eq!(toggle_label(false, &Some(codes(6))), " Show all 6 suggestions");
    assert_eq!(toggle_label(false, &None), " Show all 0 suggestions");
}

#[test]
fn a_slow_fetch_does_not_clear_the_flag() {
    let mut fetches = Fetches::new();
    assert!(fetches.fetching);
    let slow = fetches.start();
    let fast = fetches.start();
    assert_ne!(slow, fast);
    fetches.finish(slow);
    assert!(fetches.fetching);
    fetches.finish(fast);
    assert!(!fetches.fetching);
    fetches.start();
    assert!(fetches.fetching);
}

#[test]
fn text_maps_are_kept_in_order() {
    let mut map = TextMap::new();
    for (key, number) in [("b", 1), ("", 2), ("é", 3), ("ab", 4), ("b", 5)] {
        map.insert(key.to_owned(), number);
    }
    assert_eq!(map.len(), 4);
    assert_eq!(map.get("b"), Some(&5));
    assert_eq!(map.get("B"), None);
    let copy = map.clone();
    assert_eq!(copy, map);
    let keys: Vec<String> = map.into_entries().into_iter().map(|(key, _)| key).collect();
    assert_eq!(keys, vec!["", "ab", "b", "é"]);
    assert!(TextMap::<u8>::new().is_empty());
}

#[test]
fn texts_compare_as_strings_do() {
    let texts = ["", "a", "aa", "b", "B", "é", "z", "\u{10ffff}", "\u{ffff}"];
    for a in texts {
        for b in texts {
            let expected = if a < b {
                Place::Before
            } else if a == b {
                Place::Same
            } else {
                Place::After
            };
            assert_eq!(place(a, b), expected, "{a} {b}");
            assert_eq!(same_text(a, b), a == b);
        }
    }
}

#[test]
fn numbers_are_read_and_written() {
    for n in [0, 7, 10, 255, 1000, usize::MAX] {
        assert_eq!(decimal_text(n), n.to_string());
    }
    for text in [
        "0", "7", "+7", "007", "18446744073709551615", "18446744073709551616", "", "+", "-1", "1 ",
        "1.0", "٣", "99999999999999999999999", "++1",
    ] {
        assert_eq!(parse_unsigned(text), text.parse::<u64>().ok(), "{text}");
    }
}
