use poly_router::scala::{
    default_kbm, div_rem_euclid, interval_text, key_degrees, mapping_or_default, parse_kbm_content,
    scl_degrees, IntervalText,
};

fn lines(v: &[&str]) -> Vec<String> {
    v.iter().map(|s| s.to_string()).collect()
}

fn default_scl() -> Vec<String> {
    lines(&[
        "!", "12 EDO", "12", "!", "100.0", "200.0", "300.0", "400.0", "500.0", "600.0", "700.0",
        "800.0", "900.0", "1000.0", "1100.0", "2/1",
    ])
}

fn default_kbm_text() -> Vec<String> {
    lines(&[
        "! Default KBM", "!Number of Mapped Notes", "0", "!Bottom Note", "0", "!Top Note", "127 ",
        "!MIDI note for mapping", "69 ", "!MIDI note for Tuning", "69 ", "!Tuning Frequency",
        "440.0 ", "!Formal Octave", "12 ", "!Mapping list:",
    ])
}

#[test]
fn twelve_edo_scale_has_twelve_degrees() {
    let d = scl_degrees(&default_scl()).unwrap();
    assert_eq!(d.len(), 12);
    assert_eq!(d[0], "100.0");
    assert_eq!(d[11], "2/1");
}

#[test]
fn scale_degrees_take_the_first_word_and_skip_blank_lines() {
    let d = scl_degrees(&lines(&["desc", "", "  2 ", "", "  150.0 cents", "! note", "3/2 fifth"]))
        .unwrap();
    assert_eq!(d, vec!["150.0".to_string(), "3/2".to_string()]);
}

#[test]
fn scale_stops_at_its_note_count() {
    let d = scl_degrees(&lines(&["d", "1", "100.0", "200.0"])).unwrap();
    assert_eq!(d, vec!["100.0".to_string()]);
    let d = scl_degrees(&lines(&["d", "3", "100.0"])).unwrap();
    assert_eq!(d, vec!["100.0".to_string()]);
}

#[test]
fn scale_errors() {
    assert_eq!(scl_degrees(&[]).unwrap_err(), "Missing SCL description");
    assert_eq!(scl_degrees(&lines(&["! only", "desc"])).unwrap_err(), "Missing SCL note count");
    assert_eq!(scl_degrees(&lines(&["desc", "", " "])).unwrap_err(), "Missing SCL note count");
    assert_eq!(scl_degrees(&lines(&["desc", "x"])).unwrap_err(), "Invalid SCL note count");
    assert_eq!(scl_degrees(&lines(&["desc", "-1"])).unwrap_err(), "Invalid SCL note count");
    assert_eq!(scl_degrees(&lines(&["desc", "0"])).unwrap_err(), "0-note unsupported.");
}

#[test]
fn default_mapping_text_parses() {
    let k = parse_kbm_content(&default_kbm_text()).unwrap();
    assert_eq!(k.map_size, 0);
    assert_eq!(k.first_note, 0);
    assert_eq!(k.last_note, 127);
    assert_eq!(k.middle_note, 69);
    assert_eq!(k.ref_note, 69);
    assert_eq!(k.ref_freq, "440.0");
    assert_eq!(k.formal_octave, 12);
    assert!(k.mapping.is_empty());
}

#[test]
fn mapping_entries_allow_x() {
    let k = parse_kbm_content(&lines(&["3", "0", "127", "60", "69", "440", "5", "0", "x", "X rest", "2"]))
        .unwrap();
    assert_eq!(k.mapping, vec![Some(0), None, None]);
    let k = parse_kbm_content(&lines(&["3", "0", "127", "60", "69", "440", "5", "4"])).unwrap();
    assert_eq!(k.mapping, vec![Some(4)]);
}

#[test]
fn mapping_errors() {
    assert_eq!(parse_kbm_content(&[]).unwrap_err(), "Incomplete KBM data");
    assert_eq!(parse_kbm_content(&lines(&["a"])).unwrap_err(), "Invalid map size");
    assert_eq!(parse_kbm_content(&lines(&["0", "a"])).unwrap_err(), "Invalid first note");
    assert_eq!(parse_kbm_content(&lines(&["0", "0", "a"])).unwrap_err(), "Invalid last note");
    assert_eq!(parse_kbm_content(&lines(&["0", "0", "1", "a"])).unwrap_err(), "Invalid middle note");
    assert_eq!(
        parse_kbm_content(&lines(&["0", "0", "1", "2", "a"])).unwrap_err(),
        "Invalid reference note"
    );
    assert_eq!(
        parse_kbm_content(&lines(&["0", "0", "1", "2", "3", "a"])).unwrap_err(),
        "Invalid reference frequency"
    );
    assert_eq!(
        parse_kbm_content(&lines(&["0", "0", "1", "2", "3", "4.0", "a"])).unwrap_err(),
        "Invalid formal octave"
    );
    assert_eq!(
        parse_kbm_content(&lines(&["1", "0", "1", "2", "3", "4.0", "5", "y"])).unwrap_err(),
        "Invalid map step"
    );
    assert_eq!(
        parse_kbm_content(&lines(&["0", "0", "1", "2", "3", "4.0"])).unwrap_err(),
        "Incomplete KBM data"
    );
}

#[test]
fn default_mapping_plays_every_key_from_its_middle_note() {
    let k = default_kbm(12);
    assert_eq!(k.formal_octave, 12);
    let d = key_degrees(&k).unwrap();
    assert_eq!(d.reference, 0);
    assert_eq!(d.keys.len(), 128);
    assert_eq!(d.keys[69], Some(0));
    assert_eq!(d.keys[0], Some(-69));
    assert_eq!(d.keys[127], Some(58));
}

#[test]
fn mapping_repeats_every_map_size_keys() {
    let k = parse_kbm_content(&lines(&["3", "60", "70", "60", "60", "440", "7", "0", "x", "2"])).unwrap();
    let d = key_degrees(&k).unwrap();
    assert_eq!(d.reference, 0);
    assert_eq!(d.keys[59], None);
    assert_eq!(d.keys[60], Some(0));
    assert_eq!(d.keys[61], None);
    assert_eq!(d.keys[62], Some(2));
    assert_eq!(d.keys[63], Some(7));
    assert_eq!(d.keys[65], Some(9));
    assert_eq!(d.keys[70], None);
    assert_eq!(d.keys[71], None);
}

#[test]
fn unmapped_reference_key_is_an_error() {
    let k = parse_kbm_content(&lines(&["2", "0", "127", "60", "61", "440", "12", "0", "x"])).unwrap();
    assert_eq!(key_degrees(&k).unwrap_err(), "Reference Note maps to 'x'.");
}

#[test]
fn euclidean_division() {
    assert_eq!(div_rem_euclid(-7, 3), (-3, 2));
    assert_eq!(div_rem_euclid(7, -3), (-2, 1));
    assert_eq!(div_rem_euclid(-7, -3), (3, 2));
    assert_eq!(div_rem_euclid(7, 3), (2, 1));
}

#[test]
fn interval_forms() {
    match interval_text("100.0").unwrap() {
        IntervalText::Cents(c) => assert_eq!(c, "100.0"),
        _ => panic!("cents expected"),
    }
    match interval_text("3/2").unwrap() {
        IntervalText::Ratio(a, b) => assert_eq!((a.as_str(), b.as_str()), ("3", "2")),
        _ => panic!("ratio expected"),
    }
    match interval_text("7\\12").unwrap() {
        IntervalText::Edo(a, b) => assert_eq!((a.as_str(), b.as_str()), ("7", "12")),
        _ => panic!("edo expected"),
    }
    match interval_text("2").unwrap() {
        IntervalText::Plain(a) => assert_eq!(a, "2"),
        _ => panic!("plain expected"),
    }
    match interval_text("3/2/5").unwrap() {
        IntervalText::Ratio(a, b) => assert_eq!((a.as_str(), b.as_str()), ("3", "2")),
        _ => panic!("ratio expected"),
    }
}

fn interval_error(t: &str) -> String {
    match interval_text(t) {
        Ok(_) => panic!("error expected for {}", t),
        Err(e) => e,
    }
}

#[test]
fn interval_errors() {
    assert_eq!(interval_error("abc.d"), "Invalid cents");
    assert_eq!(interval_error("3.5/2"), "Invalid cents");
    assert_eq!(interval_error("a/2"), "Invalid numerator");
    assert_eq!(interval_error("3/"), "Invalid denominator");
    assert_eq!(interval_error("x\\12"), "Invalid steps");
    assert_eq!(interval_error("7\\y"), "Invalid edo");
    assert_eq!(interval_error("abc"), "Invalid interval ratio");
}

#[test]
fn unparsable_mapping_gives_way_to_the_default() {
    let k = mapping_or_default(&lines(&["not a mapping"]), 7);
    assert_eq!(k.map_size, 0);
    assert_eq!(k.first_note, 0);
    assert_eq!(k.last_note, 127);
    assert_eq!(k.middle_note, 69);
    assert_eq!(k.ref_note, 69);
    assert_eq!(k.ref_freq, "440.0");
    assert_eq!(k.formal_octave, 7);
    assert!(k.mapping.is_empty());
    let k = mapping_or_default(&lines(&["3", "0", "127", "60", "69", "440", "5", "0", "x", "2"]), 7);
    assert_eq!(k.map_size, 3);
    assert_eq!(k.formal_octave, 5);
    assert_eq!(k.mapping, vec![Some(0), None, Some(2)]);
}
