use ocr_translate::definition::parse_definition;

#[test]
fn leading_parenthetical_becomes_part_of_speech() {
    let (pos, translation) = parse_definition("(n) your self");
    assert_eq!(pos, "n");
    assert_eq!(translation, "your self");
}

#[test]
fn inline_pattern_does_not_match_plain_word() {
    let (pos, translation) = parse_definition("(pron) hello there");
    assert_eq!(pos, "pron");
    assert_eq!(translation, "hello there");
}

#[test]
fn no_parenthetical_keeps_text_verbatim() {
    let (pos, translation) = parse_definition("v. to run fast");
    assert_eq!(pos, "N/A");
    assert_eq!(translation, "v. to run fast");
}

#[test]
fn inline_tag_overrides_parenthesized_group() {
    let (pos, translation) = parse_definition("(vt) n. a greeting");
    assert_eq!(pos, "n");
    assert_eq!(translation, "a greeting");
}

#[test]
fn inline_tag_is_case_insensitive() {
    let (pos, translation) = parse_definition("(x) ADV. quickly");
    assert_eq!(pos, "ADV");
    assert_eq!(translation, "quickly");
}

#[test]
fn leading_space_before_parenthetical_is_skipped() {
    let (pos, translation) = parse_definition("  (adj) bright");
    assert_eq!(pos, "adj");
    assert_eq!(translation, "bright");
}

#[test]
fn empty_group_gives_empty_part_of_speech() {
    let (pos, translation) = parse_definition("() bright");
    assert_eq!(pos, "");
    assert_eq!(translation, "bright");
}

#[test]
fn unclosed_parenthesis_keeps_text_verbatim() {
    let (pos, translation) = parse_definition("(n unfinished");
    assert_eq!(pos, "N/A");
    assert_eq!(translation, "(n unfinished");
}

#[test]
fn rest_stops_at_line_break() {
    let (pos, translation) = parse_definition("(n) first line\nsecond line");
    assert_eq!(pos, "n");
    assert_eq!(translation, "first line");
}
