use libpts::normalize::normalize;

#[test]
fn normalize_rewrites_and() {
    assert_eq!(normalize("FLAG_A AND FLAG_B"), "FLAG_A && FLAG_B");
}

#[test]
fn normalize_rewrites_or() {
    assert_eq!(normalize("FLAG_A OR FLAG_B"), "FLAG_A || FLAG_B");
}

#[test]
fn normalize_rewrites_every_occurrence() {
    assert_eq!(
        normalize("(A AND B) OR (C AND D) OR E"),
        "(A && B) || (C && D) || E"
    );
}

#[test]
fn normalize_keeps_the_empty_mapping_empty() {
    assert_eq!(normalize(""), "");
}

#[test]
fn normalize_leaves_other_text_alone() {
    assert_eq!(normalize("!FLAG_A && (b || c)"), "!FLAG_A && (b || c)");
}

#[test]
fn normalize_is_case_sensitive() {
    assert_eq!(normalize("a and b or c"), "a and b or c");
    assert_eq!(normalize("a And b Or c"), "a And b Or c");
}

#[test]
fn normalize_does_not_look_at_word_boundaries() {
    assert_eq!(normalize("BRAND"), "BR&&");
    assert_eq!(normalize("ORANGE"), "||ANGE");
    assert_eq!(normalize("VENDOR"), "VEND||");
    assert_eq!(normalize("SANDBOX"), "S&&BOX");
}

#[test]
fn normalize_handles_adjacent_keywords() {
    assert_eq!(normalize("ANDAND"), "&&&&");
    assert_eq!(normalize("OROR"), "||||");
    assert_eq!(normalize("ANDOR"), "&&||");
    assert_eq!(normalize("AAND"), "A&&");
    assert_eq!(normalize("ANAND"), "AN&&");
    assert_eq!(normalize("OOR"), "O||");
}

#[test]
fn normalize_handles_partial_keywords_at_the_end() {
    assert_eq!(normalize("AN"), "AN");
    assert_eq!(normalize("A"), "A");
    assert_eq!(normalize("O"), "O");
    assert_eq!(normalize("x AN"), "x AN");
}

#[test]
fn normalize_keeps_characters_outside_ascii() {
    assert_eq!(normalize("é AND ü"), "é && ü");
    assert_eq!(normalize("日本OR語"), "日本||語");
}

#[test]
fn normalize_agrees_with_two_textual_replacements() {
    let samples = [
        "",
        "FLAG_A AND FLAG_B",
        "FLAG_A OR FLAG_B",
        "BRAND OR ORANGE AND SANDBOX",
        "AANDORRANDOR",
        "ANDANDAND",
        "OROROR",
        "AOANRD",
        "(TSPC_A2DP_1_1 AND TSPC_A2DP_2_1) OR NOT TSPC_ALL",
        "é AND ü OR ANDY",
    ];
    for sample in samples {
        let expected = sample.replace("AND", "&&").replace("OR", "||");
        assert_eq!(normalize(sample), expected);
    }
}
