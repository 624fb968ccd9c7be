use libpts::evaluate::EvalError;
use libpts::filter::is_included;
use libpts::filter::select_enabled;
use libpts::suite::Ets;
use libpts::suite::Group;
use libpts::suite::Profile;
use libpts::suite::TestCase;

fn case(name: &str, mapping: &str) -> TestCase {
    TestCase {
        name: name.to_string(),
        mapping: mapping.to_string(),
        description: format!("description of {}", name),
    }
}

fn group(name: &str, testcases: Vec<TestCase>, groups: Vec<Group>) -> Group {
    Group {
        name: name.to_string(),
        groups,
        testcases,
    }
}

fn suite(groups: Vec<Group>) -> Ets {
    Ets {
        version: Some("1.0".to_string()),
        profile: Profile {
            name: "A2DP".to_string(),
            groups,
        },
    }
}

fn names_of(testcases: &Vec<&TestCase>) -> Vec<String> {
    testcases.iter().map(|t| t.name.clone()).collect()
}

fn strings(list: &[&str]) -> Vec<String> {
    list.iter().map(|name| name.to_string()).collect()
}

fn nested() -> Ets {
    let g2 = group("G2", vec![case("T2", "MISSING")], vec![]);
    let g1 = group("G1", vec![case("T1", "PRESENT")], vec![g2]);
    suite(vec![g1])
}

fn deep() -> Ets {
    let leaf_a = group("A1", vec![case("a1", "X"), case("a2", "Y")], vec![]);
    let leaf_b = group("A2", vec![case("b1", "X AND Y")], vec![]);
    let empty = group("E", vec![], vec![]);
    let a = group(
        "A",
        vec![case("t1", "X"), case("t2", "X OR Y")],
        vec![leaf_a, empty, leaf_b],
    );
    let inner = group("B1", vec![case("c1", "!X")], vec![]);
    let b = group("B", vec![], vec![inner]);
    let c = group("C", vec![case("d1", ""), case("d2", "Z")], vec![]);
    suite(vec![a, b, c])
}

fn x_true_y_false(name: &str) -> Option<bool> {
    match name {
        "X" => Some(true),
        "Y" => Some(false),
        _ => None,
    }
}

#[test]
fn group_yields_own_testcases_before_nested_ones() {
    let inner = group("inner", vec![case("n1", "A"), case("n2", "B")], vec![]);
    let outer = group("outer", vec![case("o1", "A"), case("o2", "B")], vec![inner]);
    let found = outer.testcases();
    assert_eq!(names_of(&found), strings(&["o1", "o2", "n1", "n2"]));
}

#[test]
fn group_without_content_yields_nothing() {
    let empty = group("empty", vec![], vec![]);
    assert!(empty.testcases().is_empty());
}

#[test]
fn group_traversal_is_depth_first() {
    let deepest = group("deepest", vec![case("z", "A")], vec![]);
    let first = group("first", vec![case("x", "A")], vec![deepest]);
    let second = group("second", vec![case("y", "A")], vec![]);
    let root = group("root", vec![case("r", "A")], vec![first, second]);
    assert_eq!(names_of(&root.testcases()), strings(&["r", "x", "z", "y"]));
}

#[test]
fn group_traversal_hands_out_the_testcases_themselves() {
    let root = group("root", vec![case("r", "A AND B")], vec![]);
    let found = root.testcases();
    assert_eq!(found.len(), 1);
    assert!(std::ptr::eq(found[0], &root.testcases[0]));
    assert_eq!(found[0].mapping, "A AND B");
    assert_eq!(found[0].description, "description of r");
}

#[test]
fn suite_traversal_follows_document_order() {
    let ets = deep();
    assert_eq!(
        names_of(&ets.testcases()),
        strings(&["t1", "t2", "a1", "a2", "b1", "c1", "d1", "d2"])
    );
}

#[test]
fn suite_without_groups_has_no_testcases() {
    let ets = suite(vec![]);
    assert!(ets.testcases().is_empty());
    assert!(ets.enabled_testcases(|_: &str| Some(true)).is_empty());
}

#[test]
fn traversal_is_restartable() {
    let ets = deep();
    let first = names_of(&ets.testcases());
    let second = names_of(&ets.testcases());
    assert_eq!(first, second);
    let group = &ets.profile.groups[0];
    assert_eq!(names_of(&group.testcases()), names_of(&group.testcases()));
}

#[test]
fn nested_group_with_unresolved_flag_is_left_out() {
    let ets = nested();
    let resolver = |name: &str| match name {
        "PRESENT" => Some(true),
        _ => None,
    };
    assert_eq!(names_of(&ets.testcases()), strings(&["T1", "T2"]));
    assert_eq!(ets.enabled_testcases(resolver), strings(&["T1"]));
}

#[test]
fn filter_keeps_traversal_order() {
    let ets = deep();
    assert_eq!(
        ets.enabled_testcases(x_true_y_false),
        strings(&["t1", "t2", "a1"])
    );
}

#[test]
fn filter_goes_on_after_a_failing_mapping() {
    let g = group(
        "G",
        vec![
            case("broken", "(A"),
            case("empty", ""),
            case("unknown", "NOWHERE"),
            case("odd", "1 + 1"),
            case("good", "A"),
        ],
        vec![],
    );
    let ets = suite(vec![g]);
    assert_eq!(
        ets.enabled_testcases(|name: &str| if name == "A" { Some(true) } else { None }),
        strings(&["good"])
    );
}

#[test]
fn filter_returns_a_subset_of_the_traversal() {
    let ets = deep();
    let all = names_of(&ets.testcases());
    let enabled = ets.enabled_testcases(x_true_y_false);
    assert!(enabled.len() <= all.len());
    for name in &enabled {
        assert!(all.contains(name));
    }
}

#[test]
fn filter_is_idempotent() {
    let ets = deep();
    let first = ets.enabled_testcases(x_true_y_false);
    let second = ets.enabled_testcases(x_true_y_false);
    assert_eq!(first, second);
}

#[test]
fn filter_with_nothing_known_enables_nothing() {
    let ets = deep();
    assert!(ets.enabled_testcases(|_: &str| None).is_empty());
}

#[test]
fn filter_does_not_remove_duplicate_names() {
    let g = group(
        "G",
        vec![case("same", "A"), case("other", "B"), case("same", "A")],
        vec![],
    );
    let ets = suite(vec![g]);
    assert_eq!(
        ets.enabled_testcases(|name: &str| Some(name == "A")),
        strings(&["same", "same"])
    );
}

#[test]
fn filter_leaves_out_the_empty_mapping_for_any_resolver() {
    let ets = suite(vec![group("G", vec![case("T", "")], vec![])]);
    assert!(ets.enabled_testcases(|_: &str| Some(true)).is_empty());
    assert!(ets.enabled_testcases(|_: &str| Some(false)).is_empty());
    assert!(ets.enabled_testcases(|_: &str| None).is_empty());
}

#[test]
fn only_a_successful_true_includes() {
    assert!(is_included(&Ok(true)));
    assert!(!is_included(&Ok(false)));
    assert!(!is_included(&Err(EvalError::Syntax)));
    assert!(!is_included(&Err(EvalError::UnresolvedVariable)));
    assert!(!is_included(&Err(EvalError::Unsupported)));
}

#[test]
fn select_enabled_names_the_included_testcases() {
    let a = case("a", "");
    let b = case("b", "");
    let c = case("c", "");
    let d = case("d", "");
    let testcases = vec![&a, &b, &c, &d];
    let results = vec![
        Ok(true),
        Ok(false),
        Err(EvalError::UnresolvedVariable),
        Ok(true),
    ];
    assert_eq!(select_enabled(&testcases, &results), strings(&["a", "d"]));
}

#[test]
fn select_enabled_of_nothing_is_empty() {
    let testcases: Vec<&TestCase> = vec![];
    let results: Vec<Result<bool, EvalError>> = vec![];
    assert!(select_enabled(&testcases, &results).is_empty());
}

#[test]
fn filter_leaves_out_a_mapping_with_a_power() {
    let g = group(
        "G",
        vec![case("power", "2 ^ 2 == 4"), case("plain", "2 * 2 == 4")],
        vec![],
    );
    let ets = suite(vec![g]);
    assert_eq!(
        ets.enabled_testcases(|_: &str| Some(true)),
        strings(&["plain"])
    );
}
