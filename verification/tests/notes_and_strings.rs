use outlap_qss::strings::{contains_name, position_of, push_decimal, push_new_notes};

fn s(v: &[&str]) -> Vec<String> {
    v.iter().map(|x| (*x).to_owned()).collect()
}

#[test]
fn decimal_rendering() {
    for (n, t) in [(0usize, "0"), (7, "7"), (10, "10"), (2350, "2350"), (usize::MAX, "18446744073709551615")] {
        let mut out = "n=".to_owned();
        push_decimal(&mut out, n);
        assert_eq!(out, format!("n={t}"));
    }
}

#[test]
fn name_lookup() {
    let names = s(&["a", "b", "a"]);
    assert!(contains_name(&names, &"b".to_owned()));
    assert!(!contains_name(&names, &"c".to_owned()));
    assert_eq!(position_of(&names, &"a".to_owned()), Some(0));
    assert_eq!(position_of(&names, &"b".to_owned()), Some(1));
    assert_eq!(position_of(&names, &"z".to_owned()), None);
}

#[test]
fn notes_are_surfaced_once() {
    let mut notes = s(&["brush tyre ignores camber", "x"]);
    push_new_notes(&mut notes, &s(&["x", "brush tyre ignores camber", "y", "y", "z"]));
    assert_eq!(notes, s(&["brush tyre ignores camber", "x", "y", "z"]));
}

#[test]
fn merging_into_empty_dedups_in_order() {
    let mut notes = Vec::new();
    push_new_notes(&mut notes, &s(&["b", "a", "b"]));
    assert_eq!(notes, s(&["b", "a"]));
    push_new_notes(&mut notes, &Vec::new());
    assert_eq!(notes, s(&["b", "a"]));
}
