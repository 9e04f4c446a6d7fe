use parser_core::outcome::{failure, success};

#[test]
fn success_reports_no_failure() {
    let o = success(5);
    assert!(!o.is_failure());
    assert_eq!(*o.value(), Some(5));
    assert_eq!(o.get_failures().len(), 0);
}

#[test]
fn failure_records_message_and_position() {
    let o = failure::<i32>(String::from("m"), 3);
    assert!(o.is_failure());
    assert_eq!(*o.value(), None);
    let failures = o.get_failures();
    assert_eq!(failures.len(), 1);
    assert_eq!(failures[0].message, "m");
    assert_eq!(failures[0].position, 3);
}

#[test]
fn combine_success_identity() {
    let a = success(1);
    let b = failure::<i32>(String::from("m1"), 0);
    let c = a.combine(b);
    assert!(!c.is_failure());
    assert_eq!(*c.value(), Some(1));
    assert_eq!(c.get_failures().len(), 0);
}

#[test]
fn combine_two_successes_keeps_left() {
    let c = success(1).combine(success(2));
    assert_eq!(*c.value(), Some(1));
}

#[test]
fn combine_right_fallback() {
    let a = failure::<i32>(String::from("m1"), 0);
    let b = success(2);
    let c = a.combine(b);
    assert!(!c.is_failure());
    assert_eq!(*c.value(), Some(2));
    assert_eq!(c.get_failures().len(), 0);
}

#[test]
fn combine_merge_keeps_order() {
    let a = failure::<i32>(String::from("m1"), 0);
    let b = failure::<i32>(String::from("m2"), 5);
    let c = a.combine(b);
    assert!(c.is_failure());
    assert_eq!(*c.value(), None);
    let failures = c.get_failures();
    assert_eq!(failures.len(), 2);
    assert_eq!(failures[0].message, "m1");
    assert_eq!(failures[0].position, 0);
    assert_eq!(failures[1].message, "m2");
    assert_eq!(failures[1].position, 5);
}

#[test]
fn map_value_applies_mapping() {
    let o = success(2).map_value(|x: i32| x + 1);
    assert!(!o.is_failure());
    assert_eq!(*o.value(), Some(3));
}

#[test]
fn map_value_changes_type() {
    let o = success(2).map_value(|x: i32| format!("{x}"));
    assert_eq!(*o.value(), Some(String::from("2")));
}

#[test]
fn map_value_leaves_failure_unchanged() {
    let o = failure::<i32>(String::from("m"), 1).map_value(|x: i32| x + 1);
    assert!(o.is_failure());
    assert_eq!(*o.value(), None);
    let failures = o.get_failures();
    assert_eq!(failures.len(), 1);
    assert_eq!(failures[0].message, "m");
    assert_eq!(failures[0].position, 1);
}
