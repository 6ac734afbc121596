use query_engine::names::{NameSet, str_lt};

fn names(set: &NameSet) -> Vec<String> {
    (0..set.len()).map(|i| set.get(i).clone()).collect()
}

fn set_of(items: &[&str]) -> NameSet {
    let mut s = NameSet::new();
    for item in items {
        s.insert(item);
    }
    s
}

#[test]
fn insert_keeps_names_sorted_and_distinct() {
    let s = set_of(&["state", "id", "salary", "id", "Zeta", "state"]);
    assert_eq!(names(&s), vec!["Zeta", "id", "salary", "state"]);
    assert!(s.contains("salary"));
    assert!(!s.contains("sal"));
    assert!(!s.is_empty());
    assert!(NameSet::new().is_empty());
}

#[test]
fn set_operations() {
    let a = set_of(&["a", "c", "e"]);
    let b = set_of(&["b", "c", "d"]);
    assert_eq!(names(&a.union(&b)), vec!["a", "b", "c", "d", "e"]);
    assert_eq!(names(&a.intersection(&b)), vec!["c"]);
    assert_eq!(a.difference(&b), vec!["a".to_string(), "e".to_string()]);
    assert_eq!(names(&a.duplicate()), names(&a));
}

#[test]
fn string_order_is_by_characters() {
    assert!(str_lt("ab", "b"));
    assert!(str_lt("a", "ab"));
    assert!(!str_lt("ab", "ab"));
    assert!(str_lt("Z", "a"));
    assert!(str_lt("é", "😀"));
}
