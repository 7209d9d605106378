use calc_summary::calculated::Calculated;
use calc_summary::str_map::StrMap;

fn s(x: &str) -> String {
    x.to_string()
}

fn template() -> StrMap<StrMap<String>> {
    let mut inner = StrMap::new();
    inner.insert(s("1"), s("one"));
    let mut t = StrMap::new();
    t.insert(s("2022-04-01"), inner);
    t.insert(s("2022-05-01"), StrMap::new());
    t
}

#[test]
fn initialize_copies_the_template_under_each_kind() {
    let mut c = Calculated::new();
    c.set(&s("other"), &s("d"), &s("k"), &s("v"));
    c.initialize(template());
    assert!(!c.has(&s("other"), &s("d"), &s("k")));
    for kind in ["profit", "category", "group", "account", "budget", "row"] {
        assert!(c.has(&s(kind), &s("2022-04-01"), &s("1")));
        assert_eq!(c.get(&s(kind), &s("2022-04-01"), &s("1")), Some(&s("one")));
        assert!(!c.has(&s(kind), &s("2022-05-01"), &s("1")));
    }
}

#[test]
fn set_makes_the_missing_levels_and_replaces_values() {
    let mut c = Calculated::new();
    assert_eq!(c.get(&s("row"), &s("2022-04-01"), &s("7")), None);
    c.set(&s("row"), &s("2022-04-01"), &s("7"), &s("1.5"));
    assert_eq!(c.get(&s("row"), &s("2022-04-01"), &s("7")), Some(&s("1.5")));
    c.set(&s("row"), &s("2022-04-01"), &s("7"), &s("2.5"));
    c.set(&s("row"), &s("2022-04-02"), &s("8"), &s("3"));
    assert_eq!(c.get(&s("row"), &s("2022-04-01"), &s("7")), Some(&s("2.5")));
    assert!(c.has(&s("row"), &s("2022-04-02"), &s("8")));
    assert!(!c.has(&s("row"), &s("2022-04-02"), &s("7")));
}

#[test]
fn str_map_keeps_one_value_per_key() {
    let mut m: StrMap<i64> = StrMap::new();
    m.insert(s("a"), 1);
    m.insert(s("a"), 2);
    *m.get_mut(&s("a")).unwrap() += 1;
    assert_eq!(m.get(&s("a")), Some(&3));
    assert_eq!(m.keys(), vec![s("a")]);
    assert!(m.get(&s("b")).is_none());
}
