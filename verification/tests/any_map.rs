use calc_summary::any_map::{fiscal_month_starts, AnyMap};
use calc_summary::cache_key;
use calc_summary::value::{CalendarDay, F64Bits, JsonText, UuidValue};

#[test]
fn set_then_get_gives_the_value_back() {
    let mut m = AnyMap::new();
    m.set("row_id".to_string(), 42i64);
    assert_eq!(m.get::<i64>("row_id".to_string()), Some(&42i64));
    assert!(m.has::<i64>("row_id".to_string()));
}

#[test]
fn get_under_another_type_gives_nothing() {
    let mut m = AnyMap::new();
    m.set("row_id".to_string(), 42i64);
    assert_eq!(m.get::<i32>("row_id".to_string()), None);
    assert_eq!(m.get::<bool>("row_id".to_string()), None);
    assert!(!m.has::<F64Bits>("row_id".to_string()));
    assert!(!m.has::<i64>("missing".to_string()));
}

#[test]
fn set_replaces_whatever_the_key_held() {
    let mut m = AnyMap::new();
    m.set("value".to_string(), 1i64);
    m.set("value".to_string(), true);
    assert_eq!(m.get::<i64>("value".to_string()), None);
    assert_eq!(m.get::<bool>("value".to_string()), Some(&true));
    assert_eq!(m.keys(), vec!["value".to_string()]);
}

#[test]
fn get_mut_writes_back() {
    let mut m = AnyMap::new();
    m.set("list".to_string(), Vec::<AnyMap>::new());
    {
        let list = m.get_mut::<Vec<AnyMap>>("list".to_string()).unwrap();
        let mut entry = AnyMap::new();
        entry.set("calculated".to_string(), false);
        list.push(entry);
    }
    let list = m.get::<Vec<AnyMap>>("list".to_string()).unwrap();
    assert_eq!(list.len(), 1);
    assert_eq!(list[0].get::<bool>("calculated".to_string()), Some(&false));
    assert!(m.get_mut::<bool>("list".to_string()).is_none());
}

#[test]
fn keys_lists_each_key_once() {
    let mut m = AnyMap::new();
    m.set("a".to_string(), 1i32);
    m.set("b".to_string(), Some(2i32));
    m.set("a".to_string(), 3i32);
    m.set("c".to_string(), JsonText("[1]".to_string()));
    let mut keys = m.keys();
    keys.sort();
    assert_eq!(keys, vec!["a".to_string(), "b".to_string(), "c".to_string()]);
    assert_eq!(m.get::<i32>("a".to_string()), Some(&3));
    assert_eq!(m.get::<Option<i32>>("b".to_string()), Some(&Some(2)));
}

#[test]
fn stored_kinds_keep_their_values() {
    let mut m = AnyMap::new();
    m.set("day".to_string(), CalendarDay(738246));
    m.set("uuid".to_string(), UuidValue(7));
    m.set("value".to_string(), F64Bits(1.05f64.to_bits()));
    assert_eq!(m.get::<CalendarDay>("day".to_string()), Some(&CalendarDay(738246)));
    assert_eq!(m.get::<UuidValue>("uuid".to_string()), Some(&UuidValue(7)));
    assert_eq!(f64::from_bits(m.get::<F64Bits>("value".to_string()).unwrap().0), 1.05);
}

#[test]
fn generate_cache_holds_an_empty_map_per_month() {
    let m = AnyMap::generate_cache();
    let mut keys = m.keys();
    keys.sort();
    assert_eq!(keys, fiscal_month_starts());
    assert_eq!(keys.len(), 12);
    assert_eq!(keys[0], "2022-04-01");
    assert_eq!(keys[11], "2023-03-01");
    for k in keys {
        assert_eq!(m.get::<AnyMap>(k).unwrap().keys().len(), 0);
    }
}

#[test]
fn cache_key_is_the_key() {
    assert_eq!(cache_key(&"7231-2".to_string()), "7231-2");
}
