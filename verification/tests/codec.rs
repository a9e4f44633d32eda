use dead_split::config::{decode_or_default, AutosplitterConfig, SerializableSettingValue};
use dead_split::settings::{SettingValue, SettingsMap};

fn scalar_map() -> SettingsMap {
    let mut m = SettingsMap::new();
    m.insert("fast_mode".to_owned(), SettingValue::Bool(true));
    m.insert("threshold".to_owned(), SettingValue::I64(3));
    m
}

#[test]
fn scalar_map_round_trips_unchanged() {
    let m = scalar_map();
    let doc = AutosplitterConfig::encode(true, &m);
    assert!(doc.enabled);
    let back = doc.get_settings_map();
    assert_eq!(back.len(), 2);
    let e0 = back.entry_at(0);
    assert_eq!(e0.0, "fast_mode");
    assert!(matches!(e0.1, SettingValue::Bool(true)));
    let e1 = back.entry_at(1);
    assert_eq!(e1.0, "threshold");
    assert!(matches!(e1.1, SettingValue::I64(3)));
}

#[test]
fn nested_entry_is_dropped_and_nothing_else() {
    let mut m = scalar_map();
    m.insert("nested".to_owned(), SettingValue::MapValue(SettingsMap::new()));
    let doc = AutosplitterConfig::encode(false, &m);
    assert!(!doc.enabled);
    let back = doc.get_settings_map();
    // Exactly the nested entry is gone; the other two are untouched.
    assert_eq!(back.len(), 2);
    let e0 = back.entry_at(0);
    assert_eq!(e0.0, "fast_mode");
    assert!(matches!(e0.1, SettingValue::Bool(true)));
    let e1 = back.entry_at(1);
    assert_eq!(e1.0, "threshold");
    assert!(matches!(e1.1, SettingValue::I64(3)));
}

#[test]
fn all_scalar_kinds_survive_the_round_trip() {
    let mut m = SettingsMap::new();
    m.insert("b".to_owned(), SettingValue::Bool(false));
    m.insert("i".to_owned(), SettingValue::I64(-7));
    m.insert("f".to_owned(), SettingValue::F64((2.5f64).to_bits()));
    m.insert("s".to_owned(), SettingValue::Str("hello".to_owned()));
    let back = AutosplitterConfig::encode(true, &m).get_settings_map();
    assert_eq!(back.len(), 4);
    assert!(matches!(back.entry_at(0).1, SettingValue::Bool(false)));
    assert!(matches!(back.entry_at(1).1, SettingValue::I64(-7)));
    match &back.entry_at(2).1 {
        SettingValue::F64(bits) => assert_eq!(f64::from_bits(*bits), 2.5),
        _ => panic!("float entry lost"),
    }
    match &back.entry_at(3).1 {
        SettingValue::Str(s) => assert_eq!(s, "hello"),
        _ => panic!("string entry lost"),
    }
}

#[test]
fn empty_map_round_trips() {
    let m = SettingsMap::new();
    let doc = AutosplitterConfig::encode(false, &m);
    assert_eq!(doc.settings.len(), 0);
    assert_eq!(doc.get_settings_map().len(), 0);
}

#[test]
fn list_entry_is_dropped_too() {
    let mut m = SettingsMap::new();
    m.insert("xs".to_owned(), SettingValue::ListValue(Vec::new()));
    let doc = AutosplitterConfig::encode(true, &m);
    assert_eq!(doc.settings.len(), 0);
}

#[test]
fn missing_document_falls_back_to_disabled_empty() {
    let (enabled, map) = decode_or_default(None);
    assert!(!enabled);
    assert_eq!(map.len(), 0);
}

#[test]
fn present_document_decodes_through_the_fallback_path() {
    let mut doc = AutosplitterConfig::new_default();
    doc.enabled = true;
    doc.settings.push(("x".to_owned(), SerializableSettingValue::I64(9)));
    let (enabled, map) = decode_or_default(Some(&doc));
    assert!(enabled);
    assert_eq!(map.len(), 1);
    assert!(matches!(map.entry_at(0).1, SettingValue::I64(9)));
}

#[test]
fn insert_with_equal_key_replaces_in_place() {
    let mut m = SettingsMap::new();
    m.insert("k".to_owned(), SettingValue::I64(1));
    m.insert("other".to_owned(), SettingValue::Bool(true));
    m.insert("k".to_owned(), SettingValue::I64(2));
    assert_eq!(m.len(), 2);
    let e0 = m.entry_at(0);
    assert_eq!(e0.0, "k");
    assert!(matches!(e0.1, SettingValue::I64(2)));
    match m.get(&"k".to_owned()) {
        Some(SettingValue::I64(v)) => assert_eq!(*v, 2),
        _ => panic!("lookup after upsert failed"),
    }
    assert!(m.get(&"absent".to_owned()).is_none());
}
