use tauri_app::label_map::LabelMap;
use tauri_app::plugin::PluginStore;
use tauri_app::state::{StateKey, StateManager};
use tauri_app::text::replace;

#[test]
fn a_label_map_keeps_the_order_of_its_labels() {
    let mut map = LabelMap::new();
    assert_eq!(map.insert("b".to_string(), 1), None);
    assert_eq!(map.insert("a".to_string(), 2), None);
    assert_eq!(map.insert("b".to_string(), 3), Some(1));
    assert_eq!(map.labels(), vec!["b".to_string(), "a".to_string()]);
    assert_eq!(map.get("b"), Some(&3));
    assert_eq!(map.label_at(1), "a");
    assert_eq!(map.value_at(1), &2);
    assert_eq!(map.remove("b"), Some(3));
    assert_eq!(map.remove("b"), None);
    assert!(!map.contains_key("b"));
    assert_eq!(map.len(), 1);
}

#[test]
fn plugins_stay_distinct() {
    let mut store = PluginStore::new();
    assert!(!store.register("a".to_string()));
    assert!(!store.register("b".to_string()));
    assert!(store.register("a".to_string()));
    assert_eq!(store.len(), 2);
    assert_eq!(store.name_at(0), "b");
    assert_eq!(store.name_at(1), "a");
    assert!(store.unregister("b"));
    assert!(!store.unregister("b"));
}

#[test]
fn state_is_taken_once() {
    let mut state = StateManager::new();
    assert!(state.set(StateKey::Env));
    assert!(!state.set(StateKey::Env));
    assert!(state.contains(StateKey::Env));
    assert!(!state.contains(StateKey::Scopes));
}

#[test]
fn tokens_are_replaced_from_the_left() {
    assert_eq!(replace("aaaa", "aaa", "b"), "ba");
    assert_eq!(replace("xTx", "T", "TT"), "xTTx");
    assert_eq!(replace("", "T", "v"), "");
    assert_eq!(replace("\u{e9}T\u{e9}", "T", "\u{fc}"), "\u{e9}\u{fc}\u{e9}");
}
