use kirei::focus::FocusManager;
use kirei::ids::{fnv1a_extend, WidgetId, FNV_OFFSET_BASIS};
use kirei::scope::IdScope;
use kirei::storage::WidgetStateStorage;
use kirei::widgets::ButtonState;

#[test]
fn from_key_matches_fnv1a_reference_values() {
    assert_eq!(WidgetId::from_key("").0, 0xcbf29ce484222325);
    assert_eq!(WidgetId::from_key("a").0, 0xaf63dc4c8601ec8c);
    assert_eq!(WidgetId::from_key("volume_slider").0, 0x4312c6974f83d8f5);
    // UTF-8 bytes are hashed, not characters
    assert_eq!(WidgetId::from_key("é").0, 0x0ac21707b7181e01);
}

#[test]
fn from_key_is_stable_and_distinguishes_keys() {
    assert_eq!(WidgetId::from_key("submit_button"), WidgetId::from_key("submit_button"));
    assert_ne!(WidgetId::from_key("submit_button"), WidgetId::from_key("cancel_button"));
}

#[test]
fn from_path_hashes_native_bytes_of_each_index() {
    assert_eq!(WidgetId::from_path(&[]).0, FNV_OFFSET_BASIS);
    let mut expected = FNV_OFFSET_BASIS;
    for idx in [1usize, 2usize] {
        expected = fnv1a_extend(expected, &idx.to_ne_bytes());
    }
    assert_eq!(WidgetId::from_path(&[1, 2]).0, expected);
    if 1usize.to_ne_bytes()[0] == 1 && usize::BITS == 64 {
        assert_eq!(WidgetId::from_path(&[0]).0, 0xa8c7f832281a39c5);
        assert_eq!(WidgetId::from_path(&[1, 2]).0, 0x7717980363c8e066);
    }
    assert_ne!(WidgetId::from_path(&[0, 1]), WidgetId::from_path(&[1, 0]));
}

#[test]
fn from_path_writes_every_byte_of_wide_indices_in_machine_order() {
    let path = [0x0102_0304usize, 300, usize::MAX, 0];
    let mut expected = FNV_OFFSET_BASIS;
    for idx in path {
        expected = fnv1a_extend(expected, &idx.to_ne_bytes());
    }
    assert_eq!(WidgetId::from_path(&path).0, expected);
}

#[test]
fn fnv1a_extend_continues_a_hash() {
    let whole = fnv1a_extend(FNV_OFFSET_BASIS, b"hello");
    let split = fnv1a_extend(fnv1a_extend(FNV_OFFSET_BASIS, b"he"), b"llo");
    assert_eq!(whole, split);
    assert_eq!(fnv1a_extend(7, b""), 7);
}

#[test]
fn focus_manager_tab_cycles_forward_and_back() {
    let mut fm = FocusManager::new();
    assert_eq!(fm.focus_next(), None);
    assert_eq!(fm.focus_prev(), None);
    let a = WidgetId(1);
    let b = WidgetId(2);
    let c = WidgetId(3);
    fm.register_focusable(a);
    fm.register_focusable(b);
    fm.register_focusable(c);
    assert_eq!(fm.get_focused(), None);
    assert_eq!(fm.focus_next(), Some(a));
    assert_eq!(fm.focus_next(), Some(b));
    assert_eq!(fm.focus_next(), Some(c));
    assert_eq!(fm.focus_next(), Some(a));
    assert_eq!(fm.focus_prev(), Some(c));
    assert_eq!(fm.focus_prev(), Some(b));
    assert!(fm.has_focus(b));
    assert!(!fm.has_focus(a));
}

#[test]
fn focus_prev_without_focus_starts_at_end() {
    let mut fm = FocusManager::default();
    fm.register_focusable(WidgetId(10));
    fm.register_focusable(WidgetId(20));
    assert_eq!(fm.focus_prev(), Some(WidgetId(20)));
}

#[test]
fn focus_from_unregistered_widget_restarts() {
    let mut fm = FocusManager::new();
    fm.register_focusable(WidgetId(10));
    fm.register_focusable(WidgetId(20));
    fm.set_focus(Some(WidgetId(99)));
    assert_eq!(fm.focus_next(), Some(WidgetId(10)));
    fm.set_focus(Some(WidgetId(99)));
    assert_eq!(fm.focus_prev(), Some(WidgetId(20)));
}

#[test]
fn register_focusable_ignores_duplicates() {
    let mut fm = FocusManager::new();
    fm.register_focusable(WidgetId(5));
    fm.register_focusable(WidgetId(6));
    fm.register_focusable(WidgetId(5));
    assert_eq!(fm.focus_next(), Some(WidgetId(5)));
    assert_eq!(fm.focus_next(), Some(WidgetId(6)));
    assert_eq!(fm.focus_next(), Some(WidgetId(5)));
}

#[test]
fn clearing_the_chain_keeps_focus() {
    let mut fm = FocusManager::new();
    fm.register_focusable(WidgetId(5));
    fm.focus_next();
    fm.clear_chain();
    assert_eq!(fm.get_focused(), Some(WidgetId(5)));
    assert_eq!(fm.focus_next(), None);
    fm.register_focusable(WidgetId(7));
    fm.clear_focus_chain();
    assert_eq!(fm.focus_prev(), None);
    fm.set_focus(None);
    assert_eq!(fm.get_focused(), None);
}

#[test]
fn storage_get_or_default_inserts_default_then_persists() {
    let mut storage: WidgetStateStorage<u32> = WidgetStateStorage::new();
    let id = WidgetId::from_key("counter");
    assert_eq!(storage.get(id), None);
    assert_eq!(storage.get_or_default(id), 0);
    assert_eq!(storage.get(id), Some(&0));
    storage.set(id, 41);
    assert_eq!(storage.get_or_default(id), 41);
    if let Some(v) = storage.get_mut(id) {
        *v += 1;
    }
    assert_eq!(storage.get(id), Some(&42));
    let other = WidgetId::from_key("other");
    assert!(storage.get_mut(other).is_none());
    storage.set(other, 7);
    storage.remove(id);
    assert_eq!(storage.get(id), None);
    assert_eq!(storage.get(other), Some(&7));
    storage.clear();
    assert_eq!(storage.get(other), None);
}

#[test]
fn storage_holds_widget_state_types() {
    let mut storage: WidgetStateStorage<ButtonState> = WidgetStateStorage::default();
    let id = WidgetId(3);
    let s = storage.get_or_default(id);
    assert!(!s.hovered && !s.pressed);
    storage.set(id, ButtonState { hovered: true, pressed: false });
    assert!(storage.get(id).unwrap().hovered);
}

#[test]
fn scope_explicit_id_takes_precedence_over_path() {
    let mut scope = IdScope::new();
    assert_eq!(scope.current_id(), WidgetId::from_path(&[]));
    scope.push_path(0);
    scope.push_path(3);
    assert_eq!(scope.current_path(), &[0, 3]);
    assert_eq!(scope.current_id(), WidgetId::from_path(&[0, 3]));
    scope.push_explicit_id(Some("volume_slider"));
    assert_eq!(scope.current_id(), WidgetId::from_key("volume_slider"));
    scope.push_explicit_id(None);
    assert_eq!(scope.current_id(), WidgetId::from_path(&[0, 3]));
    scope.pop_explicit_id();
    assert_eq!(scope.current_id(), WidgetId::from_key("volume_slider"));
    scope.pop_explicit_id();
    scope.pop_path();
    assert_eq!(scope.current_id(), WidgetId::from_path(&[0]));
    scope.pop_path();
    scope.pop_path();
    assert_eq!(scope.current_path(), &[] as &[usize]);
}

#[test]
fn as_many_tabs_as_widgets_come_back_around() {
    let mut fm = FocusManager::new();
    for k in 0..4u64 {
        fm.register_focusable(WidgetId(100 + k));
    }
    fm.set_focus(Some(WidgetId(102)));
    let mut seen = Vec::new();
    for _ in 0..4 {
        seen.push(fm.focus_next().unwrap().0);
    }
    assert_eq!(seen, vec![103, 100, 101, 102]);
    let mut back = Vec::new();
    for _ in 0..4 {
        back.push(fm.focus_prev().unwrap().0);
    }
    assert_eq!(back, vec![101, 100, 103, 102]);
}
