use kirei::error::GuiError;
use kirei::input::{is_keyboard_event, key_is, EventKind, ImeEvent, Key, Modifiers, NamedKey};
use kirei::menus::{
    decide_modal, ContextMenuItem, DropdownChoice, HoverTimer, MenuState, ModalDecision,
};
use kirei::widgets::{
    Align, ButtonState, CheckboxState, LabelState, RadioButtonsState, TabsState, TextInputState,
};
use kirei::DrawPass;

fn key(k: NamedKey) -> EventKind {
    EventKind::Key(Key::Named(k), Modifiers::default())
}

#[test]
fn button_clicks_on_press_then_release_inside() {
    let mut s = ButtonState::default();
    let r = s.handle_event(&EventKind::Move, true);
    assert!(r.handled && !r.clicked && s.hovered);
    assert!(!s.handle_event(&EventKind::Move, true).handled);
    assert!(s.handle_event(&EventKind::Press, true).handled);
    assert!(s.pressed);
    let r = s.handle_event(&EventKind::Release, true);
    assert!(r.handled && r.clicked && !s.pressed);
}

#[test]
fn button_release_outside_does_not_click() {
    let mut s = ButtonState::default();
    s.handle_event(&EventKind::Press, true);
    let r = s.handle_event(&EventKind::Release, false);
    assert!(!r.handled && !r.clicked && !s.pressed);
    assert!(!s.handle_event(&EventKind::Press, false).handled);
    assert!(!s.handle_event(&EventKind::Scroll, true).handled);
}

#[test]
fn checkbox_toggles_on_press_inside() {
    let mut s = CheckboxState::default();
    let r = s.handle_event(false, &EventKind::Press, true);
    assert!(r.handled);
    assert_eq!(r.toggled_to, Some(true));
    let r = s.handle_event(false, &EventKind::Press, true);
    assert_eq!(r.toggled_to, Some(false));
    assert!(!s.checked);
    let r = s.handle_event(false, &EventKind::Press, false);
    assert!(!r.handled && r.toggled_to.is_none());
    s.handle_event(false, &EventKind::Move, true);
    assert!(s.hovered);
}

#[test]
fn checkbox_constructed_checked_counts_as_checked() {
    let mut s = CheckboxState::default();
    assert!(s.displayed_checked(true));
    assert!(!s.displayed_checked(false));
    s.handle_event(true, &EventKind::Move, false);
    assert!(s.checked);
    let r = s.handle_event(true, &EventKind::Press, true);
    assert_eq!(r.toggled_to, Some(false));
}

#[test]
fn radio_buttons_select_and_hover() {
    let mut s = RadioButtonsState::default();
    assert!(s.apply_initial(Some(9), 3));
    assert_eq!(s.selected_index, Some(2));
    assert!(!s.apply_initial(Some(0), 3));
    let r = s.handle_event(3, &EventKind::Move, Some(1));
    assert!(r.handled);
    assert_eq!(s.hovered_index, Some(1));
    let r = s.handle_event(3, &EventKind::Press, Some(1));
    assert!(r.handled);
    assert_eq!(r.changed_to, Some(1));
    let r = s.handle_event(3, &EventKind::Press, Some(1));
    assert_eq!(r.changed_to, None);
    let r = s.handle_event(3, &EventKind::Move, None);
    assert!(!r.handled);
    assert_eq!(s.hovered_index, None);
    let r = s.handle_event(0, &EventKind::Press, None);
    assert!(!r.handled);
    let mut empty = RadioButtonsState::default();
    assert!(!empty.apply_initial(Some(1), 0));
}

#[test]
fn tabs_sync_clamps_selection_and_hover() {
    let mut s = TabsState { selected_index: Some(7), hovered_index: Some(5) };
    assert_eq!(s.sync_state(3, None), (Some(2), true));
    assert_eq!(s.hovered_index, None);
    assert_eq!(s.sync_state(3, None), (Some(2), false));
    let mut fresh = TabsState::default();
    assert_eq!(fresh.sync_state(4, Some(1)), (Some(1), true));
    let mut none = TabsState { selected_index: Some(0), hovered_index: None };
    assert_eq!(none.sync_state(0, None), (None, true));
    assert_eq!(none.sync_state(0, None), (None, false));
}

#[test]
fn tabs_select_on_release() {
    let mut s = TabsState::default();
    let r = s.handle_event(3, None, &EventKind::Release, Some(2));
    assert!(r.consumed && r.dirty);
    assert_eq!(r.changed_to, Some(2));
    assert_eq!(s.selected_index, Some(2));
    let r = s.handle_event(3, None, &EventKind::Release, Some(2));
    assert_eq!(r.changed_to, None);
    let r = s.handle_event(3, None, &EventKind::Char('x'), None);
    assert!(!r.consumed);
    assert_eq!(r.forward_to, Some(2));
    let r = s.handle_event(3, None, &EventKind::Move, Some(0));
    assert!(r.consumed && r.forward_to.is_none());
    assert_eq!(s.hovered_index, Some(0));
}

#[test]
fn context_menu_keyboard_navigation() {
    let enabled = [true, false, true];
    let mut m = MenuState::new();
    assert!(!m.handle_key(&Key::Named(NamedKey::ArrowDown), &enabled).consumed);
    m.open = true;
    m.handle_key(&Key::Named(NamedKey::ArrowDown), &enabled);
    assert_eq!(m.hovered_index, Some(0));
    m.handle_key(&Key::Named(NamedKey::ArrowUp), &enabled);
    assert_eq!(m.hovered_index, Some(2));
    m.handle_key(&Key::Named(NamedKey::ArrowDown), &enabled);
    assert_eq!(m.hovered_index, Some(0));
    m.handle_key(&Key::Named(NamedKey::ArrowDown), &enabled);
    let r = m.handle_key(&Key::Named(NamedKey::Enter), &enabled);
    assert!(r.consumed && r.activate.is_none() && m.open);
    m.handle_key(&Key::Named(NamedKey::ArrowDown), &enabled);
    let r = m.handle_key(&Key::Named(NamedKey::Enter), &enabled);
    assert_eq!(r.activate, Some(2));
    assert!(!m.open);
    m.open = true;
    let r = m.handle_key(&Key::Named(NamedKey::Escape), &enabled);
    assert!(r.consumed && !m.open && m.hovered_index.is_none());
}

#[test]
fn context_menu_pointer() {
    let enabled = [true, false];
    let mut m = MenuState::new();
    let r = m.handle_pointer(&EventKind::ContextClick, &enabled, false, true, false, None);
    assert!(r.consumed && r.opened && m.open);
    let r = m.handle_pointer(&EventKind::Move, &enabled, false, true, true, Some(1));
    assert!(r.consumed);
    assert_eq!(m.hovered_index, Some(1));
    let r = m.handle_pointer(&EventKind::Press, &enabled, false, true, true, Some(1));
    assert!(r.consumed && r.activate.is_none() && m.open);
    let r = m.handle_pointer(&EventKind::Press, &enabled, false, true, true, Some(0));
    assert_eq!(r.activate, Some(0));
    assert!(!m.open);
    let r = m.handle_pointer(&EventKind::ContextClick, &[], true, true, false, None);
    assert!(!r.consumed && !m.open);
    m.open = true;
    m.handle_pointer(&EventKind::Press, &enabled, false, false, false, None);
    assert!(!m.open);
    m.open = true;
    assert!(m.handle_pointer(&EventKind::Scroll, &enabled, false, false, false, None).consumed);
}

#[test]
fn dropdown_open_choose_close() {
    let mut d = DropdownChoice::new();
    let r = d.handle_pointer(&EventKind::Press, 3, true, None);
    assert!(r.handled && d.open && !r.reset_scroll);
    let r = d.handle_pointer(&EventKind::Move, 3, false, Some(1));
    assert!(r.handled);
    assert_eq!(d.hovered_option, Some(1));
    let r = d.handle_pointer(&EventKind::Press, 3, false, Some(1));
    assert_eq!(r.chosen, Some(1));
    assert!(r.reset_scroll && !d.open);
    assert_eq!(d.selected_index, Some(1));
    d.handle_pointer(&EventKind::Press, 3, true, None);
    let r = d.handle_pointer(&EventKind::Press, 3, false, None);
    assert!(r.handled && r.reset_scroll && !d.open);
    assert!(!d.handle_pointer(&EventKind::Press, 3, false, None).handled);
}

#[test]
fn modal_closes_on_escape_and_backdrop() {
    assert_eq!(decide_modal(true, &key(NamedKey::Escape), true, true), ModalDecision::Close);
    assert_eq!(decide_modal(true, &EventKind::Press, true, false), ModalDecision::Close);
    assert_eq!(
        decide_modal(true, &EventKind::Press, false, false),
        ModalDecision::Keep { consumed: false }
    );
    assert_eq!(decide_modal(true, &EventKind::Press, true, true), ModalDecision::ForwardToContent);
    assert_eq!(
        decide_modal(true, &EventKind::Move, true, false),
        ModalDecision::Keep { consumed: true }
    );
    assert_eq!(
        decide_modal(false, &key(NamedKey::Escape), true, true),
        ModalDecision::Keep { consumed: false }
    );
}

#[test]
fn tooltip_hover_timer() {
    let mut t = HoverTimer::new();
    assert!(t.on_move(true));
    assert!(t.on_move(true));
    assert_eq!(t.hover_frames, 2);
    assert!(t.shows(2) && !t.shows(3));
    assert!(t.on_move(false));
    assert_eq!(t.hover_frames, 0);
    assert!(!t.on_move(false));
}

#[test]
fn context_menu_item_builder() {
    let item: ContextMenuItem<Box<dyn FnMut()>> = ContextMenuItem::new("Delete".to_string());
    assert!(item.enabled && !item.destructive && item.shortcut.is_none());
    let item = item
        .shortcut("Del".to_string())
        .enabled(false)
        .destructive(true)
        .on_select(Box::new(|| {}) as Box<dyn FnMut()>);
    assert_eq!(item.label, "Delete");
    assert_eq!(item.shortcut.as_deref(), Some("Del"));
    assert!(!item.enabled && item.destructive && item.on_select.is_some());
}

#[test]
fn error_messages() {
    assert_eq!(
        GuiError::TextureLoadFailed("missing.png".to_string()).message(),
        "Texture load failed: missing.png"
    );
    assert_eq!(GuiError::TextRenderFailed("x".to_string()).message(), "Text render failed: x");
    assert_eq!(GuiError::BufferCreationFailed.message(), "Buffer creation failed");
    assert_eq!(GuiError::InvalidTextureId.message(), "Invalid texture ID");
}

#[test]
fn small_state_helpers() {
    let label = LabelState { text: Some("override".to_string()) };
    assert_eq!(label.display_text(&"base".to_string()), "override");
    assert_eq!(LabelState::default().display_text(&"base".to_string()), "base");
    let mut input = TextInputState::default();
    assert!(!input.shows_error());
    input.error_message = Some("bad".to_string());
    assert!(!input.shows_error());
    input.has_interacted = true;
    assert!(input.shows_error());
    assert!(is_keyboard_event(&EventKind::Char('a')));
    assert!(is_keyboard_event(&key(NamedKey::Tab)));
    assert!(!is_keyboard_event(&EventKind::Ime(ImeEvent::Start)));
    assert!(key_is(&Key::Named(NamedKey::Tab), NamedKey::Tab));
    assert!(!key_is(&Key::Character("a".to_string()), NamedKey::Tab));
    assert_ne!(DrawPass::Normal, DrawPass::Overlay);
    assert_eq!(Align::Stretch, Align::Stretch);
}

#[test]
fn menu_keys_take_a_stale_highlight_modulo_the_item_count() {
    let enabled = [true, true];
    let mut m = MenuState { open: true, hovered_index: Some(5) };
    let r = m.handle_key(&Key::Named(NamedKey::ArrowDown), &enabled);
    assert!(r.consumed);
    assert_eq!(m.hovered_index, Some(0));
    let mut m = MenuState { open: true, hovered_index: Some(5) };
    m.handle_key(&Key::Named(NamedKey::ArrowUp), &enabled);
    assert_eq!(m.hovered_index, Some(0));
    let mut m = MenuState { open: true, hovered_index: Some(4) };
    m.handle_key(&Key::Named(NamedKey::ArrowUp), &enabled);
    assert_eq!(m.hovered_index, Some(1));
    let mut m = MenuState { open: true, hovered_index: Some(usize::MAX) };
    m.handle_key(&Key::Named(NamedKey::ArrowDown), &enabled);
    assert_eq!(m.hovered_index, Some(0));
    let mut m = MenuState { open: true, hovered_index: Some(5) };
    let r = m.handle_key(&Key::Named(NamedKey::Enter), &enabled);
    assert_eq!(r.activate, None);
    assert!(m.open);
}
