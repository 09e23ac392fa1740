//! Pop-up widgets: context menus, drop-down lists, modal dialogs and
//! tooltips. Their state changes are decided here; the caller measures the
//! pointer against the widget's geometry and passes the outcome in.
use vstd::prelude::*;
use crate::input::{EventKind, Key, Modifiers, NamedKey, is_named, key_is};

verus! {

/// An entry of a context menu; `F` is the type of its action.
pub struct ContextMenuItem<F> {
    pub label: String,
    pub shortcut: Option<String>,
    pub enabled: bool,
    pub destructive: bool,
    pub on_select: Option<F>,
}

impl<F> ContextMenuItem<F> {
    /// An enabled, non-destructive item with no shortcut and no action.
    pub fn new(label: String) -> (item: Self)
        ensures
            item.label@ == label@,
            item.shortcut is None,
            item.enabled,
            !item.destructive,
            item.on_select is None,
    {
        ContextMenuItem {
            label,
            shortcut: None,
            enabled: true,
            destructive: false,
            on_select: None,
        }
    }

    /// Show `text` as the item's keyboard shortcut.
    pub fn shortcut(self, text: String) -> (item: Self)
        ensures
            item.label@ == self.label@,
            item.shortcut matches Some(s) && s@ == text@,
            item.enabled == self.enabled,
            item.destructive == self.destructive,
            item.on_select == self.on_select,
    {
        ContextMenuItem { shortcut: Some(text), ..self }
    }

    /// Enable or disable the item.
    pub fn enabled(self, enabled: bool) -> (item: Self)
        ensures
            item.label@ == self.label@,
            item.shortcut == self.shortcut,
            item.enabled == enabled,
            item.destructive == self.destructive,
            item.on_select == self.on_select,
    {
        ContextMenuItem { enabled, ..self }
    }

    /// Mark the item as destructive (drawn in the error color).
    pub fn destructive(self, destructive: bool) -> (item: Self)
        ensures
            item.label@ == self.label@,
            item.shortcut == self.shortcut,
            item.enabled == self.enabled,
            item.destructive == destructive,
            item.on_select == self.on_select,
    {
        ContextMenuItem { destructive, ..self }
    }

    /// Run `f` when the item is chosen.
    pub fn on_select<G>(self, f: G) -> (item: ContextMenuItem<G>)
        ensures
            item.label@ == self.label@,
            item.shortcut == self.shortcut,
            item.enabled == self.enabled,
            item.destructive == self.destructive,
            item.on_select == Some(f),
    {
        ContextMenuItem {
            label: self.label,
            shortcut: self.shortcut,
            enabled: self.enabled,
            destructive: self.destructive,
            on_select: Some(f),
        }
    }
}

/// Whether item `i` exists and is enabled.
pub open spec fn item_enabled(enabled: Seq<bool>, i: usize) -> bool {
    i < enabled.len() && enabled[i as int]
}

/// Whether the item at `i` is enabled (false when there is no such item).
fn is_enabled(enabled: &[bool], i: usize) -> (r: bool)
    ensures
        r == item_enabled(enabled@, i),
{
    i < enabled.len() && enabled[i]
}

/// Open/closed state of a context menu and its highlighted item.
#[derive(Debug, Clone, Copy, PartialEq, Eq, Structural)]
pub struct MenuState {
    pub open: bool,
    pub hovered_index: Option<usize>,
}

/// What a context menu did with an event.
#[derive(Debug, Clone, Copy, PartialEq, Eq, Structural)]
pub struct MenuResponse {
    /// The menu used the event.
    pub consumed: bool,
    /// The menu was just opened: the caller anchors it at the pointer.
    pub opened: bool,
    /// The item whose action runs.
    pub activate: Option<usize>,
}

/// Highlight after Down: the next item, wrapping around (the first when none is highlighted).
pub open spec fn next_highlight(hovered: Option<usize>, len: usize) -> usize {
    match hovered {
        Some(i) => ((i + 1) % (len as int)) as usize,
        None => 0usize,
    }
}

/// Highlight after Up: the previous item, wrapping around (the last when none is highlighted).
pub open spec fn prev_highlight(hovered: Option<usize>, len: usize) -> usize {
    match hovered {
        Some(i) => ((i + len - 1) % (len as int)) as usize,
        None => (len - 1) as usize,
    }
}

/// The effect of a key on an open menu of `enabled.len()` items.
pub open spec fn menu_key_effect(m: MenuState, key: Key, enabled: Seq<bool>) -> (MenuState, MenuResponse) {
    let len = enabled.len() as usize;
    let none = MenuResponse { consumed: true, opened: false, activate: None };
    if !m.open {
        (m, MenuResponse { consumed: false, opened: false, activate: None })
    } else if is_named(key, NamedKey::Escape) {
        (MenuState { open: false, hovered_index: None }, none)
    } else if is_named(key, NamedKey::ArrowDown) {
        if len > 0 {
            (MenuState { hovered_index: Some(next_highlight(m.hovered_index, len)), ..m }, none)
        } else {
            (m, none)
        }
    } else if is_named(key, NamedKey::ArrowUp) {
        if len > 0 {
            (MenuState { hovered_index: Some(prev_highlight(m.hovered_index, len)), ..m }, none)
        } else {
            (m, none)
        }
    } else if is_named(key, NamedKey::Enter) {
        match m.hovered_index {
            Some(i) => if item_enabled(enabled, i) {
                (
                    MenuState { open: false, ..m },
                    MenuResponse { consumed: true, opened: false, activate: Some(i) },
                )
            } else {
                (m, none)
            },
            None => (m, none),
        }
    } else {
        (m, MenuResponse { consumed: false, opened: false, activate: None })
    }
}

impl MenuState {
    /// A closed menu with nothing highlighted.
    pub fn new() -> (m: Self)
        ensures
            !m.open && m.hovered_index is None,
    {
        MenuState { open: false, hovered_index: None }
    }

    /// A key press: Escape closes, Down/Up move the highlight (wrapping),
    /// Enter chooses the highlighted item if it is enabled. A closed menu
    /// ignores keys. A stored highlight past the last item (left from an
    /// earlier, longer item list) is taken modulo the item count.
    pub fn handle_key(&mut self, key: &Key, enabled: &[bool]) -> (r: MenuResponse)
        ensures
            (*final(self), r) == menu_key_effect(*old(self), *key, enabled@),
    {
        let none = MenuResponse { consumed: true, opened: false, activate: None };
        if !self.open {
            return MenuResponse { consumed: false, opened: false, activate: None };
        }
        if key_is(key, NamedKey::Escape) {
            self.open = false;
            self.hovered_index = None;
            none
        } else if key_is(key, NamedKey::ArrowDown) {
            let len = enabled.len();
            if len > 0 {
                let next = match self.hovered_index {
                    Some(idx) => {
                        let r = idx % len;
                        proof {
                            vstd::arithmetic::div_mod::lemma_add_mod_noop_right(1, idx as int, len as int);
                            if r + 1 < len {
                                vstd::arithmetic::div_mod::lemma_small_mod((r + 1) as nat, len as nat);
                            } else {
                                vstd::arithmetic::div_mod::lemma_mod_self_0(len as int);
                            }
                        }
                        if r + 1 == len {
                            0
                        } else {
                            r + 1
                        }
                    },
                    None => 0,
                };
                self.hovered_index = Some(next);
            }
            none
        } else if key_is(key, NamedKey::ArrowUp) {
            let len = enabled.len();
            if len > 0 {
                let prev = match self.hovered_index {
                    Some(idx) => {
                        let r = idx % len;
                        proof {
                            vstd::arithmetic::div_mod::lemma_add_mod_noop_right(
                                len - 1,
                                idx as int,
                                len as int,
                            );
                            assert(len - 1 + idx == idx + len - 1);
                            if r == 0 {
                                vstd::arithmetic::div_mod::lemma_small_mod((len - 1) as nat, len as nat);
                            } else {
                                vstd::arithmetic::div_mod::lemma_mod_add_multiples_vanish(
                                    (r - 1) as int,
                                    len as int,
                                );
                                vstd::arithmetic::div_mod::lemma_small_mod((r - 1) as nat, len as nat);
                                assert(len - 1 + r == len + (r - 1));
                            }
                        }
                        if r == 0 {
                            len - 1
                        } else {
                            r - 1
                        }
                    },
                    None => len - 1,
                };
                self.hovered_index = Some(prev);
            }
            none
        } else if key_is(key, NamedKey::Enter) {
            match self.hovered_index {
                Some(index) => {
                    if is_enabled(enabled, index) {
                        self.open = false;
                        MenuResponse { consumed: true, opened: false, activate: Some(index) }
                    } else {
                        none
                    }
                },
                None => none,
            }
        } else {
            MenuResponse { consumed: false, opened: false, activate: None }
        }
    }

    /// A pointer event. `inside_trigger`: the pointer is over the widget the
    /// menu belongs to; `global`: the menu opens anywhere; `inside_menu`: the
    /// pointer is over the open menu; `item_hit`: the item under the pointer.
    pub fn handle_pointer(
        &mut self,
        event: &EventKind,
        enabled: &[bool],
        global: bool,
        inside_trigger: bool,
        inside_menu: bool,
        item_hit: Option<usize>,
    ) -> (r: MenuResponse)
        requires
            item_hit matches Some(i) ==> i < enabled@.len(),
        ensures
            match *event {
                EventKind::ContextClick => if enabled@.len() == 0 {
                    *final(self) == *old(self) && r == MenuResponse {
                        consumed: false,
                        opened: false,
                        activate: None,
                    }
                } else if global || inside_trigger {
                    *final(self) == MenuState { open: true, hovered_index: None } && r
                        == MenuResponse { consumed: true, opened: true, activate: None }
                } else {
                    &&& *final(self) == (if old(self).open && !inside_menu {
                        MenuState { open: false, hovered_index: None }
                    } else {
                        *old(self)
                    })
                    &&& r == MenuResponse { consumed: false, opened: false, activate: None }
                },
                EventKind::Press => if !old(self).open {
                    *final(self) == *old(self) && r == MenuResponse {
                        consumed: false,
                        opened: false,
                        activate: None,
                    }
                } else {
                    match item_hit {
                        Some(i) => {
                            &&& *final(self) == MenuState {
                                open: !item_enabled(enabled@, i),
                                hovered_index: Some(i),
                            }
                            &&& r == MenuResponse {
                                consumed: true,
                                opened: false,
                                activate: if item_enabled(enabled@, i) {
                                    Some(i)
                                } else {
                                    None
                                },
                            }
                        },
                        None => {
                            &&& *final(self) == (if !inside_trigger {
                                MenuState { open: false, hovered_index: None }
                            } else {
                                *old(self)
                            })
                            &&& r == MenuResponse { consumed: false, opened: false, activate: None }
                        },
                    }
                },
                EventKind::Move => if old(self).open {
                    *final(self) == MenuState { hovered_index: item_hit, ..*old(self) } && r
                        == MenuResponse { consumed: item_hit is Some, opened: false, activate: None }
                } else {
                    *final(self) == *old(self) && r == MenuResponse {
                        consumed: false,
                        opened: false,
                        activate: None,
                    }
                },
                EventKind::Scroll => {
                    &&& *final(self) == *old(self)
                    &&& r == MenuResponse { consumed: old(self).open, opened: false, activate: None }
                },
                _ => {
                    &&& *final(self) == *old(self)
                    &&& r == MenuResponse { consumed: false, opened: false, activate: None }
                },
            },
    {
        let nothing = MenuResponse { consumed: false, opened: false, activate: None };
        match event {
            EventKind::ContextClick => {
                if enabled.len() == 0 {
                    nothing
                } else if global || inside_trigger {
                    self.open = true;
                    self.hovered_index = None;
                    MenuResponse { consumed: true, opened: true, activate: None }
                } else {
                    if self.open && !inside_menu {
                        self.open = false;
                        self.hovered_index = None;
                    }
                    nothing
                }
            },
            EventKind::Press => {
                if !self.open {
                    return nothing;
                }
                match item_hit {
                    Some(index) => {
                        self.hovered_index = Some(index);
                        if is_enabled(enabled, index) {
                            self.open = false;
                            MenuResponse { consumed: true, opened: false, activate: Some(index) }
                        } else {
                            MenuResponse { consumed: true, opened: false, activate: None }
                        }
                    },
                    None => {
                        if !inside_trigger {
                            self.open = false;
                            self.hovered_index = None;
                        }
                        nothing
                    },
                }
            },
            EventKind::Move => {
                if self.open {
                    self.hovered_index = item_hit;
                    MenuResponse { consumed: item_hit.is_some(), opened: false, activate: None }
                } else {
                    nothing
                }
            },
            EventKind::Scroll => MenuResponse { consumed: self.open, opened: false, activate: None },
            _ => nothing,
        }
    }
}

/// Moving the highlight down and then up again returns to the same item.
pub proof fn lemma_menu_down_then_up(hovered: usize, len: usize)
    requires
        hovered < len,
    ensures
        prev_highlight(Some(next_highlight(Some(hovered), len)), len) == hovered,
{
    let n = next_highlight(Some(hovered), len);
    if hovered + 1 < len {
        vstd::arithmetic::div_mod::lemma_small_mod((hovered + 1) as nat, len as nat);
        assert(n == hovered + 1);
        vstd::arithmetic::div_mod::lemma_small_mod(hovered as nat, len as nat);
        assert(((n + len - 1) as int) == hovered + len);
        vstd::arithmetic::div_mod::lemma_mod_add_multiples_vanish(hovered as int, len as int);
    } else {
        vstd::arithmetic::div_mod::lemma_mod_self_0(len as int);
        assert(n == 0);
        vstd::arithmetic::div_mod::lemma_small_mod((len - 1) as nat, len as nat);
    }
}

/// Selection state of a drop-down list (the scroll position of its open
/// list is the caller's).
#[derive(Debug, Clone, Copy, PartialEq, Eq, Structural)]
pub struct DropdownChoice {
    pub selected_index: Option<usize>,
    pub hovered: bool,
    pub hovered_option: Option<usize>,
    pub open: bool,
}

/// What a drop-down list did with an event.
#[derive(Debug, Clone, Copy, PartialEq, Eq, Structural)]
pub struct DropdownResponse {
    pub handled: bool,
    /// The option that was chosen.
    pub chosen: Option<usize>,
    /// The list closed: its scroll position goes back to the top.
    pub reset_scroll: bool,
}

impl DropdownChoice {
    /// A closed list with nothing selected.
    pub fn new() -> (d: Self)
        ensures
            d.selected_index is None && !d.hovered && d.hovered_option is None && !d.open,
    {
        DropdownChoice { selected_index: None, hovered: false, hovered_option: None, open: false }
    }

    /// A pointer event. `inside`: the pointer is over the closed part of the
    /// widget; `menu_row`: when the pointer is over the open list, the row
    /// it points at (which may lie past the last option).
    pub fn handle_pointer(
        &mut self,
        event: &EventKind,
        option_count: usize,
        inside: bool,
        menu_row: Option<usize>,
    ) -> (r: DropdownResponse)
        ensures
            match *event {
                EventKind::Move => {
                    &&& final(self).hovered == inside
                    &&& final(self).open == old(self).open
                    &&& final(self).selected_index == old(self).selected_index
                    &&& final(self).hovered_option == (if old(self).open {
                        match menu_row {
                            Some(i) => if i < option_count {
                                Some(i)
                            } else {
                                None
                            },
                            None => None,
                        }
                    } else {
                        old(self).hovered_option
                    })
                    &&& r == DropdownResponse {
                        handled: old(self).open || old(self).hovered != inside,
                        chosen: None,
                        reset_scroll: false,
                    }
                },
                EventKind::Press => if inside {
                    &&& *final(self) == DropdownChoice {
                        open: !old(self).open,
                        hovered: true,
                        ..*old(self)
                    }
                    &&& r == DropdownResponse {
                        handled: true,
                        chosen: None,
                        reset_scroll: old(self).open,
                    }
                } else if old(self).open {
                    match menu_row {
                        Some(i) => if i < option_count {
                            &&& *final(self) == DropdownChoice {
                                selected_index: Some(i),
                                open: false,
                                hovered_option: None,
                                ..*old(self)
                            }
                            &&& r == DropdownResponse {
                                handled: true,
                                chosen: Some(i),
                                reset_scroll: true,
                            }
                        } else {
                            *final(self) == *old(self) && r == DropdownResponse {
                                handled: true,
                                chosen: None,
                                reset_scroll: false,
                            }
                        },
                        None => {
                            &&& *final(self) == DropdownChoice {
                                open: false,
                                hovered_option: None,
                                ..*old(self)
                            }
                            &&& r == DropdownResponse {
                                handled: true,
                                chosen: None,
                                reset_scroll: true,
                            }
                        },
                    }
                } else {
                    *final(self) == *old(self) && r == DropdownResponse {
                        handled: false,
                        chosen: None,
                        reset_scroll: false,
                    }
                },
                _ => {
                    &&& *final(self) == *old(self)
                    &&& r == DropdownResponse { handled: false, chosen: None, reset_scroll: false }
                },
            },
    {
        let nothing = DropdownResponse { handled: false, chosen: None, reset_scroll: false };
        match event {
            EventKind::Move => {
                let was_hovered = self.hovered;
                self.hovered = inside;
                if self.open {
                    self.hovered_option = match menu_row {
                        Some(i) => if i < option_count {
                            Some(i)
                        } else {
                            None
                        },
                        None => None,
                    };
                    DropdownResponse { handled: true, chosen: None, reset_scroll: false }
                } else {
                    DropdownResponse {
                        handled: was_hovered != self.hovered,
                        chosen: None,
                        reset_scroll: false,
                    }
                }
            },
            EventKind::Press => {
                if inside {
                    self.open = !self.open;
                    self.hovered = true;
                    DropdownResponse { handled: true, chosen: None, reset_scroll: !self.open }
                } else if self.open {
                    match menu_row {
                        Some(i) => {
                            if i < option_count {
                                self.selected_index = Some(i);
                                self.open = false;
                                self.hovered_option = None;
                                DropdownResponse { handled: true, chosen: Some(i), reset_scroll: true }
                            } else {
                                DropdownResponse { handled: true, chosen: None, reset_scroll: false }
                            }
                        },
                        None => {
                            self.open = false;
                            self.hovered_option = None;
                            DropdownResponse { handled: true, chosen: None, reset_scroll: true }
                        },
                    }
                } else {
                    nothing
                }
            },
            _ => nothing,
        }
    }
}

/// What a modal dialog does with an event.
#[derive(Debug, Clone, Copy, PartialEq, Eq, Structural)]
pub enum ModalDecision {
    /// Close the dialog (and report that to its owner); the event is consumed.
    Close,
    /// Pass the event to the dialog's content.
    ForwardToContent,
    /// Keep the event from the content; `consumed` says whether it counts as handled.
    Keep { consumed: bool },
}

/// The decision of a modal dialog: closed dialogs take nothing; Escape
/// closes; a press on the backdrop closes when that is enabled; pointer
/// events over the dialog go to its content; moves and releases elsewhere are
/// swallowed so the background stays inert.
pub open spec fn modal_decision(
    open: bool,
    event: EventKind,
    close_on_backdrop_click: bool,
    inside: bool,
) -> ModalDecision {
    if !open {
        ModalDecision::Keep { consumed: false }
    } else {
        match event {
            EventKind::Key(k, _) => if is_named(k, NamedKey::Escape) {
                ModalDecision::Close
            } else {
                ModalDecision::Keep { consumed: false }
            },
            EventKind::Press => if close_on_backdrop_click && !inside {
                ModalDecision::Close
            } else if inside {
                ModalDecision::ForwardToContent
            } else {
                ModalDecision::Keep { consumed: false }
            },
            EventKind::Move | EventKind::Release => if inside {
                ModalDecision::ForwardToContent
            } else {
                ModalDecision::Keep { consumed: true }
            },
            _ => ModalDecision::Keep { consumed: false },
        }
    }
}

/// An open dialog hands every pointer press, move and release over it to
/// its content, and none from outside it; a closed dialog takes no event.
pub proof fn lemma_modal_pointer_routing(event: EventKind, close_on_backdrop_click: bool, inside: bool)
    requires
        event is Move || event is Press || event is Release,
    ensures
        inside ==> modal_decision(true, event, close_on_backdrop_click, inside)
            == ModalDecision::ForwardToContent,
        !inside ==> modal_decision(true, event, close_on_backdrop_click, inside)
            != ModalDecision::ForwardToContent,
        modal_decision(false, event, close_on_backdrop_click, inside) == (ModalDecision::Keep {
            consumed: false,
        }),
{
}

/// Escape closes an open dialog; a press outside it closes it when that is
/// enabled and is otherwise left to the rest of the interface.
pub proof fn lemma_modal_closing(k: Key, m: Modifiers, close_on_backdrop_click: bool, inside: bool)
    ensures
        is_named(k, NamedKey::Escape) ==> modal_decision(
            true,
            EventKind::Key(k, m),
            close_on_backdrop_click,
            inside,
        ) == ModalDecision::Close,
        !is_named(k, NamedKey::Escape) ==> modal_decision(
            true,
            EventKind::Key(k, m),
            close_on_backdrop_click,
            inside,
        ) != ModalDecision::Close,
        !inside ==> modal_decision(true, EventKind::Press, close_on_backdrop_click, inside) == (
        if close_on_backdrop_click {
            ModalDecision::Close
        } else {
            ModalDecision::Keep { consumed: false }
        }),
{
}

/// Decide what a modal dialog does with an event; `inside`: the pointer is
/// over the dialog.
pub fn decide_modal(open: bool, event: &EventKind, close_on_backdrop_click: bool, inside: bool) -> (d:
    ModalDecision)
    ensures
        d == modal_decision(open, *event, close_on_backdrop_click, inside),
{
    if !open {
        return ModalDecision::Keep { consumed: false };
    }
    match event {
        EventKind::Key(k, _) => {
            if key_is(k, NamedKey::Escape) {
                ModalDecision::Close
            } else {
                ModalDecision::Keep { consumed: false }
            }
        },
        EventKind::Press => {
            if close_on_backdrop_click && !inside {
                ModalDecision::Close
            } else if inside {
                ModalDecision::ForwardToContent
            } else {
                ModalDecision::Keep { consumed: false }
            }
        },
        EventKind::Move | EventKind::Release => {
            if inside {
                ModalDecision::ForwardToContent
            } else {
                ModalDecision::Keep { consumed: true }
            }
        },
        _ => ModalDecision::Keep { consumed: false },
    }
}

/// Hover tracking of a tooltip: whether the pointer is over the wrapped
/// widget, and for how many consecutive pointer moves.
#[derive(Debug, Clone, Copy, PartialEq, Eq, Structural)]
pub struct HoverTimer {
    pub hovered: bool,
    pub hover_frames: u32,
}

impl HoverTimer {
    /// Not hovered.
    pub fn new() -> (t: Self)
        ensures
            !t.hovered && t.hover_frames == 0,
    {
        HoverTimer { hovered: false, hover_frames: 0 }
    }

    /// A pointer move; `inside`: it is over the wrapped widget. Returns
    /// whether the state must be saved.
    pub fn on_move(&mut self, inside: bool) -> (needs_update: bool)
        requires
            inside ==> old(self).hover_frames < u32::MAX,
        ensures
            final(self).hovered == inside,
            final(self).hover_frames == (if inside {
                (old(self).hover_frames + 1) as u32
            } else {
                0u32
            }),
            needs_update == (old(self).hovered != inside || final(self).hover_frames > 0),
    {
        let was_hovered = self.hovered;
        self.hovered = inside;
        if inside {
            self.hover_frames = self.hover_frames + 1;
        } else {
            self.hover_frames = 0;
        }
        was_hovered != self.hovered || self.hover_frames > 0
    }

    /// The tooltip shows once the pointer has stayed for `delay_frames` moves.
    pub fn shows(&self, delay_frames: u32) -> (r: bool)
        ensures
            r == (self.hovered && self.hover_frames >= delay_frames),
    {
        self.hovered && self.hover_frames >= delay_frames
    }
}

} // verus!
