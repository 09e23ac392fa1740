//! Per-widget state types and the rules by which the built-in widgets update
//! them in response to input. Geometry stays with the caller: each rule takes
//! the outcome of the widget's hit test (inside or not, which item) beside
//! the event.
use vstd::prelude::*;
use crate::input::{EventKind, Key, NamedKey, is_named, key_is};

verus! {

/// Hover and press state of a button.
#[derive(Debug, Clone)]
pub struct ButtonState {
    pub hovered: bool,
    pub pressed: bool,
}

impl Default for ButtonState {
    fn default() -> (s: Self)
        ensures
            !s.hovered && !s.pressed,
    {
        ButtonState { hovered: false, pressed: false }
    }
}

/// What a button did with an event.
#[derive(Debug, Clone, Copy, PartialEq, Eq, Structural)]
pub struct ButtonResponse {
    /// The event changed something visible or clicked the button.
    pub handled: bool,
    /// The button was clicked: pressed and released inside it.
    pub clicked: bool,
}

impl ButtonState {
    /// Update on a pointer event; `inside`: the pointer is over the button.
    pub fn handle_event(&mut self, event: &EventKind, inside: bool) -> (r: ButtonResponse)
        ensures
            match *event {
                EventKind::Move => {
                    &&& final(self).hovered == inside
                    &&& final(self).pressed == old(self).pressed
                    &&& r == ButtonResponse { handled: old(self).hovered != inside, clicked: false }
                },
                EventKind::Press => {
                    &&& final(self).hovered == old(self).hovered
                    &&& final(self).pressed == (old(self).pressed || inside)
                    &&& r == ButtonResponse { handled: inside, clicked: false }
                },
                EventKind::Release => {
                    &&& final(self).hovered == old(self).hovered
                    &&& !final(self).pressed
                    &&& r == ButtonResponse {
                        handled: old(self).pressed && inside,
                        clicked: old(self).pressed && inside,
                    }
                },
                _ => {
                    &&& final(self).hovered == old(self).hovered
                    &&& final(self).pressed == old(self).pressed
                    &&& r == ButtonResponse { handled: false, clicked: false }
                },
            },
    {
        match event {
            EventKind::Move => {
                let was_hovered = self.hovered;
                self.hovered = inside;
                ButtonResponse { handled: was_hovered != self.hovered, clicked: false }
            },
            EventKind::Press => {
                if inside {
                    self.pressed = true;
                    ButtonResponse { handled: true, clicked: false }
                } else {
                    ButtonResponse { handled: false, clicked: false }
                }
            },
            EventKind::Release => {
                let was_pressed = self.pressed;
                self.pressed = false;
                if was_pressed && inside {
                    ButtonResponse { handled: true, clicked: true }
                } else {
                    ButtonResponse { handled: false, clicked: false }
                }
            },
            _ => ButtonResponse { handled: false, clicked: false },
        }
    }
}

/// Checked and hover state of a checkbox.
#[derive(Debug, Clone)]
pub struct CheckboxState {
    pub checked: bool,
    pub hovered: bool,
}

impl Default for CheckboxState {
    fn default() -> (s: Self)
        ensures
            !s.checked && !s.hovered,
    {
        CheckboxState { checked: false, hovered: false }
    }
}

/// What a checkbox did with an event.
#[derive(Debug, Clone, Copy, PartialEq, Eq, Structural)]
pub struct CheckboxResponse {
    pub handled: bool,
    /// The new checked value, when a press toggled it.
    pub toggled_to: Option<bool>,
}

impl CheckboxState {
    /// The checked value drawn: a checkbox constructed as checked shows as
    /// checked.
    pub fn displayed_checked(&self, initial_checked: bool) -> (r: bool)
        ensures
            r == (self.checked || initial_checked),
    {
        self.checked || initial_checked
    }

    /// Update on an event; `initial_checked`: the value the checkbox was
    /// constructed with, which counts as checked when the state is not;
    /// `inside`: the pointer is over the checkbox.
    pub fn handle_event(&mut self, initial_checked: bool, event: &EventKind, inside: bool) -> (r:
        CheckboxResponse)
        ensures
            ({
                let base = old(self).checked || initial_checked;
                match *event {
                    EventKind::Move => {
                        &&& final(self).checked == base
                        &&& final(self).hovered == inside
                        &&& r == CheckboxResponse { handled: false, toggled_to: None }
                    },
                    EventKind::Press => {
                        &&& final(self).hovered == old(self).hovered
                        &&& final(self).checked == (if inside {
                            !base
                        } else {
                            base
                        })
                        &&& r == (if inside {
                            CheckboxResponse { handled: true, toggled_to: Some(!base) }
                        } else {
                            CheckboxResponse { handled: false, toggled_to: None }
                        })
                    },
                    _ => {
                        &&& final(self).checked == base
                        &&& final(self).hovered == old(self).hovered
                        &&& r == CheckboxResponse { handled: false, toggled_to: None }
                    },
                }
            }),
    {
        if !self.checked && initial_checked {
            self.checked = true;
        }
        match event {
            EventKind::Move => {
                self.hovered = inside;
                CheckboxResponse { handled: false, toggled_to: None }
            },
            EventKind::Press => {
                if inside {
                    self.checked = !self.checked;
                    CheckboxResponse { handled: true, toggled_to: Some(self.checked) }
                } else {
                    CheckboxResponse { handled: false, toggled_to: None }
                }
            },
            _ => CheckboxResponse { handled: false, toggled_to: None },
        }
    }
}

/// Selected and hovered option of a radio button group.
#[derive(Debug, Clone)]
pub struct RadioButtonsState {
    pub selected_index: Option<usize>,
    pub hovered_index: Option<usize>,
}

impl Default for RadioButtonsState {
    fn default() -> (s: Self)
        ensures
            s.selected_index is None && s.hovered_index is None,
    {
        RadioButtonsState { selected_index: None, hovered_index: None }
    }
}

/// What a radio button group did with an event.
#[derive(Debug, Clone, Copy, PartialEq, Eq, Structural)]
pub struct SelectionResponse {
    pub handled: bool,
    /// The option that became selected, when the selection changed.
    pub changed_to: Option<usize>,
}

impl RadioButtonsState {
    /// Before drawing: with nothing selected yet, the option the group was
    /// constructed with (clamped to the last option) becomes selected. True
    /// if the state changed and must be saved.
    pub fn apply_initial(&mut self, initial: Option<usize>, option_count: usize) -> (dirty: bool)
        ensures
            dirty == (old(self).selected_index is None && initial is Some && option_count > 0),
            final(self).hovered_index == old(self).hovered_index,
            final(self).selected_index == (if dirty {
                Some(
                    if initial->0 < option_count {
                        initial->0
                    } else {
                        (option_count - 1) as usize
                    },
                )
            } else {
                old(self).selected_index
            }),
    {
        if self.selected_index.is_none() && option_count > 0 {
            match initial {
                Some(i) => {
                    let clamped = if i < option_count {
                        i
                    } else {
                        option_count - 1
                    };
                    self.selected_index = Some(clamped);
                    return true;
                },
                None => {},
            }
        }
        false
    }

    /// Update on an event; `hit`: the option under the pointer, if any.
    pub fn handle_event(&mut self, option_count: usize, event: &EventKind, hit: Option<usize>) -> (r:
        SelectionResponse)
        requires
            hit matches Some(i) ==> i < option_count,
        ensures
            option_count == 0 ==> {
                &&& *final(self) == *old(self)
                &&& r == SelectionResponse { handled: false, changed_to: None }
            },
            option_count > 0 ==> match *event {
                EventKind::Move => {
                    &&& final(self).selected_index == old(self).selected_index
                    &&& final(self).hovered_index == hit
                    &&& r == SelectionResponse {
                        handled: hit != old(self).hovered_index && hit is Some,
                        changed_to: None,
                    }
                },
                EventKind::Press => match hit {
                    Some(i) => {
                        &&& final(self).selected_index == Some(i)
                        &&& final(self).hovered_index == Some(i)
                        &&& r == SelectionResponse {
                            handled: true,
                            changed_to: if old(self).selected_index != Some(i) {
                                Some(i)
                            } else {
                                None
                            },
                        }
                    },
                    None => {
                        &&& *final(self) == *old(self)
                        &&& r == SelectionResponse { handled: false, changed_to: None }
                    },
                },
                _ => {
                    &&& *final(self) == *old(self)
                    &&& r == SelectionResponse { handled: false, changed_to: None }
                },
            },
    {
        if option_count == 0 {
            return SelectionResponse { handled: false, changed_to: None };
        }
        match event {
            EventKind::Move => {
                if hit != self.hovered_index {
                    self.hovered_index = hit;
                    SelectionResponse { handled: hit.is_some(), changed_to: None }
                } else {
                    SelectionResponse { handled: false, changed_to: None }
                }
            },
            EventKind::Press => match hit {
                Some(index) => {
                    let selection_changed = self.selected_index != Some(index);
                    self.selected_index = Some(index);
                    self.hovered_index = Some(index);
                    SelectionResponse {
                        handled: true,
                        changed_to: if selection_changed {
                            Some(index)
                        } else {
                            None
                        },
                    }
                },
                None => SelectionResponse { handled: false, changed_to: None },
            },
            _ => SelectionResponse { handled: false, changed_to: None },
        }
    }
}

/// State of a single-line text input.
#[derive(Debug, Clone)]
pub struct TextInputState {
    pub text: String,
    pub focused: bool,
    pub cursor_pos: usize,
    pub selection_start: Option<usize>,
    pub hovered: bool,
    pub error_message: Option<String>,
    pub has_interacted: bool,
}

impl Default for TextInputState {
    fn default() -> (s: Self)
        ensures
            s.text@ == Seq::<char>::empty(),
            !s.focused && s.cursor_pos == 0 && s.selection_start is None,
            !s.hovered && s.error_message is None && !s.has_interacted,
    {
        TextInputState {
            text: String::new(),
            focused: false,
            cursor_pos: 0,
            selection_start: None,
            hovered: false,
            error_message: None,
            has_interacted: false,
        }
    }
}

impl TextInputState {
    /// An error message is shown once the user has interacted with the
    /// input and the validator reported one.
    pub fn shows_error(&self) -> (r: bool)
        ensures
            r == (self.has_interacted && self.error_message is Some),
    {
        self.has_interacted && self.error_message.is_some()
    }
}

/// Selected and hovered tab.
#[derive(Debug, Clone)]
pub struct TabsState {
    pub selected_index: Option<usize>,
    pub hovered_index: Option<usize>,
}

impl Default for TabsState {
    fn default() -> (s: Self)
        ensures
            s.selected_index is None && s.hovered_index is None,
    {
        TabsState { selected_index: None, hovered_index: None }
    }
}

/// The tab that is selected after `sync_state`: the stored one, else the
/// initial one (else the first), clamped to the last tab.
pub open spec fn synced_selection(s: TabsState, tab_count: usize, initial: Option<usize>) -> usize {
    let default_index = match initial {
        Some(i) => i,
        None => 0usize,
    };
    let default_clamped = if default_index < tab_count {
        default_index
    } else {
        (tab_count - 1) as usize
    };
    let current = match s.selected_index {
        Some(i) => i,
        None => default_clamped,
    };
    if current < tab_count {
        current
    } else {
        (tab_count - 1) as usize
    }
}

/// The state after `sync_state`, with the selected tab and whether the
/// state changed.
pub open spec fn sync_effect(s: TabsState, tab_count: usize, initial: Option<usize>) -> (
    TabsState,
    Option<usize>,
    bool,
) {
    if tab_count == 0 {
        (
            TabsState { selected_index: None, hovered_index: None },
            None,
            s.selected_index is Some || s.hovered_index is Some,
        )
    } else {
        let sel = synced_selection(s, tab_count, initial);
        let drop_hover = s.hovered_index matches Some(h) && h >= tab_count;
        (
            TabsState {
                selected_index: Some(sel),
                hovered_index: if drop_hover {
                    None
                } else {
                    s.hovered_index
                },
            },
            Some(sel),
            drop_hover || s.selected_index != Some(sel),
        )
    }
}

/// A selection the user made stays: when the stored tab exists, syncing
/// keeps it whatever the initial tab is (the initial tab only stands in for
/// a missing selection), and reports a change only when a stale hover is
/// dropped.
pub proof fn lemma_sync_keeps_user_selection(
    s: TabsState,
    tab_count: usize,
    initial: Option<usize>,
    i: usize,
)
    requires
        s.selected_index == Some(i),
        i < tab_count,
    ensures
        synced_selection(s, tab_count, initial) == i,
        sync_effect(s, tab_count, initial).0.selected_index == Some(i),
        sync_effect(s, tab_count, initial).1 == Some(i),
        sync_effect(s, tab_count, initial).2 == (s.hovered_index matches Some(h) && h >= tab_count),
{
}

/// Without a stored selection, syncing selects the initial tab (the first
/// when there is none), clamped to the last tab, and reports the change.
pub proof fn lemma_sync_selects_initial_tab(s: TabsState, tab_count: usize, initial: Option<usize>)
    requires
        s.selected_index is None,
        tab_count > 0,
    ensures
        ({
            let want = match initial {
                Some(k) => k,
                None => 0,
            };
            synced_selection(s, tab_count, initial) == if want < tab_count {
                want
            } else {
                (tab_count - 1) as usize
            }
        }),
        sync_effect(s, tab_count, initial).2,
{
}

/// What a tab bar did with an event.
#[derive(Debug, Clone, Copy, PartialEq, Eq, Structural)]
pub struct TabsResponse {
    /// The tab bar used the event.
    pub consumed: bool,
    /// The state changed and must be saved.
    pub dirty: bool,
    /// The tab that became selected, when the selection changed.
    pub changed_to: Option<usize>,
    /// The tab whose content gets the event when the bar did not consume it.
    pub forward_to: Option<usize>,
}

impl TabsState {
    /// Bring the state in line with the tabs present: no tabs means no
    /// selection and no hover; otherwise a hover beyond the last tab is
    /// dropped and the selection is made valid. Returns the selected tab and
    /// whether the state changed.
    pub fn sync_state(&mut self, tab_count: usize, initial: Option<usize>) -> (r: (
        Option<usize>,
        bool,
    ))
        ensures
            final(self).selected_index == sync_effect(*old(self), tab_count, initial).0.selected_index,
            final(self).hovered_index == sync_effect(*old(self), tab_count, initial).0.hovered_index,
            r == (sync_effect(*old(self), tab_count, initial).1, sync_effect(
                *old(self),
                tab_count,
                initial,
            ).2),
            tab_count > 0 ==> synced_selection(*old(self), tab_count, initial) < tab_count,
    {
        if tab_count == 0 {
            let had_state = self.selected_index.is_some() || self.hovered_index.is_some();
            self.selected_index = None;
            self.hovered_index = None;
            return (None, had_state);
        }
        let mut dirty = false;
        match self.hovered_index {
            Some(hover) => {
                if hover >= tab_count {
                    self.hovered_index = None;
                    dirty = true;
                }
            },
            None => {},
        }
        let default_index = match initial {
            Some(i) => i,
            None => 0,
        };
        let default_clamped = if default_index < tab_count {
            default_index
        } else {
            tab_count - 1
        };
        let current0 = match self.selected_index {
            Some(i) => i,
            None => default_clamped,
        };
        let current = if current0 < tab_count {
            current0
        } else {
            tab_count - 1
        };
        if self.selected_index != Some(current) {
            self.selected_index = Some(current);
            dirty = true;
        }
        (Some(current), dirty)
    }

    /// Update on an event: sync the state, then hover on Move, hover on
    /// Press and select on Release over a tab (`hit`). An event the bar does
    /// not consume goes to the selected tab's content.
    pub fn handle_event(
        &mut self,
        tab_count: usize,
        initial: Option<usize>,
        event: &EventKind,
        hit: Option<usize>,
    ) -> (r: TabsResponse)
        requires
            hit matches Some(i) ==> i < tab_count,
        ensures
            ({
                let sel = if tab_count > 0 {
                    Some(synced_selection(*old(self), tab_count, initial))
                } else {
                    None
                };
                let sync_dirty = if tab_count == 0 {
                    old(self).selected_index is Some || old(self).hovered_index is Some
                } else {
                    (old(self).hovered_index matches Some(h) && h >= tab_count)
                        || old(self).selected_index != sel
                };
                let synced_hover = if tab_count == 0 {
                    None
                } else if old(self).hovered_index matches Some(h) && h >= tab_count {
                    None
                } else {
                    old(self).hovered_index
                };
                match *event {
                    EventKind::Move => {
                        &&& final(self).selected_index == sel
                        &&& final(self).hovered_index == hit
                        &&& r == TabsResponse {
                            consumed: hit is Some,
                            dirty: sync_dirty || hit != synced_hover,
                            changed_to: None,
                            forward_to: if hit is Some {
                                None
                            } else {
                                sel
                            },
                        }
                    },
                    EventKind::Press => {
                        &&& final(self).selected_index == sel
                        &&& final(self).hovered_index == (if hit is Some {
                            hit
                        } else {
                            synced_hover
                        })
                        &&& r == TabsResponse {
                            consumed: hit is Some,
                            dirty: sync_dirty || hit is Some,
                            changed_to: None,
                            forward_to: if hit is Some {
                                None
                            } else {
                                sel
                            },
                        }
                    },
                    EventKind::Release => {
                        &&& final(self).selected_index == (if hit is Some {
                            hit
                        } else {
                            sel
                        })
                        &&& final(self).hovered_index == (if hit is Some {
                            hit
                        } else {
                            synced_hover
                        })
                        &&& r == TabsResponse {
                            consumed: hit is Some,
                            dirty: sync_dirty || hit is Some,
                            changed_to: if hit is Some && sel != hit {
                                hit
                            } else {
                                None
                            },
                            forward_to: if hit is Some {
                                None
                            } else {
                                sel
                            },
                        }
                    },
                    _ => {
                        &&& final(self).selected_index == sel
                        &&& final(self).hovered_index == synced_hover
                        &&& r == TabsResponse {
                            consumed: false,
                            dirty: sync_dirty,
                            changed_to: None,
                            forward_to: sel,
                        }
                    },
                }
            }),
    {
        let (selected, mut dirty) = self.sync_state(tab_count, initial);
        let mut consumed = false;
        let mut changed_to: Option<usize> = None;
        match event {
            EventKind::Move => {
                if hit != self.hovered_index {
                    self.hovered_index = hit;
                    dirty = true;
                }
                consumed = hit.is_some();
            },
            EventKind::Press => {
                match hit {
                    Some(index) => {
                        self.hovered_index = Some(index);
                        dirty = true;
                        consumed = true;
                    },
                    None => {},
                }
            },
            EventKind::Release => {
                match hit {
                    Some(index) => {
                        let previous = self.selected_index;
                        self.selected_index = Some(index);
                        self.hovered_index = Some(index);
                        dirty = true;
                        consumed = true;
                        if previous != Some(index) {
                            changed_to = Some(index);
                        }
                    },
                    None => {},
                }
            },
            _ => {},
        }
        TabsResponse {
            consumed,
            dirty,
            changed_to,
            forward_to: if consumed {
                None
            } else {
                selected
            },
        }
    }
}

/// Text override of a label.
#[derive(Debug, Clone)]
pub struct LabelState {
    pub text: Option<String>,
}

impl Default for LabelState {
    fn default() -> (s: Self)
        ensures
            s.text is None,
    {
        LabelState { text: None }
    }
}

impl LabelState {
    /// The text a label shows: the stored override if any, else its own text.
    pub fn display_text(&self, default_text: &String) -> (r: String)
        ensures
            r@ == (match self.text {
                Some(t) => t@,
                None => default_text@,
            }),
    {
        match &self.text {
            Some(t) => t.clone(),
            None => default_text.clone(),
        }
    }
}

/// Cross-axis alignment of the children of a row or column.
#[derive(Debug, Clone, Copy, PartialEq, Eq, Structural)]
pub enum Align {
    Start,
    Center,
    End,
    /// Fill the cross-axis (e.g., vertically in a column, horizontally in a row)
    Stretch,
}

/// Syncing is settled after one round: syncing a synced state changes
/// nothing and keeps the same selection.
pub proof fn lemma_sync_idempotent(s: TabsState, tab_count: usize, initial: Option<usize>)
    ensures
        ({
            let once = sync_effect(s, tab_count, initial);
            let twice = sync_effect(once.0, tab_count, initial);
            &&& !twice.2
            &&& twice.0 == once.0
            &&& twice.1 == once.1
        }),
        tab_count > 0 ==> (sync_effect(s, tab_count, initial).1 matches Some(i) && i < tab_count),
{
}

} // verus!
