//! The editing model shared by single-line and multi-line text inputs: text,
//! cursor, selection and character limit, with every edit the inputs perform.
use vstd::prelude::*;
use vstd::string::*;
use crate::input::{EditCommand, is_control, is_control_char};

verus! {

/// Calls `String::push`: appends one character.
#[verifier::external_body]
fn string_push(s: &mut String, c: char)
    ensures
        final(s)@ == old(s)@.push(c),
{
    s.push(c);
}

/// The characters of `s`, in order.
pub fn chars_of(s: &str) -> (v: Vec<char>)
    ensures
        v@ == s@,
{
    let mut v: Vec<char> = Vec::new();
    for c in it: s.chars()
        invariant
            v.len() == it.index(),
            forall|k: int| 0 <= k < v.len() ==> v@[k] == it.seq()[k],
    {
        v.push(c);
    }
    assert(v@ =~= s@);
    v
}

/// The string made of the characters of `chars`, in order.
pub fn string_of(chars: &Vec<char>) -> (s: String)
    ensures
        s@ == chars@,
{
    let mut s = String::new();
    let mut i: usize = 0;
    while i < chars.len()
        invariant
            i <= chars.len(),
            s@ == chars@.take(i as int),
        decreases chars.len() - i,
    {
        string_push(&mut s, chars[i]);
        assert(chars@.take(i + 1) =~= chars@.take(i as int).push(chars@[i as int]));
        i += 1;
    }
    assert(chars@.take(chars.len() as int) =~= chars@);
    s
}


/// Copies `chars` without the characters at positions `start..end`.
fn without_range(chars: &Vec<char>, start: usize, end: usize) -> (r: Vec<char>)
    requires
        start <= end <= chars@.len(),
    ensures
        r@ == chars@.subrange(0, start as int) + chars@.subrange(end as int, chars@.len() as int),
{
    let mut r: Vec<char> = Vec::new();
    let mut i: usize = 0;
    while i < start
        invariant
            i <= start <= end <= chars@.len(),
            r@ == chars@.subrange(0, i as int),
        decreases start - i,
    {
        r.push(chars[i]);
        assert(chars@.subrange(0, i + 1) =~= chars@.subrange(0, i as int).push(chars@[i as int]));
        i += 1;
    }
    let mut j: usize = end;
    while j < chars.len()
        invariant
            start <= end <= j <= chars@.len(),
            r@ == chars@.subrange(0, start as int) + chars@.subrange(end as int, j as int),
        decreases chars.len() - j,
    {
        r.push(chars[j]);
        assert(chars@.subrange(end as int, j + 1) =~= chars@.subrange(end as int, j as int).push(
            chars@[j as int],
        ));
        j += 1;
    }
    r
}

/// The abstract state of a text editor: its characters, cursor, selection
/// anchor and character limit.
pub struct EditView {
    pub text: Seq<char>,
    pub cursor: usize,
    pub anchor: Option<usize>,
    pub limit: Option<usize>,
}

/// Cursor and anchor lie within the text.
pub open spec fn positions_valid(v: EditView) -> bool {
    &&& v.cursor <= v.text.len()
    &&& v.anchor matches Some(a) ==> a <= v.text.len()
}

/// The selected range, ordered: from the smaller of anchor and cursor to the larger.
pub open spec fn selection_range(v: EditView) -> Option<(usize, usize)> {
    match v.anchor {
        Some(a) => if a < v.cursor {
            Some((a, v.cursor))
        } else {
            Some((v.cursor, a))
        },
        None => None,
    }
}

/// The selected characters.
pub open spec fn selected_chars(v: EditView) -> Option<Seq<char>> {
    match selection_range(v) {
        Some((a, b)) => Some(v.text.subrange(a as int, b as int)),
        None => None,
    }
}

/// How many more characters the limit allows (`None` when there is no limit).
pub open spec fn remaining_capacity_of(v: EditView) -> Option<usize> {
    match v.limit {
        Some(l) => Some(if l >= v.text.len() {
            (l - v.text.len()) as usize
        } else {
            0usize
        }),
        None => None,
    }
}

/// Removing the selection: its characters go, the cursor moves to where it
/// began and the selection ends. Without a selection nothing changes.
pub open spec fn delete_selection_effect(v: EditView) -> EditView {
    match selection_range(v) {
        Some((a, b)) => EditView {
            text: v.text.subrange(0, a as int) + v.text.subrange(b as int, v.text.len() as int),
            cursor: a,
            anchor: None,
            ..v
        },
        None => v,
    }
}

/// How many characters of an incoming text of `incoming` characters fit.
pub open spec fn accepted_count(v: EditView, incoming: nat) -> nat {
    match remaining_capacity_of(v) {
        Some(r) => if incoming <= r {
            incoming
        } else {
            r as nat
        },
        None => incoming,
    }
}

/// Inserting `s` at the cursor: the selection is removed first, then as many
/// leading characters of `s` as the limit allows go in at the cursor, which
/// moves past them.
pub open spec fn insert_effect(v: EditView, s: Seq<char>) -> EditView {
    let d = delete_selection_effect(v);
    let n = accepted_count(d, s.len());
    EditView {
        text: d.text.subrange(0, d.cursor as int) + s.take(n as int) + d.text.subrange(
            d.cursor as int,
            d.text.len() as int,
        ),
        cursor: (d.cursor + n) as usize,
        ..d
    }
}

/// Whether inserting `s` changes anything: a selection was removed or some
/// character went in.
pub open spec fn insert_changes(v: EditView, s: Seq<char>) -> bool {
    v.anchor is Some || accepted_count(delete_selection_effect(v), s.len()) > 0
}

/// Backspace: removes the selection if there is one, else the character
/// before the cursor (if any).
pub open spec fn backspace_effect(v: EditView) -> EditView {
    if v.anchor is Some {
        delete_selection_effect(v)
    } else if v.cursor > 0 {
        EditView {
            text: v.text.remove(v.cursor - 1),
            cursor: (v.cursor - 1) as usize,
            ..v
        }
    } else {
        v
    }
}

/// Whether Backspace changes anything.
pub open spec fn backspace_changes(v: EditView) -> bool {
    v.anchor is Some || v.cursor > 0
}

/// Delete: removes the selection if there is one, else the character after
/// the cursor (if any).
pub open spec fn delete_forward_effect(v: EditView) -> EditView {
    if v.anchor is Some {
        delete_selection_effect(v)
    } else if v.cursor < v.text.len() {
        EditView { text: v.text.remove(v.cursor as int), ..v }
    } else {
        v
    }
}

/// Whether Delete changes anything.
pub open spec fn delete_forward_changes(v: EditView) -> bool {
    v.anchor is Some || v.cursor < v.text.len()
}

/// With Shift held a selection starts at the cursor unless one is already
/// going; without Shift the selection ends.
pub open spec fn shift_anchor(v: EditView, extend: bool) -> Option<usize> {
    if extend {
        if v.anchor is None {
            Some(v.cursor)
        } else {
            v.anchor
        }
    } else {
        None
    }
}

/// Cursor movement to `target`, extending the selection when `extend`.
pub open spec fn move_effect(v: EditView, extend: bool, target: usize) -> EditView {
    EditView { cursor: target, anchor: shift_anchor(v, extend), ..v }
}

/// Left arrow target.
pub open spec fn left_target(v: EditView) -> usize {
    if v.cursor > 0 {
        (v.cursor - 1) as usize
    } else {
        v.cursor
    }
}

/// Right arrow target.
pub open spec fn right_target(v: EditView) -> usize {
    if v.cursor < v.text.len() {
        (v.cursor + 1) as usize
    } else {
        v.cursor
    }
}

/// Select all: the selection runs from the start to the end, where the cursor goes.
pub open spec fn select_all_effect(v: EditView) -> EditView {
    EditView { anchor: Some(0usize), cursor: v.text.len() as usize, ..v }
}

/// The text after a sanitizer's output replaces it (when there is one) and
/// the character limit truncates it.
pub open spec fn finalized_text(v: EditView, sanitized: Option<Seq<char>>) -> Seq<char> {
    let t = match sanitized {
        Some(s) => s,
        None => v.text,
    };
    match v.limit {
        Some(l) => if t.len() > l {
            t.take(l as int)
        } else {
            t
        },
        None => t,
    }
}

/// Settling an edit: the sanitized, truncated text, and the cursor clamped to it.
pub open spec fn finalize_effect(v: EditView, sanitized: Option<Seq<char>>) -> EditView {
    let t = finalized_text(v, sanitized);
    EditView {
        text: t,
        cursor: if v.cursor <= t.len() {
            v.cursor
        } else {
            t.len() as usize
        },
        ..v
    }
}

/// The characters of an optional string.
pub open spec fn string_option_view(s: Option<String>) -> Option<Seq<char>> {
    match s {
        Some(t) => Some(t@),
        None => None,
    }
}

/// The text-editing model of an input widget.
#[derive(Debug, Clone)]
pub struct TextEditor {
    pub text: String,
    /// Cursor position, in characters.
    pub cursor_pos: usize,
    /// Where the selection began (the selection runs from here to the cursor).
    pub selection_start: Option<usize>,
    /// Maximum number of characters, if limited.
    pub max_chars: Option<usize>,
}

impl View for TextEditor {
    type V = EditView;

    open spec fn view(&self) -> EditView {
        EditView {
            text: self.text@,
            cursor: self.cursor_pos,
            anchor: self.selection_start,
            limit: self.max_chars,
        }
    }
}

impl TextEditor {
    /// An empty editor with the given character limit.
    pub fn new(max_chars: Option<usize>) -> (e: Self)
        ensures
            e@.text == Seq::<char>::empty(),
            e@.cursor == 0,
            e@.anchor is None,
            e@.limit == max_chars,
    {
        TextEditor { text: String::new(), cursor_pos: 0, selection_start: None, max_chars }
    }

    /// An editor over stored text, cursor and selection. With `clamp_cursor`
    /// (as the multi-line input does) a cursor past the end of the text (left
    /// from a longer text) moves to its end; otherwise, and for the selection
    /// start, the stored positions are kept as they are.
    pub fn restore(
        text: String,
        cursor_pos: usize,
        selection_start: Option<usize>,
        max_chars: Option<usize>,
        clamp_cursor: bool,
    ) -> (e: Self)
        ensures
            e@.text == text@,
            e@.limit == max_chars,
            e@.cursor == (if clamp_cursor && cursor_pos > text@.len() {
                text@.len() as usize
            } else {
                cursor_pos
            }),
            e@.anchor == selection_start,
    {
        let cursor = if clamp_cursor {
            let count = text.as_str().unicode_len();
            if cursor_pos > count {
                count
            } else {
                cursor_pos
            }
        } else {
            cursor_pos
        };
        TextEditor { text, cursor_pos: cursor, selection_start, max_chars }
    }

    /// Whether cursor and selection start lie within the text.
    pub fn positions_in_text(&self) -> (r: bool)
        ensures
            r == positions_valid(self@),
    {
        let count = self.char_count();
        self.cursor_pos <= count && match self.selection_start {
            Some(a) => a <= count,
            None => true,
        }
    }

    /// Number of characters in the text.
    pub fn char_count(&self) -> (n: usize)
        ensures
            n == self@.text.len(),
    {
        self.text.as_str().unicode_len()
    }

    /// How many more characters the limit allows.
    pub fn remaining_capacity(&self) -> (r: Option<usize>)
        ensures
            r == remaining_capacity_of(self@),
    {
        match self.max_chars {
            Some(limit) => Some(limit.saturating_sub(self.char_count())),
            None => None,
        }
    }

    /// The normalized selection range (start, end) where start <= end.
    pub fn get_selection_range(&self) -> (r: Option<(usize, usize)>)
        ensures
            r == selection_range(self@),
    {
        match self.selection_start {
            Some(start) => if start < self.cursor_pos {
                Some((start, self.cursor_pos))
            } else {
                Some((self.cursor_pos, start))
            },
            None => None,
        }
    }

    /// The selected text, if any.
    pub fn get_selected_text(&self) -> (r: Option<String>)
        requires
            positions_valid(self@),
        ensures
            match r {
                Some(s) => selected_chars(self@) == Some(s@),
                None => selected_chars(self@) is None,
            },
    {
        match self.get_selection_range() {
            Some((start, end)) => {
                let chars = chars_of(self.text.as_str());
                let mut picked: Vec<char> = Vec::new();
                let mut i: usize = start;
                while i < end
                    invariant
                        start <= i <= end <= chars@.len(),
                        picked@ == chars@.subrange(start as int, i as int),
                    decreases end - i,
                {
                    picked.push(chars[i]);
                    assert(chars@.subrange(start as int, i + 1) =~= chars@.subrange(
                        start as int,
                        i as int,
                    ).push(chars@[i as int]));
                    i += 1;
                }
                Some(string_of(&picked))
            },
            None => None,
        }
    }

    /// Delete the current selection; true if there was one.
    pub fn delete_selection(&mut self) -> (changed: bool)
        requires
            positions_valid(old(self)@),
        ensures
            final(self)@ == delete_selection_effect(old(self)@),
            changed == old(self)@.anchor is Some,
            positions_valid(final(self)@),
    {
        match self.get_selection_range() {
            Some((start, end)) => {
                let chars = chars_of(self.text.as_str());
                let kept = without_range(&chars, start, end);
                self.text = string_of(&kept);
                self.cursor_pos = start;
                self.selection_start = None;
                true
            },
            None => false,
        }
    }

    /// Insert `s` at the cursor (replacing the selection), keeping within the
    /// character limit; true if anything changed.
    pub fn insert_text(&mut self, s: &str) -> (changed: bool)
        requires
            positions_valid(old(self)@),
        ensures
            final(self)@ == insert_effect(old(self)@, s@),
            changed == insert_changes(old(self)@, s@),
            positions_valid(final(self)@),
    {
        let mut changed = self.delete_selection();
        let ghost d = self@;
        let mut chars = chars_of(self.text.as_str());
        let incoming = chars_of(s);
        let mut remaining = self.remaining_capacity();
        let c0 = self.cursor_pos;
        let ghost n = accepted_count(d, s@.len());
        let mut i: usize = 0;
        while i < incoming.len()
            invariant_except_break
                i <= incoming@.len(),
                i <= n,
                self.cursor_pos == c0 + i,
                chars@ == d.text.subrange(0, c0 as int) + incoming@.take(i as int) + d.text.subrange(
                    c0 as int,
                    d.text.len() as int,
                ),
                match remaining {
                    Some(r) => remaining_capacity_of(d) matches Some(r0) && r == r0 - i,
                    None => remaining_capacity_of(d) is None,
                },
                changed == (d.anchor is Some || old(self)@.anchor is Some || i > 0),
                self@.text == d.text,
                self@.limit == d.limit,
                self@.anchor is None,
                d.cursor == c0,
                c0 <= d.text.len(),
                incoming@ == s@,
                n == accepted_count(d, s@.len()),
                !(old(self)@.anchor is Some) ==> d == old(self)@,
            ensures
                i == n,
                self.cursor_pos == c0 + i,
                chars@ == d.text.subrange(0, c0 as int) + incoming@.take(i as int) + d.text.subrange(
                    c0 as int,
                    d.text.len() as int,
                ),
                changed == (old(self)@.anchor is Some || i > 0),
                self@.text == d.text,
                self@.limit == d.limit,
                self@.anchor is None,
            decreases incoming.len() - i,
        {
            match remaining {
                Some(r) => {
                    if r == 0 {
                        break;
                    }
                    remaining = Some(r - 1);
                },
                None => {},
            }
            let ghost before = chars@;
            chars.insert(self.cursor_pos, incoming[i]);
            proof {
                assert(incoming@.take(i + 1) =~= incoming@.take(i as int).push(incoming@[i as int]));
                assert(chars@ =~= d.text.subrange(0, c0 as int) + incoming@.take(i + 1)
                    + d.text.subrange(c0 as int, d.text.len() as int));
            }
            assert(self.cursor_pos < chars@.len());
            assert(chars@.len() == chars.len());
            self.cursor_pos = self.cursor_pos + 1;
            changed = true;
            i += 1;
        }
        if changed {
            self.text = string_of(&chars);
        } else {
            assert(chars@ =~= d.text);
        }
        changed
    }

    /// Backspace: delete the selection, or the character before the cursor.
    pub fn backspace(&mut self) -> (changed: bool)
        requires
            positions_valid(old(self)@),
        ensures
            final(self)@ == backspace_effect(old(self)@),
            changed == backspace_changes(old(self)@),
            positions_valid(final(self)@),
    {
        let mut changed = self.delete_selection();
        if !changed && self.cursor_pos > 0 {
            let mut chars = chars_of(self.text.as_str());
            chars.remove(self.cursor_pos - 1);
            self.cursor_pos = self.cursor_pos - 1;
            self.text = string_of(&chars);
            changed = true;
        }
        changed
    }

    /// Delete: delete the selection, or the character after the cursor.
    pub fn delete_forward(&mut self) -> (changed: bool)
        requires
            positions_valid(old(self)@),
        ensures
            final(self)@ == delete_forward_effect(old(self)@),
            changed == delete_forward_changes(old(self)@),
            positions_valid(final(self)@),
    {
        let mut changed = self.delete_selection();
        if !changed {
            let count = self.char_count();
            if self.cursor_pos < count {
                let mut chars = chars_of(self.text.as_str());
                chars.remove(self.cursor_pos);
                self.text = string_of(&chars);
                changed = true;
            }
        }
        changed
    }

    /// Start or extend the selection when `extend`, else clear it.
    pub fn handle_selection_with_shift(&mut self, extend: bool)
        ensures
            final(self)@ == (EditView { anchor: shift_anchor(old(self)@, extend), ..old(self)@ }),
    {
        if extend {
            if self.selection_start.is_none() {
                self.selection_start = Some(self.cursor_pos);
            }
        } else {
            self.selection_start = None;
        }
    }

    /// Left arrow; true if the cursor moved.
    pub fn move_left(&mut self, extend: bool) -> (moved: bool)
        ensures
            final(self)@ == move_effect(old(self)@, extend, left_target(old(self)@)),
            moved == (old(self)@.cursor > 0),
    {
        self.handle_selection_with_shift(extend);
        if self.cursor_pos > 0 {
            self.cursor_pos = self.cursor_pos - 1;
            true
        } else {
            false
        }
    }

    /// Right arrow; true if the cursor moved.
    pub fn move_right(&mut self, extend: bool) -> (moved: bool)
        ensures
            final(self)@ == move_effect(old(self)@, extend, right_target(old(self)@)),
            moved == (old(self)@.cursor < old(self)@.text.len()),
    {
        self.handle_selection_with_shift(extend);
        let count = self.char_count();
        if self.cursor_pos < count {
            self.cursor_pos = self.cursor_pos + 1;
            true
        } else {
            false
        }
    }

    /// Home: to the start of the text; true if the cursor moved.
    pub fn move_home(&mut self, extend: bool) -> (moved: bool)
        ensures
            final(self)@ == move_effect(old(self)@, extend, 0),
            moved == (old(self)@.cursor != 0),
    {
        self.handle_selection_with_shift(extend);
        if self.cursor_pos != 0 {
            self.cursor_pos = 0;
            true
        } else {
            false
        }
    }

    /// End: to the end of the text; true if the cursor moved.
    pub fn move_end(&mut self, extend: bool) -> (moved: bool)
        ensures
            final(self)@ == move_effect(old(self)@, extend, old(self)@.text.len() as usize),
            moved == (old(self)@.cursor != old(self)@.text.len()),
    {
        self.handle_selection_with_shift(extend);
        let end = self.char_count();
        if self.cursor_pos != end {
            self.cursor_pos = end;
            true
        } else {
            false
        }
    }

    /// Select all text.
    pub fn select_all(&mut self)
        ensures
            final(self)@ == select_all_effect(old(self)@),
    {
        self.selection_start = Some(0);
        self.cursor_pos = self.char_count();
    }

    /// Settle an edit: take the sanitizer's output (if a sanitizer ran),
    /// truncate to the character limit and clamp the cursor. True if the
    /// text now differs from `previous`.
    pub fn finalize_text_change(&mut self, previous: &String, sanitized: Option<String>) -> (changed: bool)
        ensures
            final(self)@ == finalize_effect(old(self)@, string_option_view(sanitized)),
            changed == (final(self)@.text != previous@),
    {
        match sanitized {
            Some(s) => {
                if s != self.text {
                    self.text = s;
                    let count = self.char_count();
                    if self.cursor_pos > count {
                        self.cursor_pos = count;
                    }
                }
            },
            None => {},
        }
        match self.max_chars {
            Some(limit) => {
                let chars = chars_of(self.text.as_str());
                if chars.len() > limit {
                    let mut kept = chars;
                    kept.truncate(limit);
                    self.text = string_of(&kept);
                    let count = self.char_count();
                    if self.cursor_pos > count {
                        self.cursor_pos = count;
                    }
                }
            },
            None => {},
        }
        let changed = self.text != *previous;
        let count = self.char_count();
        if self.cursor_pos > count {
            self.cursor_pos = count;
        }
        changed
    }
}


/// What the widget must do after a key or character reached its text input.
#[derive(Debug)]
pub enum EditAction {
    /// The event is not for this input.
    Ignored,
    /// Handled. `edited`: the text changed and the edit must be settled with
    /// `finalize_text_change`; `cursor_moved`: the cursor moved.
    Handled { edited: bool, cursor_moved: bool },
    /// Handled: the given selected text goes to the clipboard.
    Copy(String),
    /// Handled: the given selected text was removed and goes to the
    /// clipboard; the edit must be settled.
    Cut(String),
    /// Handled: the clipboard's text is to be inserted with `insert_text`.
    Paste,
    /// Tab: keyboard focus moves to the next (or, `backward`, previous)
    /// focusable widget and this input gives up focus.
    MoveFocus { backward: bool },
    /// Up or Down in a multi-line input: the cursor moves by one visual line.
    MoveVertical { up: bool },
}

/// `EditAction` with its strings as character sequences.
pub enum EditActionView {
    Ignored,
    Handled { edited: bool, cursor_moved: bool },
    Copy(Seq<char>),
    Cut(Seq<char>),
    Paste,
    MoveFocus { backward: bool },
    MoveVertical { up: bool },
}

/// The characters-level view of an action.
pub open spec fn action_view(a: EditAction) -> EditActionView {
    match a {
        EditAction::Ignored => EditActionView::Ignored,
        EditAction::Handled { edited, cursor_moved } => EditActionView::Handled {
            edited,
            cursor_moved,
        },
        EditAction::Copy(s) => EditActionView::Copy(s@),
        EditAction::Cut(s) => EditActionView::Cut(s@),
        EditAction::Paste => EditActionView::Paste,
        EditAction::MoveFocus { backward } => EditActionView::MoveFocus { backward },
        EditAction::MoveVertical { up } => EditActionView::MoveVertical { up },
    }
}

/// Handled, nothing to settle, cursor possibly moved.
pub open spec fn handled(edited: bool, cursor_moved: bool) -> EditActionView {
    EditActionView::Handled { edited, cursor_moved }
}

/// Every line of a layout lies within a text of `len` characters.
pub open spec fn lines_within(lines: Seq<LineSpan>, len: nat) -> bool {
    forall|k: int| 0 <= k < lines.len() ==> #[trigger] lines[k].start <= lines[k].end <= len
}

/// The single-line commands that read or edit the text at the cursor or
/// selection, and so need them within the text.
pub open spec fn line_command_needs_positions(cmd: EditCommand) -> bool {
    match cmd {
        EditCommand::Copy | EditCommand::Cut | EditCommand::Space | EditCommand::Backspace
        | EditCommand::Delete => true,
        _ => false,
    }
}

/// The multi-line commands that read or edit the text at the cursor or
/// selection, and so need them within the text.
pub open spec fn area_command_needs_positions(cmd: EditCommand, allow_tab: bool) -> bool {
    match cmd {
        EditCommand::Copy | EditCommand::Cut | EditCommand::Space | EditCommand::Enter
        | EditCommand::Backspace | EditCommand::Delete => true,
        EditCommand::Tab => allow_tab,
        _ => false,
    }
}

/// Whether a single-line command needs cursor and selection within the text.
pub fn line_needs_positions(cmd: EditCommand) -> (r: bool)
    ensures
        r == line_command_needs_positions(cmd),
{
    match cmd {
        EditCommand::Copy | EditCommand::Cut | EditCommand::Space | EditCommand::Backspace
        | EditCommand::Delete => true,
        _ => false,
    }
}

/// Whether a multi-line command needs cursor and selection within the text.
pub fn area_needs_positions(cmd: EditCommand, allow_tab: bool) -> (r: bool)
    ensures
        r == area_command_needs_positions(cmd, allow_tab),
{
    match cmd {
        EditCommand::Copy | EditCommand::Cut | EditCommand::Space | EditCommand::Enter
        | EditCommand::Backspace | EditCommand::Delete => true,
        EditCommand::Tab => allow_tab,
        _ => false,
    }
}

/// Effect of an editing command on a single-line input. `copy_allowed` is
/// false for a masked password field that does not allow copying.
pub open spec fn line_command_effect(
    v: EditView,
    cmd: EditCommand,
    shift: bool,
    copy_allowed: bool,
) -> (EditView, EditActionView) {
    match cmd {
        EditCommand::SelectAll => (select_all_effect(v), handled(false, true)),
        EditCommand::Copy => if copy_allowed && v.anchor is Some {
            (v, EditActionView::Copy(selected_chars(v)->0))
        } else {
            (v, handled(false, false))
        },
        EditCommand::Cut => if !copy_allowed {
            (delete_selection_effect(v), handled(v.anchor is Some, false))
        } else if v.anchor is Some {
            (delete_selection_effect(v), EditActionView::Cut(selected_chars(v)->0))
        } else {
            (v, handled(false, false))
        },
        EditCommand::Paste => (v, EditActionView::Paste),
        EditCommand::Space => (insert_effect(v, seq![' ']), handled(insert_changes(v, seq![' ']), false)),
        EditCommand::Tab => (EditView { anchor: None, ..v }, EditActionView::MoveFocus { backward: shift }),
        EditCommand::Backspace => (backspace_effect(v), handled(backspace_changes(v), false)),
        EditCommand::Delete => (delete_forward_effect(v), handled(delete_forward_changes(v), false)),
        EditCommand::Left => (move_effect(v, shift, left_target(v)), handled(false, v.cursor > 0)),
        EditCommand::Right => (
            move_effect(v, shift, right_target(v)),
            handled(false, v.cursor < v.text.len()),
        ),
        EditCommand::Home => (move_effect(v, shift, 0), handled(false, v.cursor != 0)),
        EditCommand::End => (
            move_effect(v, shift, v.text.len() as usize),
            handled(false, v.cursor != v.text.len()),
        ),
        _ => (v, EditActionView::Ignored),
    }
}

/// A line of laid-out text: the character positions it spans (the end is
/// the position after its last character).
#[derive(Debug, Clone, Copy, PartialEq, Eq, Structural)]
pub struct LineSpan {
    pub start: usize,
    pub end: usize,
}

/// The span of `line` contains position `idx` (both ends included).
pub open spec fn span_contains(line: LineSpan, idx: usize) -> bool {
    line.start <= idx <= line.end
}

/// `i` is the first line whose span contains `idx`.
pub open spec fn is_line_of(lines: Seq<LineSpan>, idx: usize, i: int) -> bool {
    &&& 0 <= i < lines.len()
    &&& span_contains(lines[i], idx)
    &&& forall|k: int| 0 <= k < i ==> !span_contains(#[trigger] lines[k], idx)
}

/// The line holding position `idx`: the first line whose span contains it,
/// or else the last line (0 when there are no lines).
pub open spec fn line_index_of(lines: Seq<LineSpan>, idx: usize) -> int {
    if exists|i: int| is_line_of(lines, idx, i) {
        choose|i: int| is_line_of(lines, idx, i)
    } else if lines.len() == 0 {
        0
    } else {
        lines.len() - 1
    }
}

/// Start and end of the line holding `idx` ((0, 0) without lines).
pub open spec fn line_bounds_of(lines: Seq<LineSpan>, idx: usize) -> (usize, usize) {
    if lines.len() == 0 {
        (0, 0)
    } else {
        let l = lines[line_index_of(lines, idx)];
        (l.start, l.end)
    }
}

/// Effect of an editing command on a multi-line input laid out as `lines`.
pub open spec fn area_command_effect(
    v: EditView,
    cmd: EditCommand,
    shift: bool,
    allow_tab: bool,
    lines: Seq<LineSpan>,
) -> (EditView, EditActionView) {
    match cmd {
        EditCommand::SelectAll => (select_all_effect(v), handled(false, true)),
        EditCommand::Copy => if v.anchor is Some {
            (v, EditActionView::Copy(selected_chars(v)->0))
        } else {
            (v, handled(false, false))
        },
        EditCommand::Cut => if v.anchor is Some {
            (delete_selection_effect(v), EditActionView::Cut(selected_chars(v)->0))
        } else {
            (v, handled(false, false))
        },
        EditCommand::Paste => (v, EditActionView::Paste),
        EditCommand::Backspace => (backspace_effect(v), handled(backspace_changes(v), false)),
        EditCommand::Delete => (delete_forward_effect(v), handled(delete_forward_changes(v), false)),
        EditCommand::Left => (move_effect(v, shift, left_target(v)), handled(false, v.cursor > 0)),
        EditCommand::Right => (
            move_effect(v, shift, right_target(v)),
            handled(false, v.cursor < v.text.len()),
        ),
        EditCommand::Up => (
            EditView { anchor: shift_anchor(v, shift), ..v },
            EditActionView::MoveVertical { up: true },
        ),
        EditCommand::Down => (
            EditView { anchor: shift_anchor(v, shift), ..v },
            EditActionView::MoveVertical { up: false },
        ),
        EditCommand::Home => (
            move_effect(v, shift, line_bounds_of(lines, v.cursor).0),
            handled(false, true),
        ),
        EditCommand::End => (
            move_effect(v, shift, line_bounds_of(lines, v.cursor).1),
            handled(false, true),
        ),
        EditCommand::Enter => (insert_effect(v, seq!['\n']), handled(insert_changes(v, seq!['\n']), false)),
        EditCommand::Space => (insert_effect(v, seq![' ']), handled(insert_changes(v, seq![' ']), false)),
        EditCommand::Tab => if allow_tab {
            (insert_effect(v, seq!['\t']), handled(insert_changes(v, seq!['\t']), false))
        } else {
            (v, EditActionView::Ignored)
        },
        EditCommand::Nothing => (v, EditActionView::Ignored),
    }
}

/// Whether a typed character goes into a single-line input: space, tab, or
/// any non-control character.
pub open spec fn line_accepts_char(c: char) -> bool {
    c == ' ' || c == '\t' || !is_control_char(c)
}

/// Whether a single-line input takes the typed character `c`.
pub fn line_takes_char(c: char) -> (r: bool)
    ensures
        r == line_accepts_char(c),
{
    c == ' ' || c == '\t' || !is_control(c)
}

/// Whether a multi-line input takes the typed character `c`.
pub fn area_takes_char(c: char, allow_tab: bool) -> (r: bool)
    ensures
        r == area_char_text(c, allow_tab) is Some,
{
    if c == '\r' || c == '\n' {
        true
    } else if c == '\t' {
        allow_tab
    } else {
        !is_control(c)
    }
}

/// The text a typed character puts into a multi-line input: a newline for
/// carriage return and line feed, a tab only where tabs are allowed, any other
/// non-control character as itself.
pub open spec fn area_char_text(c: char, allow_tab: bool) -> Option<Seq<char>> {
    if c == '\r' || c == '\n' {
        Some(seq!['\n'])
    } else if c == '\t' {
        if allow_tab {
            Some(seq!['\t'])
        } else {
            None
        }
    } else if !is_control_char(c) {
        Some(seq![c])
    } else {
        None
    }
}

/// The part of the selection `start..end` that lies on `line`, as positions
/// counted from the line's start; `None` when nothing of it does.
pub fn selection_on_line(start: usize, end: usize, line: LineSpan) -> (r: Option<(usize, usize)>)
    requires
        start <= end,
        line.start <= line.end,
    ensures
        ({
            let lo = if start > line.start { start } else { line.start };
            let hi = if end < line.end { end } else { line.end };
            match r {
                Some((a, b)) => {
                    &&& lo < hi
                    &&& a == lo - line.start
                    &&& b == hi - line.start
                },
                None => hi <= lo,
            }
        }),
{
    if end <= line.start || start >= line.end {
        return None;
    }
    let lo = if start > line.start { start } else { line.start };
    let hi = if end < line.end { end } else { line.end };
    if lo == hi {
        None
    } else {
        Some((lo - line.start, hi - line.start))
    }
}

/// The first line whose span contains `idx`, or else the last line.
pub fn line_index_for(lines: &[LineSpan], idx: usize) -> (r: usize)
    ensures
        r == line_index_of(lines@, idx),
{
    let mut i: usize = 0;
    while i < lines.len()
        invariant
            i <= lines@.len(),
            forall|k: int| 0 <= k < i ==> !span_contains(#[trigger] lines@[k], idx),
        decreases lines.len() - i,
    {
        if lines[i].start <= idx && idx <= lines[i].end {
            proof {
                assert(is_line_of(lines@, idx, i as int));
                let j = line_index_of(lines@, idx);
                assert(is_line_of(lines@, idx, j));
                if j < i {
                    assert(!span_contains(lines@[j], idx));
                }
                if i < j {
                    assert(!span_contains(lines@[i as int], idx));
                }
            }
            return i;
        }
        i += 1;
    }
    proof {
        assert(!exists|k: int| is_line_of(lines@, idx, k));
    }
    lines.len().saturating_sub(1)
}

/// Start and end of the line holding `idx`.
pub fn line_bounds(lines: &[LineSpan], idx: usize) -> (r: (usize, usize))
    ensures
        r == line_bounds_of(lines@, idx),
        lines@.len() > 0 ==> 0 <= line_index_of(lines@, idx) < lines@.len(),
{
    if lines.len() == 0 {
        return (0, 0);
    }
    let i = line_index_for(lines, idx);
    proof {
        if exists|k: int| is_line_of(lines@, idx, k) {
            let k = choose|k: int| is_line_of(lines@, idx, k);
            assert(is_line_of(lines@, idx, line_index_of(lines@, idx)));
        }
    }
    (lines[i].start, lines[i].end)
}

impl TextEditor {
    /// Insert one character at the cursor.
    fn insert_char(&mut self, c: char) -> (changed: bool)
        requires
            positions_valid(old(self)@),
        ensures
            final(self)@ == insert_effect(old(self)@, seq![c]),
            changed == insert_changes(old(self)@, seq![c]),
            positions_valid(final(self)@),
    {
        let mut one: Vec<char> = Vec::new();
        one.push(c);
        let s = string_of(&one);
        assert(s@ =~= seq![c]);
        self.insert_text(s.as_str())
    }

    /// Carry out an editing command in a single-line input.
    pub fn apply_line_command(&mut self, cmd: EditCommand, shift: bool, copy_allowed: bool) -> (action: EditAction)
        requires
            line_command_needs_positions(cmd) ==> positions_valid(old(self)@),
        ensures
            final(self)@ == line_command_effect(old(self)@, cmd, shift, copy_allowed).0,
            action_view(action) == line_command_effect(old(self)@, cmd, shift, copy_allowed).1,
    {
        match cmd {
            EditCommand::SelectAll => {
                self.select_all();
                EditAction::Handled { edited: false, cursor_moved: true }
            },
            EditCommand::Copy => {
                if copy_allowed {
                    match self.get_selected_text() {
                        Some(text) => EditAction::Copy(text),
                        None => EditAction::Handled { edited: false, cursor_moved: false },
                    }
                } else {
                    EditAction::Handled { edited: false, cursor_moved: false }
                }
            },
            EditCommand::Cut => {
                if !copy_allowed {
                    let edited = self.delete_selection();
                    EditAction::Handled { edited, cursor_moved: false }
                } else {
                    match self.get_selected_text() {
                        Some(text) => {
                            self.delete_selection();
                            EditAction::Cut(text)
                        },
                        None => EditAction::Handled { edited: false, cursor_moved: false },
                    }
                }
            },
            EditCommand::Paste => EditAction::Paste,
            EditCommand::Space => {
                let edited = self.insert_char(' ');
                EditAction::Handled { edited, cursor_moved: false }
            },
            EditCommand::Tab => {
                self.selection_start = None;
                EditAction::MoveFocus { backward: shift }
            },
            EditCommand::Backspace => {
                let edited = self.backspace();
                EditAction::Handled { edited, cursor_moved: false }
            },
            EditCommand::Delete => {
                let edited = self.delete_forward();
                EditAction::Handled { edited, cursor_moved: false }
            },
            EditCommand::Left => {
                let moved = self.move_left(shift);
                EditAction::Handled { edited: false, cursor_moved: moved }
            },
            EditCommand::Right => {
                let moved = self.move_right(shift);
                EditAction::Handled { edited: false, cursor_moved: moved }
            },
            EditCommand::Home => {
                let moved = self.move_home(shift);
                EditAction::Handled { edited: false, cursor_moved: moved }
            },
            EditCommand::End => {
                let moved = self.move_end(shift);
                EditAction::Handled { edited: false, cursor_moved: moved }
            },
            _ => EditAction::Ignored,
        }
    }

    /// Carry out an editing command in a multi-line input laid out as `lines`.
    pub fn apply_area_command(
        &mut self,
        cmd: EditCommand,
        shift: bool,
        allow_tab: bool,
        lines: &[LineSpan],
    ) -> (action: EditAction)
        requires
            area_command_needs_positions(cmd, allow_tab) ==> positions_valid(old(self)@),
        ensures
            final(self)@ == area_command_effect(old(self)@, cmd, shift, allow_tab, lines@).0,
            action_view(action) == area_command_effect(old(self)@, cmd, shift, allow_tab, lines@).1,
    {
        match cmd {
            EditCommand::SelectAll => {
                self.select_all();
                EditAction::Handled { edited: false, cursor_moved: true }
            },
            EditCommand::Copy => match self.get_selected_text() {
                Some(text) => EditAction::Copy(text),
                None => EditAction::Handled { edited: false, cursor_moved: false },
            },
            EditCommand::Cut => match self.get_selected_text() {
                Some(text) => {
                    self.delete_selection();
                    EditAction::Cut(text)
                },
                None => EditAction::Handled { edited: false, cursor_moved: false },
            },
            EditCommand::Paste => EditAction::Paste,
            EditCommand::Backspace => {
                let edited = self.backspace();
                EditAction::Handled { edited, cursor_moved: false }
            },
            EditCommand::Delete => {
                let edited = self.delete_forward();
                EditAction::Handled { edited, cursor_moved: false }
            },
            EditCommand::Left => {
                let moved = self.move_left(shift);
                EditAction::Handled { edited: false, cursor_moved: moved }
            },
            EditCommand::Right => {
                let moved = self.move_right(shift);
                EditAction::Handled { edited: false, cursor_moved: moved }
            },
            EditCommand::Up => {
                self.handle_selection_with_shift(shift);
                EditAction::MoveVertical { up: true }
            },
            EditCommand::Down => {
                self.handle_selection_with_shift(shift);
                EditAction::MoveVertical { up: false }
            },
            EditCommand::Home => {
                self.handle_selection_with_shift(shift);
                let (start, _end) = line_bounds(lines, self.cursor_pos);
                self.cursor_pos = start;
                EditAction::Handled { edited: false, cursor_moved: true }
            },
            EditCommand::End => {
                self.handle_selection_with_shift(shift);
                let (_start, end) = line_bounds(lines, self.cursor_pos);
                self.cursor_pos = end;
                EditAction::Handled { edited: false, cursor_moved: true }
            },
            EditCommand::Enter => {
                let edited = self.insert_char('\n');
                EditAction::Handled { edited, cursor_moved: false }
            },
            EditCommand::Space => {
                let edited = self.insert_char(' ');
                EditAction::Handled { edited, cursor_moved: false }
            },
            EditCommand::Tab => {
                if allow_tab {
                    let edited = self.insert_char('\t');
                    EditAction::Handled { edited, cursor_moved: false }
                } else {
                    EditAction::Ignored
                }
            },
            EditCommand::Nothing => EditAction::Ignored,
        }
    }

    /// A typed character in a single-line input.
    pub fn apply_line_char(&mut self, c: char) -> (action: EditAction)
        requires
            line_accepts_char(c) ==> positions_valid(old(self)@),
        ensures
            line_accepts_char(c) ==> {
                &&& final(self)@ == insert_effect(old(self)@, seq![c])
                &&& action_view(action) == handled(insert_changes(old(self)@, seq![c]), false)
            },
            !line_accepts_char(c) ==> final(self)@ == old(self)@ && action is Ignored,
    {
        if c == ' ' || c == '\t' || !is_control(c) {
            let edited = self.insert_char(c);
            EditAction::Handled { edited, cursor_moved: false }
        } else {
            EditAction::Ignored
        }
    }

    /// A typed character in a multi-line input.
    pub fn apply_area_char(&mut self, c: char, allow_tab: bool) -> (action: EditAction)
        requires
            area_char_text(c, allow_tab) is Some ==> positions_valid(old(self)@),
        ensures
            match area_char_text(c, allow_tab) {
                Some(t) => {
                    &&& final(self)@ == insert_effect(old(self)@, t)
                    &&& action_view(action) == handled(insert_changes(old(self)@, t), false)
                },
                None => final(self)@ == old(self)@ && action is Ignored,
            },
    {
        if c == '\r' || c == '\n' {
            let edited = self.insert_char('\n');
            EditAction::Handled { edited, cursor_moved: false }
        } else if c == '\t' {
            if allow_tab {
                let edited = self.insert_char('\t');
                EditAction::Handled { edited, cursor_moved: false }
            } else {
                EditAction::Ignored
            }
        } else if !is_control(c) {
            let edited = self.insert_char(c);
            EditAction::Handled { edited, cursor_moved: false }
        } else {
            EditAction::Ignored
        }
    }

    /// Mouse press at character position `index`: the cursor goes there and
    /// a drag selection starts from it.
    pub fn begin_drag(&mut self, index: usize)
        requires
            index <= old(self)@.text.len(),
        ensures
            positions_valid(final(self)@),
            final(self)@ == (EditView { cursor: index, anchor: Some(index), ..old(self)@ }),
    {
        self.cursor_pos = index;
        self.selection_start = Some(index);
    }

    /// Dragging to character position `index` moves the cursor there.
    pub fn drag_to(&mut self, index: usize)
        requires
            index <= old(self)@.text.len(),
        ensures
            positions_valid(old(self)@) ==> positions_valid(final(self)@),
            edit_invariant(old(self)@) ==> edit_invariant(final(self)@),
            cursor_invariant(old(self)@) ==> cursor_invariant(final(self)@),
            final(self)@ == (EditView { cursor: index, ..old(self)@ }),
    {
        self.cursor_pos = index;
    }

    /// Mouse release ending a drag: a selection that ends where it began was
    /// just a click, and is dropped.
    pub fn end_drag(&mut self)
        ensures
            positions_valid(old(self)@) ==> positions_valid(final(self)@),
            edit_invariant(old(self)@) ==> edit_invariant(final(self)@),
            cursor_invariant(old(self)@) ==> cursor_invariant(final(self)@),
            final(self)@ == (if old(self)@.anchor == Some(old(self)@.cursor) {
                EditView { anchor: None, ..old(self)@ }
            } else {
                old(self)@
            }),
    {
        match self.selection_start {
            Some(start) => {
                if start == self.cursor_pos {
                    self.selection_start = None;
                }
            },
            None => {},
        }
    }
}

/// What a mouse press did to a text input.
#[derive(Debug, Clone, Copy, PartialEq, Eq, Structural)]
pub struct PressOutcome {
    /// The input has keyboard focus after the press.
    pub focused: bool,
    /// A drag selection is in progress.
    pub dragging: bool,
    /// The press changed something.
    pub handled: bool,
    /// The press took focus away from the input (the user has interacted with it).
    pub blurred: bool,
}

impl TextEditor {
    /// A mouse press. Inside the input (`inside`) it takes focus, puts the
    /// cursor at character position `index` and starts a drag selection
    /// there; elsewhere the input loses focus and its selection.
    pub fn handle_press(&mut self, was_focused: bool, inside: bool, index: usize) -> (r: PressOutcome)
        requires
            inside ==> index <= old(self)@.text.len(),
        ensures
            positions_valid(old(self)@) ==> positions_valid(final(self)@),
            edit_invariant(old(self)@) ==> edit_invariant(final(self)@),
            cursor_invariant(old(self)@) ==> cursor_invariant(final(self)@),
            inside ==> positions_valid(final(self)@),
            inside ==> {
                &&& final(self)@ == (EditView { cursor: index, anchor: Some(index), ..old(self)@ })
                &&& r == PressOutcome { focused: true, dragging: true, handled: true, blurred: false }
            },
            !inside ==> {
                &&& final(self)@ == (EditView { anchor: None, ..old(self)@ })
                &&& r == PressOutcome {
                    focused: false,
                    dragging: false,
                    handled: was_focused,
                    blurred: was_focused,
                }
            },
    {
        if inside {
            self.begin_drag(index);
            PressOutcome { focused: true, dragging: true, handled: true, blurred: false }
        } else {
            self.selection_start = None;
            PressOutcome { focused: false, dragging: false, handled: was_focused, blurred: was_focused }
        }
    }
}

/// Number of newline characters in `s`.
pub open spec fn newline_count(s: Seq<char>) -> nat
    decreases s.len(),
{
    if s.len() == 0 {
        0
    } else {
        newline_count(s.drop_last()) + if s.last() == '\n' {
            1nat
        } else {
            0nat
        }
    }
}

/// Number of lines of `text` separated by newlines (what
/// `text.split('\n').count()` gives): one more than the number of newlines.
pub fn count_lines(text: &str) -> (n: usize)
    requires
        text@.len() < usize::MAX,
    ensures
        n == newline_count(text@) + 1,
{
    let chars = chars_of(text);
    let mut n: usize = 1;
    let mut i: usize = 0;
    while i < chars.len()
        invariant
            i <= chars@.len(),
            chars@ == text@,
            text@.len() < usize::MAX,
            n == newline_count(chars@.take(i as int)) + 1,
            newline_count(chars@.take(i as int)) <= i,
        decreases chars.len() - i,
    {
        assert(chars@.take(i + 1).drop_last() =~= chars@.take(i as int));
        if chars[i] == '\n' {
            n = n + 1;
        }
        i += 1;
    }
    assert(chars@.take(chars.len() as int) =~= chars@);
    n
}

/// The text a masked (password) input shows: one mask character per
/// character of the text.
pub fn masked_text(text: &str, mask_char: char) -> (s: String)
    ensures
        s@.len() == text@.len(),
        forall|i: int| 0 <= i < s@.len() ==> s@[i] == mask_char,
{
    let count = text.unicode_len();
    let mut chars: Vec<char> = Vec::new();
    let mut i: usize = 0;
    while i < count
        invariant
            i <= count,
            chars@.len() == i,
            forall|k: int| 0 <= k < i ==> chars@[k] == mask_char,
        decreases count - i,
    {
        chars.push(mask_char);
        i += 1;
    }
    string_of(&chars)
}

/// The character limit holds: inserting into a text that is within its limit
/// leaves it within the limit.
pub proof fn lemma_insert_respects_limit(v: EditView, s: Seq<char>)
    requires
        positions_valid(v),
        v.limit matches Some(l) && v.text.len() <= l,
    ensures
        insert_effect(v, s).text.len() <= v.limit->0,
        positions_valid(insert_effect(v, s)),
{
    let d = delete_selection_effect(v);
    if let Some((a, b)) = selection_range(v) {
        assert(d.text.len() == v.text.len() - (b - a));
    }
}

/// Backspace undoes typing a character: with no selection and room under
/// the limit, typing `c` and pressing Backspace restores text and cursor.
pub proof fn lemma_backspace_undoes_typing(v: EditView, c: char)
    requires
        positions_valid(v),
        v.anchor is None,
        accepted_count(v, 1) == 1,
        v.text.len() < usize::MAX,
    ensures
        backspace_effect(insert_effect(v, seq![c])) == v,
{
    let i = insert_effect(v, seq![c]);
    assert(seq![c].take(1) =~= seq![c]);
    assert(i.cursor == v.cursor + 1);
    assert(i.text.remove(v.cursor as int) =~= v.text);
}

/// Cutting the selection and pasting it back restores the text (when there
/// is no character limit), with the cursor at the end of the pasted text.
pub proof fn lemma_cut_then_paste_restores(v: EditView)
    requires
        positions_valid(v),
        v.anchor is Some,
        v.limit is None,
    ensures
        insert_effect(delete_selection_effect(v), selected_chars(v)->0).text == v.text,
        insert_effect(delete_selection_effect(v), selected_chars(v)->0).cursor
            == (selection_range(v)->0).1,
{
    let (a, b) = selection_range(v)->0;
    let d = delete_selection_effect(v);
    let sel = v.text.subrange(a as int, b as int);
    let i = insert_effect(d, sel);
    assert(sel.take(sel.len() as int) =~= sel);
    assert(d.text.subrange(0, a as int) =~= v.text.subrange(0, a as int));
    assert(d.text.subrange(a as int, d.text.len() as int) =~= v.text.subrange(
        b as int,
        v.text.len() as int,
    ));
    assert(i.text =~= v.text);
}

/// Select all followed by Backspace (or Delete) empties the text.
pub proof fn lemma_select_all_then_delete_empties(v: EditView)
    requires
        v.text.len() <= usize::MAX,
    ensures
        backspace_effect(select_all_effect(v)).text.len() == 0,
        backspace_effect(select_all_effect(v)).cursor == 0,
        delete_forward_effect(select_all_effect(v)).text.len() == 0,
{
}

/// Right arrow undoes Left arrow when the cursor is not at the start.
pub proof fn lemma_right_undoes_left(v: EditView)
    requires
        positions_valid(v),
        v.cursor > 0,
    ensures
        right_target(move_effect(v, false, left_target(v))) == v.cursor,
{
}

/// Cursor moves of a single-line input (Left, Right, Home, End) edit
/// nothing. With Shift held they extend the selection from where it began
/// (from the cursor's old place when nothing was selected); without Shift
/// they drop it. Home goes to the start, End to the end, and the action
/// reports whether the cursor moved.
pub proof fn lemma_line_moves_and_shift_selection(
    v: EditView,
    cmd: EditCommand,
    shift: bool,
    copy_allowed: bool,
)
    requires
        cmd == EditCommand::Left || cmd == EditCommand::Right || cmd == EditCommand::Home || cmd
            == EditCommand::End,
        v.text.len() <= usize::MAX,
    ensures
        ({
            let (w, a) = line_command_effect(v, cmd, shift, copy_allowed);
            &&& w.text == v.text
            &&& w.limit == v.limit
            &&& shift && v.anchor is None ==> w.anchor == Some(v.cursor)
            &&& shift && v.anchor is Some ==> w.anchor == v.anchor
            &&& !shift ==> w.anchor is None
            &&& cmd == EditCommand::Home ==> w.cursor == 0
            &&& cmd == EditCommand::End ==> w.cursor == v.text.len()
            &&& cmd == EditCommand::Left ==> w.cursor == if v.cursor > 0 {
                v.cursor - 1
            } else {
                0
            }
            &&& cmd == EditCommand::Right ==> w.cursor == if v.cursor < v.text.len() {
                v.cursor + 1
            } else {
                v.cursor as int
            }
            &&& a == EditActionView::Handled { edited: false, cursor_moved: w.cursor != v.cursor }
        }),
{
}

/// Up and Down of a multi-line input ask the widget to move the cursor one
/// visual line up and down respectively; they edit nothing, leave the cursor
/// where it is for the widget to move, and with Shift extend the selection
/// from where it began (without Shift they drop it).
pub proof fn lemma_area_vertical_moves(
    v: EditView,
    cmd: EditCommand,
    shift: bool,
    allow_tab: bool,
    lines: Seq<LineSpan>,
)
    requires
        cmd == EditCommand::Up || cmd == EditCommand::Down,
    ensures
        ({
            let (w, a) = area_command_effect(v, cmd, shift, allow_tab, lines);
            &&& a == EditActionView::MoveVertical { up: cmd == EditCommand::Up }
            &&& w.text == v.text
            &&& w.cursor == v.cursor
            &&& shift && v.anchor is None ==> w.anchor == Some(v.cursor)
            &&& shift && v.anchor is Some ==> w.anchor == v.anchor
            &&& !shift ==> w.anchor is None
        }),
        area_command_effect(v, EditCommand::Up, shift, allow_tab, lines).1
            != area_command_effect(v, EditCommand::Down, shift, allow_tab, lines).1,
{
}

/// Left and Right of a multi-line input move the cursor one character (not
/// past either end of the text), edit nothing, and with Shift extend the
/// selection from where it began (without Shift they drop it).
pub proof fn lemma_area_horizontal_moves(
    v: EditView,
    cmd: EditCommand,
    shift: bool,
    allow_tab: bool,
    lines: Seq<LineSpan>,
)
    requires
        cmd == EditCommand::Left || cmd == EditCommand::Right,
        v.text.len() <= usize::MAX,
    ensures
        ({
            let (w, a) = area_command_effect(v, cmd, shift, allow_tab, lines);
            &&& w.text == v.text
            &&& cmd == EditCommand::Left ==> w.cursor == if v.cursor > 0 {
                v.cursor - 1
            } else {
                0
            }
            &&& cmd == EditCommand::Right ==> w.cursor == if v.cursor < v.text.len() {
                v.cursor + 1
            } else {
                v.cursor as int
            }
            &&& a == EditActionView::Handled { edited: false, cursor_moved: w.cursor != v.cursor }
            &&& shift && v.anchor is None ==> w.anchor == Some(v.cursor)
            &&& shift && v.anchor is Some ==> w.anchor == v.anchor
            &&& !shift ==> w.anchor is None
        }),
{
}

/// Home and End of a multi-line input go to the start and the end of the
/// line that holds the cursor, edit nothing, and with Shift extend the
/// selection from where it began (without Shift they drop it).
pub proof fn lemma_area_home_end(
    v: EditView,
    cmd: EditCommand,
    shift: bool,
    allow_tab: bool,
    lines: Seq<LineSpan>,
)
    requires
        cmd == EditCommand::Home || cmd == EditCommand::End,
        lines.len() > 0,
    ensures
        ({
            let (w, a) = area_command_effect(v, cmd, shift, allow_tab, lines);
            let line = lines[line_index_of(lines, v.cursor)];
            &&& a == EditActionView::Handled { edited: false, cursor_moved: true }
            &&& w.text == v.text
            &&& cmd == EditCommand::Home ==> w.cursor == line.start
            &&& cmd == EditCommand::End ==> w.cursor == line.end
            &&& shift && v.anchor is None ==> w.anchor == Some(v.cursor)
            &&& shift && v.anchor is Some ==> w.anchor == v.anchor
            &&& !shift ==> w.anchor is None
        }),
{
}

/// Every edit keeps cursor and selection within the text.
pub proof fn lemma_commands_keep_positions_valid(
    v: EditView,
    cmd: EditCommand,
    shift: bool,
    copy_allowed: bool,
)
    requires
        positions_valid(v),
    ensures
        positions_valid(line_command_effect(v, cmd, shift, copy_allowed).0),
{
    if cmd == EditCommand::Space {
        lemma_insert_valid(v, seq![' ']);
    }
}

/// Inserting keeps cursor and selection within the text.
pub proof fn lemma_insert_valid(v: EditView, s: Seq<char>)
    requires
        positions_valid(v),
    ensures
        positions_valid(insert_effect(v, s)),
{
}

/// Settling an edit enforces the character limit whatever the sanitizer
/// returned, and keeps the cursor within the text (and, with no selection
/// going, all positions).
pub proof fn lemma_finalize_respects_limit(v: EditView, sanitized: Option<Seq<char>>)
    ensures
        v.limit matches Some(l) ==> finalize_effect(v, sanitized).text.len() <= l,
        finalize_effect(v, sanitized).cursor <= finalize_effect(v, sanitized).text.len(),
        v.anchor is None ==> positions_valid(finalize_effect(v, sanitized)),
{
}

/// Every command of a multi-line input keeps cursor and selection within
/// the text, given a layout whose lines lie within the text.
pub proof fn lemma_area_commands_keep_positions_valid(
    v: EditView,
    cmd: EditCommand,
    shift: bool,
    allow_tab: bool,
    lines: Seq<LineSpan>,
)
    requires
        positions_valid(v),
        lines_within(lines, v.text.len()),
    ensures
        positions_valid(area_command_effect(v, cmd, shift, allow_tab, lines).0),
{
    if lines.len() > 0 {
        let i = line_index_of(lines, v.cursor);
        if exists|k: int| is_line_of(lines, v.cursor, k) {
            let k = choose|k: int| is_line_of(lines, v.cursor, k);
            assert(is_line_of(lines, v.cursor, i));
        }
        assert(0 <= i < lines.len());
        assert(lines[i].start <= lines[i].end <= v.text.len());
    }
    match cmd {
        EditCommand::Enter => lemma_insert_valid(v, seq!['\n']),
        EditCommand::Space => lemma_insert_valid(v, seq![' ']),
        EditCommand::Tab => lemma_insert_valid(v, seq!['\t']),
        _ => {},
    }
}

/// What every stored input keeps between events: cursor and selection within
/// the text, and the text within the character limit.
pub open spec fn edit_invariant(v: EditView) -> bool {
    &&& positions_valid(v)
    &&& v.limit matches Some(l) ==> v.text.len() <= l
}

/// The state after the input carries out what an editing command asked for:
/// an edit or a cut is settled (`finalize_effect` with the sanitizer's
/// output); a paste inserts the clipboard's text and settles it when that
/// changed anything; anything else leaves the state as the command left it.
pub open spec fn settle_action(
    v: EditView,
    a: EditActionView,
    clipboard: Seq<char>,
    sanitized: Option<Seq<char>>,
) -> EditView {
    match a {
        EditActionView::Handled { edited, .. } => if edited {
            finalize_effect(v, sanitized)
        } else {
            v
        },
        EditActionView::Cut(_) => finalize_effect(v, sanitized),
        EditActionView::Paste => if insert_changes(v, clipboard) {
            finalize_effect(insert_effect(v, clipboard), sanitized)
        } else {
            insert_effect(v, clipboard)
        },
        _ => v,
    }
}

/// Removing the selection keeps the invariant and ends the selection.
proof fn lemma_delete_selection_invariant(v: EditView)
    requires
        edit_invariant(v),
    ensures
        edit_invariant(delete_selection_effect(v)),
        delete_selection_effect(v).anchor is None,
        delete_selection_effect(v).text.len() <= v.text.len(),
{
    if let Some((a, b)) = selection_range(v) {
        assert(delete_selection_effect(v).text.len() == v.text.len() - (b - a));
    }
}

/// Inserting any text keeps the invariant and leaves no selection.
proof fn lemma_insert_invariant(v: EditView, t: Seq<char>)
    requires
        edit_invariant(v),
    ensures
        edit_invariant(insert_effect(v, t)),
        insert_effect(v, t).anchor is None,
{
    lemma_delete_selection_invariant(v);
    lemma_insert_valid(v, t);
    if let Some(l) = v.limit {
        lemma_insert_respects_limit(v, t);
    }
}

/// Whatever the sanitizer returns, settling an edit keeps the invariant when
/// no selection is going.
proof fn lemma_settle_invariant(v: EditView, sanitized: Option<Seq<char>>)
    requires
        positions_valid(v),
        v.anchor is None,
    ensures
        edit_invariant(finalize_effect(v, sanitized)),
{
    lemma_finalize_respects_limit(v, sanitized);
}

/// Typing, pasting or committing IME text, then settling the edit, keeps the
/// invariant, whatever the text and whatever the sanitizer returns.
pub proof fn lemma_insert_then_settle_keeps_invariant(
    v: EditView,
    t: Seq<char>,
    sanitized: Option<Seq<char>>,
)
    requires
        edit_invariant(v),
    ensures
        edit_invariant(insert_effect(v, t)),
        edit_invariant(finalize_effect(insert_effect(v, t), sanitized)),
{
    lemma_insert_invariant(v, t);
    lemma_settle_invariant(insert_effect(v, t), sanitized);
}

/// The cursor lies within the text and the text within the character limit,
/// whatever the selection start holds.
pub open spec fn cursor_invariant(v: EditView) -> bool {
    &&& v.cursor <= v.text.len()
    &&& v.limit matches Some(l) ==> v.text.len() <= l
}

/// A single-line command that does not need the positions within the text
/// keeps the cursor within it, and edits nothing.
proof fn lemma_line_command_keeps_cursor(v: EditView, cmd: EditCommand, shift: bool, copy_allowed: bool)
    requires
        cursor_invariant(v),
        !line_command_needs_positions(cmd),
    ensures
        cursor_invariant(line_command_effect(v, cmd, shift, copy_allowed).0),
        line_command_effect(v, cmd, shift, copy_allowed).0.text == v.text,
        !(line_command_effect(v, cmd, shift, copy_allowed).1 matches EditActionView::Handled {
            edited: true,
            ..
        }),
        !(line_command_effect(v, cmd, shift, copy_allowed).1 is Cut),
{
}

/// A multi-line command that does not need the positions within the text
/// keeps the cursor within it when the layout lies within the text, and
/// edits nothing.
proof fn lemma_area_command_keeps_cursor(
    v: EditView,
    cmd: EditCommand,
    shift: bool,
    allow_tab: bool,
    lines: Seq<LineSpan>,
)
    requires
        cursor_invariant(v),
        lines_within(lines, v.text.len()),
        !area_command_needs_positions(cmd, allow_tab),
    ensures
        cursor_invariant(area_command_effect(v, cmd, shift, allow_tab, lines).0),
        area_command_effect(v, cmd, shift, allow_tab, lines).0.text == v.text,
        !(area_command_effect(v, cmd, shift, allow_tab, lines).1 matches EditActionView::Handled {
            edited: true,
            ..
        }),
        !(area_command_effect(v, cmd, shift, allow_tab, lines).1 is Cut),
{
    if lines.len() > 0 {
        let i = line_index_of(lines, v.cursor);
        if exists|k: int| is_line_of(lines, v.cursor, k) {
            let k = choose|k: int| is_line_of(lines, v.cursor, k);
            assert(is_line_of(lines, v.cursor, i));
        }
        assert(0 <= i < lines.len());
        assert(lines[i].start <= lines[i].end <= v.text.len());
    }
}

/// A key event whose command needs no positions within the text (and is no
/// paste of readable clipboard text) keeps the cursor within the text.
proof fn lemma_line_step_keeps_cursor<F: Fn(String) -> Option<String>>(
    sanitize: F,
    v: EditView,
    cmd: EditCommand,
    shift: bool,
    copy_allowed: bool,
    clipboard: Option<Seq<char>>,
    after: EditView,
    settled: bool,
)
    requires
        cursor_invariant(v),
        !line_command_needs_positions(cmd),
        !(cmd == EditCommand::Paste && clipboard is Some),
        step_result(
            sanitize,
            line_command_effect(v, cmd, shift, copy_allowed).0,
            line_command_effect(v, cmd, shift, copy_allowed).1,
            clipboard,
            after,
            settled,
        ),
    ensures
        cursor_invariant(after),
{
    lemma_line_command_keeps_cursor(v, cmd, shift, copy_allowed);
}

/// A whole key event of a single-line input keeps both invariants.
proof fn lemma_line_step_invariants<F: Fn(String) -> Option<String>>(
    sanitize: F,
    v: EditView,
    cmd: EditCommand,
    shift: bool,
    copy_allowed: bool,
    clipboard: Option<Seq<char>>,
    after: EditView,
    settled: bool,
)
    requires
        line_command_needs_positions(cmd) || (cmd == EditCommand::Paste && clipboard is Some)
            ==> positions_valid(v),
        step_result(
            sanitize,
            line_command_effect(v, cmd, shift, copy_allowed).0,
            line_command_effect(v, cmd, shift, copy_allowed).1,
            clipboard,
            after,
            settled,
        ),
    ensures
        edit_invariant(v) ==> edit_invariant(after),
        cursor_invariant(v) ==> cursor_invariant(after),
{
    let (v1, a) = line_command_effect(v, cmd, shift, copy_allowed);
    if edit_invariant(v) {
        assert forall|c: Seq<char>, o: Option<Seq<char>>|
            edit_invariant(v1) && edit_invariant(#[trigger] settle_action(v1, a, c, o)) by {
            lemma_line_key_event_keeps_invariant(v, cmd, shift, copy_allowed, c, o);
        }
        lemma_step_keeps_invariant(sanitize, v1, a, clipboard, after, settled);
    }
    if cursor_invariant(v) && !positions_valid(v) {
        lemma_line_step_keeps_cursor(sanitize, v, cmd, shift, copy_allowed, clipboard, after, settled);
    }
}

/// The same for a multi-line input whose layout lies within the text.
proof fn lemma_area_step_keeps_cursor<F: Fn(String) -> Option<String>>(
    sanitize: F,
    v: EditView,
    cmd: EditCommand,
    shift: bool,
    allow_tab: bool,
    lines: Seq<LineSpan>,
    clipboard: Option<Seq<char>>,
    after: EditView,
    settled: bool,
)
    requires
        cursor_invariant(v),
        lines_within(lines, v.text.len()),
        !area_command_needs_positions(cmd, allow_tab),
        !(cmd == EditCommand::Paste && clipboard is Some),
        step_result(
            sanitize,
            area_command_effect(v, cmd, shift, allow_tab, lines).0,
            area_command_effect(v, cmd, shift, allow_tab, lines).1,
            clipboard,
            after,
            settled,
        ),
    ensures
        cursor_invariant(after),
{
    lemma_area_command_keeps_cursor(v, cmd, shift, allow_tab, lines);
}

/// A whole key event of a multi-line input keeps both invariants when its
/// layout lies within the text.
proof fn lemma_area_step_invariants<F: Fn(String) -> Option<String>>(
    sanitize: F,
    v: EditView,
    cmd: EditCommand,
    shift: bool,
    allow_tab: bool,
    lines: Seq<LineSpan>,
    clipboard: Option<Seq<char>>,
    after: EditView,
    settled: bool,
)
    requires
        area_command_needs_positions(cmd, allow_tab) || (cmd == EditCommand::Paste
            && clipboard is Some) ==> positions_valid(v),
        step_result(
            sanitize,
            area_command_effect(v, cmd, shift, allow_tab, lines).0,
            area_command_effect(v, cmd, shift, allow_tab, lines).1,
            clipboard,
            after,
            settled,
        ),
    ensures
        edit_invariant(v) && lines_within(lines, v.text.len()) ==> edit_invariant(after),
        cursor_invariant(v) && lines_within(lines, v.text.len()) ==> cursor_invariant(after),
{
    let (v1, a) = area_command_effect(v, cmd, shift, allow_tab, lines);
    if edit_invariant(v) && lines_within(lines, v.text.len()) {
        assert forall|c: Seq<char>, o: Option<Seq<char>>|
            edit_invariant(v1) && edit_invariant(#[trigger] settle_action(v1, a, c, o)) by {
            lemma_area_key_event_keeps_invariant(v, cmd, shift, allow_tab, lines, c, o);
        }
        lemma_step_keeps_invariant(sanitize, v1, a, clipboard, after, settled);
    }
    if cursor_invariant(v) && lines_within(lines, v.text.len()) && !positions_valid(v) {
        lemma_area_step_keeps_cursor(
            sanitize,
            v,
            cmd,
            shift,
            allow_tab,
            lines,
            clipboard,
            after,
            settled,
        );
    }
}

/// Every key event of a single-line input keeps the invariant: the command,
/// then whatever it asked for (settling, pasting whatever the clipboard
/// holds), whatever the sanitizer returns.
pub proof fn lemma_line_key_event_keeps_invariant(
    v: EditView,
    cmd: EditCommand,
    shift: bool,
    copy_allowed: bool,
    clipboard: Seq<char>,
    sanitized: Option<Seq<char>>,
)
    requires
        edit_invariant(v),
    ensures
        ({
            let (v1, a) = line_command_effect(v, cmd, shift, copy_allowed);
            &&& edit_invariant(v1)
            &&& edit_invariant(settle_action(v1, a, clipboard, sanitized))
        }),
{
    let (v1, a) = line_command_effect(v, cmd, shift, copy_allowed);
    lemma_commands_keep_positions_valid(v, cmd, shift, copy_allowed);
    lemma_delete_selection_invariant(v);
    match cmd {
        EditCommand::Space => lemma_insert_invariant(v, seq![' ']),
        EditCommand::Backspace => {
            if v.anchor is None && v.cursor > 0 {
                assert(v1.text.len() == v.text.len() - 1);
            }
        },
        EditCommand::Delete => {
            if v.anchor is None && v.cursor < v.text.len() {
                assert(v1.text.len() == v.text.len() - 1);
            }
        },
        _ => {},
    }
    assert(edit_invariant(v1));
    match a {
        EditActionView::Handled { edited, .. } => {
            if edited {
                lemma_settle_invariant(v1, sanitized);
            }
        },
        EditActionView::Cut(_) => lemma_settle_invariant(v1, sanitized),
        EditActionView::Paste => lemma_insert_then_settle_keeps_invariant(v1, clipboard, sanitized),
        _ => {},
    }
}

/// Every key event of a multi-line input keeps the invariant, given a layout
/// whose lines lie within the text.
pub proof fn lemma_area_key_event_keeps_invariant(
    v: EditView,
    cmd: EditCommand,
    shift: bool,
    allow_tab: bool,
    lines: Seq<LineSpan>,
    clipboard: Seq<char>,
    sanitized: Option<Seq<char>>,
)
    requires
        edit_invariant(v),
        lines_within(lines, v.text.len()),
    ensures
        ({
            let (v1, a) = area_command_effect(v, cmd, shift, allow_tab, lines);
            &&& edit_invariant(v1)
            &&& edit_invariant(settle_action(v1, a, clipboard, sanitized))
        }),
{
    let (v1, a) = area_command_effect(v, cmd, shift, allow_tab, lines);
    lemma_area_commands_keep_positions_valid(v, cmd, shift, allow_tab, lines);
    lemma_delete_selection_invariant(v);
    match cmd {
        EditCommand::Space => lemma_insert_invariant(v, seq![' ']),
        EditCommand::Enter => lemma_insert_invariant(v, seq!['\n']),
        EditCommand::Tab => {
            if allow_tab {
                lemma_insert_invariant(v, seq!['\t']);
            }
        },
        EditCommand::Backspace => {
            if v.anchor is None && v.cursor > 0 {
                assert(v1.text.len() == v.text.len() - 1);
            }
        },
        EditCommand::Delete => {
            if v.anchor is None && v.cursor < v.text.len() {
                assert(v1.text.len() == v.text.len() - 1);
            }
        },
        _ => {},
    }
    assert(edit_invariant(v1));
    match a {
        EditActionView::Handled { edited, .. } => {
            if edited {
                lemma_settle_invariant(v1, sanitized);
            }
        },
        EditActionView::Cut(_) => lemma_settle_invariant(v1, sanitized),
        EditActionView::Paste => lemma_insert_then_settle_keeps_invariant(v1, clipboard, sanitized),
        _ => {},
    }
}

/// Pointer events keep the invariant: a press or drag to a position within
/// the text, a release, or a press elsewhere that drops the selection.
pub proof fn lemma_pointer_events_keep_invariant(v: EditView, index: usize)
    requires
        edit_invariant(v),
        index <= v.text.len(),
    ensures
        edit_invariant(EditView { cursor: index, anchor: Some(index), ..v }),
        edit_invariant(EditView { cursor: index, ..v }),
        edit_invariant(EditView { anchor: None, ..v }),
{
}

/// `after` is `v` settled with what the sanitizer returned for `v`'s text:
/// its output (if any) replaces the text, the limit truncates it, and the
/// cursor is clamped.
pub open spec fn settled_by<F: Fn(String) -> Option<String>>(
    sanitize: F,
    v: EditView,
    after: EditView,
) -> bool {
    exists|t: String, out: Option<String>|
        t@ == v.text && #[trigger] sanitize.ensures((t,), out) && after == finalize_effect(
            v,
            string_option_view(out),
        )
}

/// What carrying out an editing command's action does to the state `v` the
/// command left: an edit or a cut is settled; a paste inserts the
/// clipboard's text (when the clipboard could be read) and settles it when
/// that changed anything; anything else keeps `v`. `settled` says whether the
/// edit was settled (the input then counts as interacted with).
pub open spec fn step_result<F: Fn(String) -> Option<String>>(
    sanitize: F,
    v: EditView,
    a: EditActionView,
    clipboard: Option<Seq<char>>,
    after: EditView,
    settled: bool,
) -> bool {
    match a {
        EditActionView::Handled { edited, .. } => if edited {
            settled && settled_by(sanitize, v, after)
        } else {
            !settled && after == v
        },
        EditActionView::Cut(_) => settled && settled_by(sanitize, v, after),
        EditActionView::Paste => match clipboard {
            Some(c) => if insert_changes(v, c) {
                settled && settled_by(sanitize, insert_effect(v, c), after)
            } else {
                !settled && after == insert_effect(v, c)
            },
            None => !settled && after == v,
        },
        _ => !settled && after == v,
    }
}

/// The result of a whole event step of an input.
#[derive(Debug)]
pub struct StepOutcome {
    /// What is left for the widget to do (copy to the clipboard, move focus,
    /// move the cursor a visual line), or whether the event was handled.
    pub action: EditAction,
    /// The edit was settled: the input now counts as interacted with.
    pub settled: bool,
    /// The text differs from before the event: the change callback fires.
    pub changed: bool,
}

impl TextEditor {
    /// Settle with the sanitizer's output for the current text.
    fn settle<F: Fn(String) -> Option<String>>(&mut self, previous: &String, sanitize: &F)
        requires
            forall|t: String| sanitize.requires((t,)),
        ensures
            settled_by(*sanitize, old(self)@, final(self)@),
    {
        let t = self.text.clone();
        let out = sanitize(t);
        self.finalize_text_change(previous, out);
    }

    /// Carry out what a command asked for (see `step_result`).
    fn carry_out<F: Fn(String) -> Option<String>>(
        &mut self,
        action: &EditAction,
        clipboard: Option<String>,
        previous: &String,
        sanitize: &F,
    ) -> (settled: bool)
        requires
            forall|t: String| sanitize.requires((t,)),
            (action is Paste && clipboard is Some) ==> positions_valid(old(self)@),
        ensures
            step_result(
                *sanitize,
                old(self)@,
                action_view(*action),
                string_option_view(clipboard),
                final(self)@,
                settled,
            ),
    {
        match action {
            EditAction::Handled { edited, .. } => {
                if *edited {
                    self.settle(previous, sanitize);
                    true
                } else {
                    false
                }
            },
            EditAction::Cut(_) => {
                self.settle(previous, sanitize);
                true
            },
            EditAction::Paste => match clipboard {
                Some(c) => {
                    if self.insert_text(c.as_str()) {
                        self.settle(previous, sanitize);
                        true
                    } else {
                        false
                    }
                },
                None => false,
            },
            _ => false,
        }
    }

    /// A whole key event of a single-line input: the command, then what it
    /// asked for, with `clipboard` the clipboard's text when the command is a
    /// paste (`None` when it could not be read) and `sanitize` the input's
    /// sanitizer. The invariant (positions within the text, text within the
    /// limit) is kept, and so is the cursor within the text whatever the
    /// selection start holds; `changed` tells whether the text changed.
    #[verifier::spinoff_prover]
    pub fn line_key_step<F: Fn(String) -> Option<String>>(
        &mut self,
        cmd: EditCommand,
        shift: bool,
        copy_allowed: bool,
        clipboard: Option<String>,
        sanitize: &F,
    ) -> (out: StepOutcome)
        requires
            forall|t: String| sanitize.requires((t,)),
            line_command_needs_positions(cmd) || (cmd == EditCommand::Paste && clipboard is Some)
                ==> positions_valid(old(self)@),
        ensures
            action_view(out.action) == line_command_effect(old(self)@, cmd, shift, copy_allowed).1,
            step_result(
                *sanitize,
                line_command_effect(old(self)@, cmd, shift, copy_allowed).0,
                line_command_effect(old(self)@, cmd, shift, copy_allowed).1,
                string_option_view(clipboard),
                final(self)@,
                out.settled,
            ),
            out.changed == (final(self)@.text != old(self)@.text),
            edit_invariant(old(self)@) ==> edit_invariant(final(self)@),
            cursor_invariant(old(self)@) ==> cursor_invariant(final(self)@),
    {
        let previous = self.text.clone();
        let action = self.apply_line_command(cmd, shift, copy_allowed);
        let settled = self.carry_out(&action, clipboard, &previous, sanitize);
        let changed = self.text != previous;
        proof {
            lemma_line_step_invariants(
                *sanitize,
                old(self)@,
                cmd,
                shift,
                copy_allowed,
                string_option_view(clipboard),
                self@,
                settled,
            );
        }
        StepOutcome { action, settled, changed }
    }

    /// A whole key event of a multi-line input laid out as `lines` (see
    /// `line_key_step`); the invariant is kept when the layout lies within
    /// the text.
    #[verifier::spinoff_prover]
    pub fn area_key_step<F: Fn(String) -> Option<String>>(
        &mut self,
        cmd: EditCommand,
        shift: bool,
        allow_tab: bool,
        lines: &[LineSpan],
        clipboard: Option<String>,
        sanitize: &F,
    ) -> (out: StepOutcome)
        requires
            forall|t: String| sanitize.requires((t,)),
            area_command_needs_positions(cmd, allow_tab) || (cmd == EditCommand::Paste
                && clipboard is Some) ==> positions_valid(old(self)@),
        ensures
            action_view(out.action) == area_command_effect(
                old(self)@,
                cmd,
                shift,
                allow_tab,
                lines@,
            ).1,
            step_result(
                *sanitize,
                area_command_effect(old(self)@, cmd, shift, allow_tab, lines@).0,
                area_command_effect(old(self)@, cmd, shift, allow_tab, lines@).1,
                string_option_view(clipboard),
                final(self)@,
                out.settled,
            ),
            out.changed == (final(self)@.text != old(self)@.text),
            edit_invariant(old(self)@) && lines_within(lines@, old(self)@.text.len())
                ==> edit_invariant(final(self)@),
            cursor_invariant(old(self)@) && lines_within(lines@, old(self)@.text.len())
                ==> cursor_invariant(final(self)@),
    {
        let previous = self.text.clone();
        let action = self.apply_area_command(cmd, shift, allow_tab, lines);
        let settled = self.carry_out(&action, clipboard, &previous, sanitize);
        let changed = self.text != previous;
        proof {
            lemma_area_step_invariants(
                *sanitize,
                old(self)@,
                cmd,
                shift,
                allow_tab,
                lines@,
                string_option_view(clipboard),
                self@,
                settled,
            );
        }
        StepOutcome { action, settled, changed }
    }

    /// A typed character in a single-line input, settled when it went in.
    pub fn line_char_step<F: Fn(String) -> Option<String>>(&mut self, c: char, sanitize: &F) -> (out:
        StepOutcome)
        requires
            forall|t: String| sanitize.requires((t,)),
            line_accepts_char(c) ==> positions_valid(old(self)@),
        ensures
            line_accepts_char(c) ==> {
                &&& action_view(out.action) == handled(insert_changes(old(self)@, seq![c]), false)
                &&& step_result(
                    *sanitize,
                    insert_effect(old(self)@, seq![c]),
                    handled(insert_changes(old(self)@, seq![c]), false),
                    None,
                    final(self)@,
                    out.settled,
                )
            },
            !line_accepts_char(c) ==> out.action is Ignored && !out.settled && final(self)@ == old(
                self,
            )@,
            out.changed == (final(self)@.text != old(self)@.text),
            edit_invariant(old(self)@) ==> edit_invariant(final(self)@),
            cursor_invariant(old(self)@) ==> cursor_invariant(final(self)@),
    {
        let previous = self.text.clone();
        let action = self.apply_line_char(c);
        let ghost v1 = self@;
        let settled = self.carry_out(&action, None, &previous, sanitize);
        let changed = self.text != previous;
        proof {
            if edit_invariant(old(self)@) && line_accepts_char(c) {
                assert forall|cl: Seq<char>, o: Option<Seq<char>>|
                    edit_invariant(v1) && edit_invariant(
                        #[trigger] settle_action(v1, action_view(action), cl, o),
                    ) by {
                    lemma_insert_then_settle_keeps_invariant(old(self)@, seq![c], o);
                }
                lemma_step_keeps_invariant(*sanitize, v1, action_view(action), None, self@, settled);
            }
        }
        StepOutcome { action, settled, changed }
    }

    /// A typed character in a multi-line input, settled when it went in.
    pub fn area_char_step<F: Fn(String) -> Option<String>>(
        &mut self,
        c: char,
        allow_tab: bool,
        sanitize: &F,
    ) -> (out: StepOutcome)
        requires
            forall|t: String| sanitize.requires((t,)),
            area_char_text(c, allow_tab) is Some ==> positions_valid(old(self)@),
        ensures
            match area_char_text(c, allow_tab) {
                Some(t) => {
                    &&& action_view(out.action) == handled(insert_changes(old(self)@, t), false)
                    &&& step_result(
                        *sanitize,
                        insert_effect(old(self)@, t),
                        handled(insert_changes(old(self)@, t), false),
                        None,
                        final(self)@,
                        out.settled,
                    )
                },
                None => out.action is Ignored && !out.settled && final(self)@ == old(self)@,
            },
            out.changed == (final(self)@.text != old(self)@.text),
            edit_invariant(old(self)@) ==> edit_invariant(final(self)@),
            cursor_invariant(old(self)@) ==> cursor_invariant(final(self)@),
    {
        let previous = self.text.clone();
        let action = self.apply_area_char(c, allow_tab);
        let ghost v1 = self@;
        let settled = self.carry_out(&action, None, &previous, sanitize);
        let changed = self.text != previous;
        proof {
            if edit_invariant(old(self)@) && area_char_text(c, allow_tab) is Some {
                let t = area_char_text(c, allow_tab)->0;
                assert forall|cl: Seq<char>, o: Option<Seq<char>>|
                    edit_invariant(v1) && edit_invariant(
                        #[trigger] settle_action(v1, action_view(action), cl, o),
                    ) by {
                    lemma_insert_then_settle_keeps_invariant(old(self)@, t, o);
                }
                lemma_step_keeps_invariant(*sanitize, v1, action_view(action), None, self@, settled);
            }
        }
        StepOutcome { action, settled, changed }
    }

    /// Committed IME text: inserted at the cursor, then always settled.
    /// Returns whether the text changed.
    pub fn commit_step<F: Fn(String) -> Option<String>>(&mut self, text: &str, sanitize: &F) -> (changed:
        bool)
        requires
            forall|t: String| sanitize.requires((t,)),
            positions_valid(old(self)@),
        ensures
            settled_by(*sanitize, insert_effect(old(self)@, text@), final(self)@),
            changed == (final(self)@.text != old(self)@.text),
            edit_invariant(old(self)@) ==> edit_invariant(final(self)@),
            cursor_invariant(old(self)@) ==> cursor_invariant(final(self)@),
    {
        let previous = self.text.clone();
        self.insert_text(text);
        let ghost v1 = self@;
        self.settle(&previous, sanitize);
        let changed = self.text != previous;
        proof {
            if edit_invariant(old(self)@) {
                lemma_insert_then_settle_keeps_invariant(old(self)@, text@, None);
                let (t, o) = choose|t: String, o: Option<String>|
                    t@ == v1.text && #[trigger] sanitize.ensures((t,), o) && self@ == finalize_effect(
                        v1,
                        string_option_view(o),
                    );
                lemma_insert_then_settle_keeps_invariant(old(self)@, text@, string_option_view(o));
            }
        }
        changed
    }
}

/// Carrying out an action keeps the invariant when every way of settling it
/// does.
proof fn lemma_step_keeps_invariant<F: Fn(String) -> Option<String>>(
    sanitize: F,
    v: EditView,
    a: EditActionView,
    clipboard: Option<Seq<char>>,
    after: EditView,
    settled: bool,
)
    requires
        forall|c: Seq<char>, o: Option<Seq<char>>|
            edit_invariant(v) && edit_invariant(#[trigger] settle_action(v, a, c, o)),
        step_result(sanitize, v, a, clipboard, after, settled),
    ensures
        edit_invariant(after),
{
    let c = match clipboard {
        Some(c) => c,
        None => Seq::<char>::empty(),
    };
    assert(edit_invariant(settle_action(v, a, c, None)));
    if settled {
        let x = match a {
            EditActionView::Paste => insert_effect(v, c),
            _ => v,
        };
        assert(settled_by(sanitize, x, after));
        let (t, out) = choose|t: String, out: Option<String>|
            t@ == x.text && #[trigger] sanitize.ensures((t,), out) && after == finalize_effect(
                x,
                string_option_view(out),
            );
        assert(edit_invariant(settle_action(v, a, c, string_option_view(out))));
    }
}

} // verus!
