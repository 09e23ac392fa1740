//! Keyboard focus state and Tab / Shift+Tab navigation.
use std::collections::HashSet;
use vstd::prelude::*;
use crate::ids::WidgetId;

verus! {

broadcast use vstd::std_specs::hash::group_hash_axioms;

/// The numeric values of the identifiers in `chain`, in order.
pub open spec fn chain_keys(chain: Seq<WidgetId>) -> Seq<u64> {
    chain.map_values(|w: WidgetId| w.0)
}

/// No identifier occurs twice in `chain`.
pub open spec fn no_duplicates(chain: Seq<WidgetId>) -> bool {
    forall|i: int, j: int| 0 <= i < j < chain.len() ==> chain[i] != chain[j]
}

/// `i` is the first position of `id` in `chain`.
pub open spec fn is_first_index(chain: Seq<WidgetId>, id: WidgetId, i: int) -> bool {
    &&& 0 <= i < chain.len()
    &&& chain[i] == id
    &&& forall|k: int| 0 <= k < i ==> chain[k] != id
}

/// The first position of `id` in `chain` (meaningful when `chain` contains it).
pub open spec fn first_index(chain: Seq<WidgetId>, id: WidgetId) -> int {
    choose|i: int| is_first_index(chain, id, i)
}

/// Index that Tab moves focus to: the entry after the focused one (wrapping
/// around), or the first entry when nothing in the chain is focused.
pub open spec fn next_focus_index(chain: Seq<WidgetId>, focused: Option<WidgetId>) -> int {
    match focused {
        Some(current) => if chain.contains(current) {
            (first_index(chain, current) + 1) % (chain.len() as int)
        } else {
            0
        },
        None => 0,
    }
}

/// Index that Shift+Tab moves focus to: the entry before the focused one
/// (wrapping around), or the last entry when nothing in the chain is focused.
pub open spec fn prev_focus_index(chain: Seq<WidgetId>, focused: Option<WidgetId>) -> int {
    match focused {
        Some(current) => if chain.contains(current) {
            let i = first_index(chain, current);
            if i == 0 {
                chain.len() - 1
            } else {
                i - 1
            }
        } else {
            chain.len() - 1
        },
        None => chain.len() - 1,
    }
}

/// The chain after registering `id`: appended unless already present.
pub open spec fn with_registered(chain: Seq<WidgetId>, id: WidgetId) -> Seq<WidgetId> {
    if chain.contains(id) {
        chain
    } else {
        chain.push(id)
    }
}

/// Manages keyboard focus state and tab navigation.
#[derive(Debug)]
pub struct FocusManager {
    /// Currently focused widget ID (if any)
    current_focus: Option<WidgetId>,
    /// Ordered list of focusable widget IDs (built during layout)
    focus_chain: Vec<WidgetId>,
    /// Set of registered IDs for fast lookup (prevents duplicates)
    registered_ids: HashSet<u64>,
}

impl View for FocusManager {
    /// The focused widget and the focus chain.
    type V = (Option<WidgetId>, Seq<WidgetId>);

    closed spec fn view(&self) -> (Option<WidgetId>, Seq<WidgetId>) {
        (self.current_focus, self.focus_chain@)
    }
}

impl FocusManager {
    /// The chain holds each identifier at most once, and the lookup set holds
    /// exactly the identifiers of the chain.
    pub closed spec fn wf(&self) -> bool {
        &&& no_duplicates(self.focus_chain@)
        &&& self.registered_ids@ == chain_keys(self.focus_chain@).to_set()
    }

    /// A manager with no focus and an empty chain.
    pub fn new() -> (fm: Self)
        ensures
            fm.wf(),
            fm@.0 is None,
            fm@.1 == Seq::<WidgetId>::empty(),
    {
        let fm = FocusManager {
            current_focus: None,
            focus_chain: Vec::new(),
            registered_ids: HashSet::new(),
        };
        assert(chain_keys(fm.focus_chain@).to_set() =~= Set::<u64>::empty());
        fm
    }

    /// A well-formed manager's chain holds no identifier twice.
    pub proof fn lemma_wf_no_duplicates(fm: FocusManager)
        requires
            fm.wf(),
        ensures
            no_duplicates(fm@.1),
    {
    }

    /// Get the currently focused widget ID.
    pub fn get_focused(&self) -> (r: Option<WidgetId>)
        ensures
            r == self@.0,
    {
        self.current_focus
    }

    /// Set focus to a specific widget.
    pub fn set_focus(&mut self, id: Option<WidgetId>)
        requires
            old(self).wf(),
        ensures
            final(self).wf(),
            final(self)@.0 == id,
            final(self)@.1 == old(self)@.1,
    {
        self.current_focus = id;
    }

    /// Check if a widget has focus.
    pub fn has_focus(&self, id: WidgetId) -> (r: bool)
        ensures
            r == (self@.0 == Some(id)),
    {
        match self.current_focus {
            Some(current) => current.0 == id.0,
            None => false,
        }
    }

    /// Clear the focus chain (called at start of layout).
    pub fn clear_chain(&mut self)
        requires
            old(self).wf(),
        ensures
            final(self).wf(),
            final(self)@.0 == old(self)@.0,
            final(self)@.1 == Seq::<WidgetId>::empty(),
    {
        self.focus_chain = Vec::new();
        self.registered_ids = HashSet::new();
        assert(chain_keys(self.focus_chain@).to_set() =~= Set::<u64>::empty());
    }

    /// Register a focusable widget (called during layout): appended to the
    /// chain unless it is already there.
    pub fn register_focusable(&mut self, id: WidgetId)
        requires
            old(self).wf(),
        ensures
            final(self).wf(),
            final(self)@.0 == old(self)@.0,
            final(self)@.1 == with_registered(old(self)@.1, id),
    {
        let ghost old_chain = self.focus_chain@;
        proof {
            assert(old_chain.contains(id) <==> chain_keys(old_chain).contains(id.0)) by {
                if chain_keys(old_chain).contains(id.0) {
                    let k = choose|k: int| 0 <= k < old_chain.len() && chain_keys(old_chain)[k] == id.0;
                    assert(old_chain[k] == id);
                }
                if old_chain.contains(id) {
                    let k = choose|k: int| 0 <= k < old_chain.len() && old_chain[k] == id;
                    assert(chain_keys(old_chain)[k] == id.0);
                }
            }
        }
        if self.registered_ids.insert(id.0) {
            self.focus_chain.push(id);
            proof {
                assert(chain_keys(self.focus_chain@) =~= chain_keys(old_chain).push(id.0));
                broadcast use vstd::seq_lib::lemma_seq_contains_after_push;
                assert(!old_chain.contains(id));
                assert forall|i: int, j: int|
                    0 <= i < j < self.focus_chain@.len() implies self.focus_chain@[i]
                    != self.focus_chain@[j] by {
                    if j == old_chain.len() {
                        assert(old_chain[i] == self.focus_chain@[i]);
                    }
                }
                assert(chain_keys(self.focus_chain@).to_set() =~= chain_keys(old_chain).to_set().insert(id.0));
            }
        } else {
            assert(self.registered_ids@ =~= chain_keys(old_chain).to_set());
        }
    }

    /// Clear the focus chain (call before layout pass).
    pub fn clear_focus_chain(&mut self)
        requires
            old(self).wf(),
        ensures
            final(self).wf(),
            final(self)@.0 == old(self)@.0,
            final(self)@.1 == Seq::<WidgetId>::empty(),
    {
        self.clear_chain();
    }

    /// Position of `id` in the chain, if present.
    fn position(&self, id: WidgetId) -> (r: Option<usize>)
        ensures
            match r {
                Some(i) => is_first_index(self@.1, id, i as int),
                None => !self@.1.contains(id),
            },
    {
        let mut i: usize = 0;
        while i < self.focus_chain.len()
            invariant
                i <= self.focus_chain@.len(),
                forall|k: int| 0 <= k < i ==> self.focus_chain@[k] != id,
            decreases self.focus_chain.len() - i,
        {
            if self.focus_chain[i].0 == id.0 {
                return Some(i);
            }
            i += 1;
        }
        None
    }

    /// Move focus to next widget in chain (Tab).
    pub fn focus_next(&mut self) -> (r: Option<WidgetId>)
        requires
            old(self).wf(),
        ensures
            final(self).wf(),
            final(self)@.1 == old(self)@.1,
            old(self)@.1.len() == 0 ==> r is None && final(self)@.0 == old(self)@.0,
            old(self)@.1.len() > 0 ==> {
                &&& 0 <= next_focus_index(old(self)@.1, old(self)@.0) < old(self)@.1.len()
                &&& r == Some(old(self)@.1[next_focus_index(old(self)@.1, old(self)@.0)])
                &&& final(self)@.0 == r
            },
    {
        let len = self.focus_chain.len();
        if len == 0 {
            return None;
        }
        let next_index = match self.current_focus {
            Some(current) => match self.position(current) {
                Some(i) => {
                    proof {
                        assert(self@.1.contains(current));
                        lemma_first_index_unique(self@.1, current, i as int);
                    }
                    (i + 1) % len
                },
                None => 0,
            },
            None => 0,
        };
        let next_id = self.focus_chain[next_index];
        self.current_focus = Some(next_id);
        Some(next_id)
    }

    /// Move focus to previous widget in chain (Shift+Tab).
    pub fn focus_prev(&mut self) -> (r: Option<WidgetId>)
        requires
            old(self).wf(),
        ensures
            final(self).wf(),
            final(self)@.1 == old(self)@.1,
            old(self)@.1.len() == 0 ==> r is None && final(self)@.0 == old(self)@.0,
            old(self)@.1.len() > 0 ==> {
                &&& 0 <= prev_focus_index(old(self)@.1, old(self)@.0) < old(self)@.1.len()
                &&& r == Some(old(self)@.1[prev_focus_index(old(self)@.1, old(self)@.0)])
                &&& final(self)@.0 == r
            },
    {
        let len = self.focus_chain.len();
        if len == 0 {
            return None;
        }
        let prev_index = match self.current_focus {
            Some(current) => match self.position(current) {
                Some(i) => {
                    proof {
                        assert(self@.1.contains(current));
                        lemma_first_index_unique(self@.1, current, i as int);
                    }
                    if i == 0 {
                        len - 1
                    } else {
                        i - 1
                    }
                },
                None => len - 1,
            },
            None => len - 1,
        };
        let prev_id = self.focus_chain[prev_index];
        self.current_focus = Some(prev_id);
        Some(prev_id)
    }
}

impl Default for FocusManager {
    fn default() -> (fm: Self)
        ensures
            fm.wf(),
            fm@.0 is None,
            fm@.1 == Seq::<WidgetId>::empty(),
    {
        Self::new()
    }
}

/// A position with the "first occurrence" property is the one `first_index` picks.
pub proof fn lemma_first_index_unique(chain: Seq<WidgetId>, id: WidgetId, i: int)
    requires
        is_first_index(chain, id, i),
    ensures
        first_index(chain, id) == i,
{
    let j = first_index(chain, id);
    assert(is_first_index(chain, id, j));
    if j < i {
        assert(chain[j] != id);
    }
    if i < j {
        assert(chain[i] != id);
    }
}

/// In a chain without duplicates, the first position of the entry at `i` is `i`.
pub proof fn lemma_first_index_of_entry(chain: Seq<WidgetId>, i: int)
    requires
        no_duplicates(chain),
        0 <= i < chain.len(),
    ensures
        chain.contains(chain[i]),
        first_index(chain, chain[i]) == i,
{
    assert forall|k: int| 0 <= k < i implies chain[k] != chain[i] by {}
    assert(is_first_index(chain, chain[i], i));
    lemma_first_index_unique(chain, chain[i], i);
}

/// Shift+Tab undoes Tab: when the focused widget is in a chain without
/// duplicates, moving to the next widget and then to the previous one focuses
/// the original widget again.
pub proof fn lemma_prev_undoes_next(chain: Seq<WidgetId>, focused: WidgetId)
    requires
        no_duplicates(chain),
        chain.contains(focused),
    ensures
        chain[prev_focus_index(chain, Some(chain[next_focus_index(chain, Some(focused))]))]
            == focused,
{
    let k = choose|k: int| 0 <= k < chain.len() && chain[k] == focused;
    lemma_first_index_of_entry(chain, k);
    let n = next_focus_index(chain, Some(focused));
    assert(0 <= n < chain.len());
    lemma_first_index_of_entry(chain, n);
    if k + 1 < chain.len() {
        vstd::arithmetic::div_mod::lemma_small_mod((k + 1) as nat, chain.len());
        assert(n == k + 1);
    } else {
        vstd::arithmetic::div_mod::lemma_mod_self_0(chain.len() as int);
        assert(n == 0);
    }
}

/// Tab undoes Shift+Tab: when the focused widget is in a chain without
/// duplicates, moving to the previous widget and then to the next one focuses
/// the original widget again.
pub proof fn lemma_next_undoes_prev(chain: Seq<WidgetId>, focused: WidgetId)
    requires
        no_duplicates(chain),
        chain.contains(focused),
    ensures
        chain[next_focus_index(chain, Some(chain[prev_focus_index(chain, Some(focused))]))]
            == focused,
{
    let k = choose|k: int| 0 <= k < chain.len() && chain[k] == focused;
    lemma_first_index_of_entry(chain, k);
    let p = prev_focus_index(chain, Some(focused));
    assert(0 <= p < chain.len());
    lemma_first_index_of_entry(chain, p);
    if k == 0 {
        assert(p == chain.len() - 1);
        vstd::arithmetic::div_mod::lemma_mod_self_0(chain.len() as int);
        assert((p + 1) % (chain.len() as int) == 0);
    } else {
        assert(p == k - 1);
        vstd::arithmetic::div_mod::lemma_small_mod((p + 1) as nat, chain.len());
    }
}

/// Registering a widget twice has the effect of registering it once, so the
/// chain never holds duplicates however often layout runs.
pub proof fn lemma_register_idempotent(chain: Seq<WidgetId>, id: WidgetId)
    ensures
        with_registered(with_registered(chain, id), id) == with_registered(chain, id),
        with_registered(chain, id).contains(id),
        no_duplicates(chain) ==> no_duplicates(with_registered(chain, id)),
{
    broadcast use vstd::seq_lib::lemma_seq_contains_after_push;
    if !chain.contains(id) {
        assert(chain.push(id)[chain.len() as int] == id);
        assert forall|i: int, j: int|
            no_duplicates(chain) && 0 <= i < j < chain.push(id).len() implies chain.push(id)[i]
            != chain.push(id)[j] by {
            if j == chain.len() {
                assert(chain[i] == chain.push(id)[i]);
            }
        }
    }
}

/// Tab cycles forward through the chain: from the entry at `i` it moves to
/// the entry at `i + 1`, and from the last entry back to the first.
/// Shift+Tab cycles backward the same way.
pub proof fn lemma_tab_cycles(chain: Seq<WidgetId>, i: int)
    requires
        no_duplicates(chain),
        0 <= i < chain.len(),
    ensures
        next_focus_index(chain, Some(chain[i])) == (if i + 1 < chain.len() {
            i + 1
        } else {
            0
        }),
        prev_focus_index(chain, Some(chain[i])) == (if i > 0 {
            i - 1
        } else {
            chain.len() - 1
        }),
{
    lemma_first_index_of_entry(chain, i);
    if i + 1 < chain.len() {
        vstd::arithmetic::div_mod::lemma_small_mod((i + 1) as nat, chain.len());
    } else {
        vstd::arithmetic::div_mod::lemma_mod_self_0(chain.len() as int);
    }
}

/// Without a focused widget in the chain, Tab focuses the first entry and
/// Shift+Tab the last.
pub proof fn lemma_tab_from_nothing(chain: Seq<WidgetId>, focused: Option<WidgetId>)
    requires
        chain.len() > 0,
        !(focused matches Some(f) && chain.contains(f)),
    ensures
        next_focus_index(chain, focused) == 0,
        prev_focus_index(chain, focused) == chain.len() - 1,
{
}

/// Position of focus after `n` presses of Tab, starting from the entry at `start`.
pub open spec fn index_after_tabs(chain: Seq<WidgetId>, start: int, n: nat) -> int
    decreases n,
{
    if n == 0 {
        start
    } else {
        next_focus_index(chain, Some(chain[index_after_tabs(chain, start, (n - 1) as nat)]))
    }
}

/// Position of focus after `n` presses of Shift+Tab, starting from the entry at `start`.
pub open spec fn index_after_shift_tabs(chain: Seq<WidgetId>, start: int, n: nat) -> int
    decreases n,
{
    if n == 0 {
        start
    } else {
        prev_focus_index(chain, Some(chain[index_after_shift_tabs(chain, start, (n - 1) as nat)]))
    }
}

/// Tab and Shift+Tab go round the chain: `n` presses of Tab move focus `n`
/// entries forward, and `n` presses of Shift+Tab `n` entries back, modulo the
/// chain's length.
pub proof fn lemma_tabs_go_round(chain: Seq<WidgetId>, start: int, n: nat)
    requires
        no_duplicates(chain),
        0 <= start < chain.len(),
    ensures
        index_after_tabs(chain, start, n) == (start + n) % (chain.len() as int),
        index_after_shift_tabs(chain, start, n) == (start - n) % (chain.len() as int),
    decreases n,
{
    let m = chain.len() as int;
    if n == 0 {
        vstd::arithmetic::div_mod::lemma_small_mod(start as nat, m as nat);
    } else {
        let k = (n - 1) as nat;
        lemma_tabs_go_round(chain, start, k);
        let a = index_after_tabs(chain, start, k);
        vstd::arithmetic::div_mod::lemma_mod_bound(start + k, m);
        lemma_tab_cycles(chain, a);
        if a + 1 < m {
            vstd::arithmetic::div_mod::lemma_small_mod((a + 1) as nat, m as nat);
        } else {
            vstd::arithmetic::div_mod::lemma_mod_self_0(m);
        }
        vstd::arithmetic::div_mod::lemma_add_mod_noop_right(1, start + k, m);
        assert(1 + (start + k) == start + n);
        let b = index_after_shift_tabs(chain, start, k);
        vstd::arithmetic::div_mod::lemma_mod_bound(start - k, m);
        lemma_tab_cycles(chain, b);
        if b > 0 {
            vstd::arithmetic::div_mod::lemma_small_mod((b - 1) as nat, m as nat);
        } else {
            vstd::arithmetic::div_mod::lemma_mod_add_multiples_vanish(-1, m);
            vstd::arithmetic::div_mod::lemma_small_mod((m - 1) as nat, m as nat);
        }
        vstd::arithmetic::div_mod::lemma_add_mod_noop_right(-1, start - k, m);
        assert(-1 + (start - k) == start - n);
    }
}

/// Tab visits every focusable widget: from any entry, as many presses of Tab
/// (or of Shift+Tab) as the chain has entries come back to it, and every
/// entry is reached within that many presses.
pub proof fn lemma_tab_visits_every_widget(chain: Seq<WidgetId>, start: int, target: int)
    requires
        no_duplicates(chain),
        0 <= start < chain.len(),
        0 <= target < chain.len(),
    ensures
        index_after_tabs(chain, start, chain.len()) == start,
        index_after_shift_tabs(chain, start, chain.len()) == start,
        exists|k: nat| k < chain.len() && #[trigger] index_after_tabs(chain, start, k) == target,
        exists|k: nat| k < chain.len() && #[trigger] index_after_shift_tabs(chain, start, k) == target,
{
    let m = chain.len() as int;
    lemma_tabs_go_round(chain, start, chain.len());
    vstd::arithmetic::div_mod::lemma_mod_add_multiples_vanish(start, m);
    vstd::arithmetic::div_mod::lemma_mod_sub_multiples_vanish(start, m);
    vstd::arithmetic::div_mod::lemma_small_mod(start as nat, m as nat);
    vstd::arithmetic::div_mod::lemma_small_mod(target as nat, m as nat);
    let fwd = (target - start) % m;
    vstd::arithmetic::div_mod::lemma_mod_bound(target - start, m);
    lemma_tabs_go_round(chain, start, fwd as nat);
    vstd::arithmetic::div_mod::lemma_add_mod_noop_right(start, target - start, m);
    assert(index_after_tabs(chain, start, fwd as nat) == target);
    let back = (start - target) % m;
    vstd::arithmetic::div_mod::lemma_mod_bound(start - target, m);
    lemma_tabs_go_round(chain, start, back as nat);
    vstd::arithmetic::div_mod::lemma_sub_mod_noop_right(start, start - target, m);
    assert(start - (start - target) == target);
    assert(index_after_shift_tabs(chain, start, back as nat) == target);
}

} // verus!
