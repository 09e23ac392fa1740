//! Draw-pass ordering of queued work (such as text to render): what is
//! queued during the normal pass is rendered before what is queued during
//! the overlay pass, and each pass keeps the order in which it was queued.
use vstd::prelude::*;
use crate::DrawPass;

verus! {

/// Work queued per draw pass, and the pass new work goes to.
pub struct PassQueues<T> {
    normal: Vec<T>,
    overlay: Vec<T>,
    current: DrawPass,
}

/// The queues as sequences: (normal pass, overlay pass, current pass).
pub struct PassView<T> {
    pub normal: Seq<T>,
    pub overlay: Seq<T>,
    pub current: DrawPass,
}

impl<T> View for PassQueues<T> {
    type V = PassView<T>;

    closed spec fn view(&self) -> PassView<T> {
        PassView { normal: self.normal@, overlay: self.overlay@, current: self.current }
    }
}

/// The queues after `item` is queued in the current pass.
pub open spec fn push_effect<T>(v: PassView<T>, item: T) -> PassView<T> {
    match v.current {
        DrawPass::Normal => PassView { normal: v.normal.push(item), ..v },
        DrawPass::Overlay => PassView { overlay: v.overlay.push(item), ..v },
    }
}

/// The queues after switching to `pass`.
pub open spec fn set_pass_effect<T>(v: PassView<T>, pass: DrawPass) -> PassView<T> {
    PassView { current: pass, ..v }
}

/// The order in which queued work is rendered.
pub open spec fn render_order<T>(v: PassView<T>) -> Seq<T> {
    v.normal + v.overlay
}

impl<T> PassQueues<T> {
    /// Empty queues, in the normal pass.
    pub fn new() -> (q: Self)
        ensures
            q@.normal == Seq::<T>::empty(),
            q@.overlay == Seq::<T>::empty(),
            q@.current == DrawPass::Normal,
    {
        PassQueues { normal: Vec::new(), overlay: Vec::new(), current: DrawPass::Normal }
    }

    /// The pass new work goes to.
    pub fn current_pass(&self) -> (p: DrawPass)
        ensures
            p == self@.current,
    {
        self.current
    }

    /// Send new work to `pass`.
    pub fn set_pass(&mut self, pass: DrawPass)
        ensures
            final(self)@ == set_pass_effect(old(self)@, pass),
    {
        self.current = pass;
    }

    /// Queue `item` in the current pass.
    pub fn push(&mut self, item: T)
        ensures
            final(self)@ == push_effect(old(self)@, item),
    {
        match self.current {
            DrawPass::Normal => self.normal.push(item),
            DrawPass::Overlay => self.overlay.push(item),
        }
    }

    /// Number of queued items, both passes together.
    pub fn len(&self) -> (n: usize)
        requires
            self@.normal.len() + self@.overlay.len() <= usize::MAX,
        ensures
            n == self@.normal.len() + self@.overlay.len(),
    {
        self.normal.len() + self.overlay.len()
    }

    /// Drop all queued work; the current pass stays.
    pub fn clear(&mut self)
        ensures
            final(self)@.normal == Seq::<T>::empty(),
            final(self)@.overlay == Seq::<T>::empty(),
            final(self)@.current == old(self)@.current,
    {
        self.normal.clear();
        self.overlay.clear();
    }

    /// Take all queued work in render order, leaving the queues empty.
    pub fn take_in_order(&mut self) -> (items: Vec<T>)
        ensures
            items@ == render_order(old(self)@),
            final(self)@.normal == Seq::<T>::empty(),
            final(self)@.overlay == Seq::<T>::empty(),
            final(self)@.current == old(self)@.current,
    {
        let mut items: Vec<T> = Vec::new();
        std::mem::swap(&mut items, &mut self.normal);
        items.append(&mut self.overlay);
        items
    }
}

/// Overlay work is rendered last: an item queued in the overlay pass comes
/// after an item queued in the normal pass later on, and each pass keeps its
/// own order.
pub proof fn lemma_overlay_rendered_last<T>(v: PassView<T>, a: T, b: T)
    requires
        v.current == DrawPass::Overlay,
    ensures
        ({
            let after = push_effect(set_pass_effect(push_effect(v, a), DrawPass::Normal), b);
            let order = render_order(after);
            &&& order == v.normal.push(b) + v.overlay.push(a)
            &&& order[v.normal.len() as int] == b
            &&& order[order.len() - 1] == a
            &&& order.subrange(0, v.normal.len() as int) == v.normal
        }),
{
    let after = push_effect(set_pass_effect(push_effect(v, a), DrawPass::Normal), b);
    let order = render_order(after);
    assert(order =~= v.normal.push(b) + v.overlay.push(a));
    assert(order.subrange(0, v.normal.len() as int) =~= v.normal);
}

/// Queuing keeps the render order of what was queued before: new work is
/// inserted at the end of its pass.
pub proof fn lemma_push_keeps_order<T>(v: PassView<T>, item: T)
    ensures
        match v.current {
            DrawPass::Normal => render_order(push_effect(v, item)) == v.normal.push(item) + v.overlay,
            DrawPass::Overlay => render_order(push_effect(v, item)) == render_order(v).push(item),
        },
{
    match v.current {
        DrawPass::Normal => {},
        DrawPass::Overlay => {
            assert(render_order(push_effect(v, item)) =~= render_order(v).push(item));
        },
    }
}

} // verus!
