//! The identity of the widget being visited during a tree traversal: its
//! path of child indices, or an explicit identifier that takes precedence.
use vstd::prelude::*;
use vstd::string::*;
use crate::ids::{WidgetId, FNV_OFFSET_BASIS, fnv1a, is_path_id};

verus! {

/// The identifier the top of the explicit-ID stack imposes, if any.
pub open spec fn explicit_top(stack: Seq<Option<WidgetId>>) -> Option<WidgetId> {
    if stack.len() > 0 {
        stack.last()
    } else {
        None
    }
}

/// `id` is the current widget's identifier: the explicit one on top of the
/// stack when there is one, else the identifier of the path.
pub open spec fn is_current_id(path: Seq<usize>, stack: Seq<Option<WidgetId>>, id: WidgetId) -> bool {
    match explicit_top(stack) {
        Some(explicit) => id == explicit,
        None => is_path_id(path, id),
    }
}

/// The identifier `WidgetId::from_key` gives a key.
pub open spec fn key_id(key: &str) -> WidgetId {
    WidgetId(fnv1a(FNV_OFFSET_BASIS, key.spec_bytes()))
}

/// Position in the widget tree during a traversal, for generating widget IDs.
#[derive(Debug)]
pub struct IdScope {
    /// Path in the widget tree for ID generation.
    current_path: Vec<usize>,
    /// Stack of explicit IDs for widgets with `.with_id()`.
    explicit_id_stack: Vec<Option<WidgetId>>,
}

impl View for IdScope {
    /// The path and the explicit-ID stack.
    type V = (Seq<usize>, Seq<Option<WidgetId>>);

    closed spec fn view(&self) -> (Seq<usize>, Seq<Option<WidgetId>>) {
        (self.current_path@, self.explicit_id_stack@)
    }
}

impl IdScope {
    /// At the root: empty path, no explicit IDs.
    pub fn new() -> (s: Self)
        ensures
            s@.0 == Seq::<usize>::empty(),
            s@.1 == Seq::<Option<WidgetId>>::empty(),
    {
        IdScope { current_path: Vec::new(), explicit_id_stack: Vec::new() }
    }

    /// The current path.
    pub fn current_path(&self) -> (p: &[usize])
        ensures
            p@ == self@.0,
    {
        self.current_path.as_slice()
    }

    /// The current widget ID: an explicit ID (set via `.with_id()`) takes
    /// precedence over the path-based one.
    pub fn current_id(&self) -> (id: WidgetId)
        ensures
            is_current_id(self@.0, self@.1, id),
    {
        let n = self.explicit_id_stack.len();
        if n > 0 {
            match self.explicit_id_stack[n - 1] {
                Some(id) => {
                    return id;
                },
                None => {},
            }
        }
        WidgetId::from_path(self.current_path.as_slice())
    }

    /// Enter child `index`.
    pub fn push_path(&mut self, index: usize)
        ensures
            final(self)@.0 == old(self)@.0.push(index),
            final(self)@.1 == old(self)@.1,
    {
        self.current_path.push(index);
    }

    /// Leave the current child.
    pub fn pop_path(&mut self)
        ensures
            final(self)@.0 == (if old(self)@.0.len() > 0 {
                old(self)@.0.drop_last()
            } else {
                old(self)@.0
            }),
            final(self)@.1 == old(self)@.1,
    {
        let _ = self.current_path.pop();
    }

    /// Enter a widget: its explicit ID when it has a key, else a placeholder.
    pub fn push_explicit_id(&mut self, key: Option<&str>)
        ensures
            final(self)@.0 == old(self)@.0,
            final(self)@.1 == old(self)@.1.push(
                match key {
                    Some(k) => Some(key_id(k)),
                    None => None,
                },
            ),
    {
        let id = match key {
            Some(k) => Some(WidgetId::from_key(k)),
            None => None,
        };
        self.explicit_id_stack.push(id);
    }

    /// Leave the widget entered last with `push_explicit_id`.
    pub fn pop_explicit_id(&mut self)
        ensures
            final(self)@.0 == old(self)@.0,
            final(self)@.1 == (if old(self)@.1.len() > 0 {
                old(self)@.1.drop_last()
            } else {
                old(self)@.1
            }),
    {
        let _ = self.explicit_id_stack.pop();
    }
}

/// An explicit ID takes precedence: right after a widget with key `key` is
/// entered, the current ID is the key's ID, whatever the path.
pub proof fn lemma_explicit_id_wins(
    path: Seq<usize>,
    stack: Seq<Option<WidgetId>>,
    key: &str,
    id: WidgetId,
)
    requires
        is_current_id(path, stack.push(Some(key_id(key))), id),
    ensures
        id == key_id(key),
{
}

/// A widget entered without a key gets the path-based ID.
pub proof fn lemma_placeholder_uses_path(
    path: Seq<usize>,
    stack: Seq<Option<WidgetId>>,
    id: WidgetId,
)
    requires
        is_current_id(path, stack.push(None), id),
    ensures
        is_path_id(path, id),
{
}

/// Entering a child and leaving it again restores the path; likewise for
/// explicit IDs.
pub proof fn lemma_push_then_pop_restores(
    path: Seq<usize>,
    stack: Seq<Option<WidgetId>>,
    index: usize,
    explicit: Option<WidgetId>,
)
    ensures
        path.push(index).drop_last() == path,
        stack.push(explicit).drop_last() == stack,
{
    assert(path.push(index).drop_last() =~= path);
    assert(stack.push(explicit).drop_last() =~= stack);
}

} // verus!
