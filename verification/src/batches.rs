//! Draw-call batching: runs of vertices that share a texture and a scissor
//! are merged into one batch (up to a size limit), so the renderer issues
//! few draw calls; the vertices drawn are still exactly those queued, in
//! order.
use vstd::prelude::*;

verus! {

/// Largest number of vertices a batch grows to by merging.
pub const MAX_BATCH_VERTICES: usize = 65536;

/// Vertices drawn with one texture and one scissor (`S`, the caller's type).
pub struct Batch<S, V> {
    pub texture_id: usize,
    pub scissor: S,
    pub vertices: Vec<V>,
}

/// All vertices of `s`, batch after batch.
pub open spec fn flatten<S, V>(s: Seq<Batch<S, V>>) -> Seq<V>
    decreases s.len(),
{
    if s.len() == 0 {
        Seq::empty()
    } else {
        flatten(s.drop_last()) + s.last().vertices@
    }
}

/// Whether `count` new vertices for `texture_id` join the last batch of `s`:
/// same texture, same scissor (`same_scissor`, the caller's comparison), and
/// the merged batch stays within the limit.
pub open spec fn merges<S, V>(
    s: Seq<Batch<S, V>>,
    texture_id: usize,
    same_scissor: bool,
    count: nat,
) -> bool {
    &&& s.len() > 0
    &&& s.last().texture_id == texture_id
    &&& same_scissor
    &&& s.last().vertices@.len() + count <= MAX_BATCH_VERTICES
}

/// Merging never draws vertices with another texture or scissor: vertices
/// join only the last batch, and only when it has their texture and
/// scissor and stays within the size limit; when it does, they join it.
pub proof fn lemma_merge_only_into_matching_last<S, V>(
    s: Seq<Batch<S, V>>,
    texture_id: usize,
    same_scissor: bool,
    count: nat,
)
    ensures
        merges(s, texture_id, same_scissor, count) ==> {
            &&& s.len() > 0
            &&& s[s.len() - 1].texture_id == texture_id
            &&& same_scissor
            &&& s[s.len() - 1].vertices@.len() + count <= MAX_BATCH_VERTICES
        },
        s.len() > 0 && s[s.len() - 1].texture_id == texture_id && same_scissor && s[s.len()
            - 1].vertices@.len() + count <= MAX_BATCH_VERTICES ==> merges(
            s,
            texture_id,
            same_scissor,
            count,
        ),
        s.len() > 0 && s[s.len() - 1].texture_id != texture_id ==> !merges(
            s,
            texture_id,
            same_scissor,
            count,
        ),
{
}

/// The batches queued for drawing, in order.
pub struct BatchList<S, V> {
    batches: Vec<Batch<S, V>>,
}

impl<S, V> View for BatchList<S, V> {
    type V = Seq<Batch<S, V>>;

    closed spec fn view(&self) -> Seq<Batch<S, V>> {
        self.batches@
    }
}

/// Appending a batch appends its vertices.
proof fn lemma_flatten_push<S, V>(s: Seq<Batch<S, V>>, b: Batch<S, V>)
    ensures
        flatten(s.push(b)) == flatten(s) + b.vertices@,
{
    assert(s.push(b).drop_last() =~= s);
}


/// Taking one more batch adds its vertices.
proof fn lemma_flatten_take_step<S, V>(s: Seq<Batch<S, V>>, k: int)
    requires
        0 <= k < s.len(),
    ensures
        flatten(s.take(k + 1)) == flatten(s.take(k)) + s[k].vertices@,
{
    assert(s.take(k + 1).drop_last() =~= s.take(k));
}

/// Fewer batches hold no more vertices.
proof fn lemma_flatten_take_monotone<S, V>(s: Seq<Batch<S, V>>, i: int, k: int)
    requires
        0 <= i <= k <= s.len(),
    ensures
        flatten(s.take(i)).len() <= flatten(s.take(k)).len(),
    decreases k - i,
{
    if i < k {
        lemma_flatten_take_step(s, i);
        lemma_flatten_take_monotone(s, i + 1, k);
    }
}

impl<S, V> BatchList<S, V> {
    /// No batches.
    pub fn new() -> (l: Self)
        ensures
            l@ == Seq::<Batch<S, V>>::empty(),
    {
        BatchList { batches: Vec::new() }
    }

    /// Number of batches.
    pub fn len(&self) -> (n: usize)
        ensures
            n == self@.len(),
    {
        self.batches.len()
    }

    /// The batches, in drawing order.
    pub fn as_slice(&self) -> (s: &[Batch<S, V>])
        ensures
            s@ == self@,
    {
        self.batches.as_slice()
    }

    /// The last batch, if any.
    pub fn last(&self) -> (b: Option<&Batch<S, V>>)
        ensures
            self@.len() == 0 ==> b is None,
            self@.len() > 0 ==> b == Some(&self@.last()),
    {
        if self.batches.len() == 0 {
            None
        } else {
            Some(&self.batches[self.batches.len() - 1])
        }
    }

    /// How many vertices the first `k` batches hold (`None` if that number
    /// does not fit in a `usize`): where batch `k` starts in the vertex
    /// buffer that holds all batches one after another.
    pub fn vertices_before(&self, k: usize) -> (n: Option<usize>)
        requires
            k <= self@.len(),
        ensures
            match n {
                Some(c) => c == flatten(self@.take(k as int)).len(),
                None => flatten(self@.take(k as int)).len() > usize::MAX,
            },
    {
        let mut total: usize = 0;
        let mut i: usize = 0;
        while i < k
            invariant
                i <= k <= self@.len(),
                total == flatten(self@.take(i as int)).len(),
            decreases k - i,
        {
            proof {
                lemma_flatten_take_step(self@, i as int);
            }
            let count = self.batches[i].vertices.len();
            match total.checked_add(count) {
                Some(t) => total = t,
                None => {
                    proof {
                        lemma_flatten_take_monotone(self@, i + 1, k as int);
                    }
                    return None;
                },
            }
            i += 1;
        }
        Some(total)
    }

    /// Drop all batches.
    pub fn clear(&mut self)
        ensures
            final(self)@ == Seq::<Batch<S, V>>::empty(),
    {
        self.batches.clear();
    }

    /// Hand out all batches (so their buffers can be reused), leaving none.
    pub fn take_all(&mut self) -> (taken: Vec<Batch<S, V>>)
        ensures
            taken@ == old(self)@,
            final(self)@ == Seq::<Batch<S, V>>::empty(),
    {
        let mut taken: Vec<Batch<S, V>> = Vec::new();
        std::mem::swap(&mut taken, &mut self.batches);
        taken
    }

    /// Queue `vertices` for drawing with `texture_id` under `scissor`;
    /// `same_scissor` tells whether `scissor` equals the last batch's. They
    /// join the last batch when `merges` holds, else start a new batch.
    pub fn push_vertices(&mut self, texture_id: usize, same_scissor: bool, scissor: S, vertices: Vec<V>)
        ensures
            flatten(final(self)@) == flatten(old(self)@) + vertices@,
            final(self)@.len() > 0,
            final(self)@.last().texture_id == texture_id,
            final(self)@.last().vertices@.len() >= vertices@.len(),
            final(self)@.last().vertices@.skip(
                final(self)@.last().vertices@.len() - vertices@.len(),
            ) == vertices@,
            forall|k: int| 0 <= k < old(self)@.len() - 1 ==> #[trigger] final(self)@[k] == old(self)@[k],
            merges(old(self)@, texture_id, same_scissor, vertices@.len()) ==> {
                &&& final(self)@.len() == old(self)@.len()
                &&& final(self)@.drop_last() == old(self)@.drop_last()
                &&& final(self)@.last().texture_id == old(self)@.last().texture_id
                &&& final(self)@.last().scissor == old(self)@.last().scissor
                &&& final(self)@.last().vertices@ == old(self)@.last().vertices@ + vertices@
            },
            !merges(old(self)@, texture_id, same_scissor, vertices@.len()) ==> {
                &&& final(self)@.len() == old(self)@.len() + 1
                &&& final(self)@.drop_last() == old(self)@
                &&& final(self)@.last().texture_id == texture_id
                &&& final(self)@.last().scissor == scissor
                &&& final(self)@.last().vertices@ == vertices@
            },
    {
        let n = self.batches.len();
        let mut merge = false;
        if n > 0 && same_scissor {
            let last = &self.batches[n - 1];
            merge = last.texture_id == texture_id && vertices.len() <= MAX_BATCH_VERTICES
                && last.vertices.len() <= MAX_BATCH_VERTICES - vertices.len();
        }
        let ghost before = self.batches@;
        if merge {
            let popped = self.batches.pop();
            match popped {
                Some(mut last) => {
                    let ghost prefix = self.batches@;
                    let ghost last_before = last;
                    let mut added = vertices;
                    last.vertices.append(&mut added);
                    proof {
                        assert(prefix =~= before.drop_last());
                        assert(last.vertices@ =~= last_before.vertices@ + vertices@);
                    }
                    self.batches.push(last);
                    proof {
                        assert(self.batches@.drop_last() =~= prefix);
                        lemma_flatten_push(prefix, last);
                        lemma_flatten_push(prefix, last_before);
                        assert(prefix.push(last_before) =~= before);
                        assert(flatten(prefix) + last.vertices@ =~= flatten(prefix)
                            + last_before.vertices@ + vertices@);
                    }
                },
                None => {},
            }
        } else {
            let b = Batch { texture_id, scissor, vertices };
            self.batches.push(b);
            proof {
                lemma_flatten_push(before, b);
                assert(self.batches@.drop_last() =~= before);
            }
        }
    }
}

} // verus!
