//! Texture identifiers handed out by the renderer: the plain white texture
//! has ID 0, and every loaded texture gets the next unused ID.
use std::collections::HashMap;
use vstd::prelude::*;
use crate::error::GuiError;

verus! {

broadcast use vstd::std_specs::hash::group_hash_axioms;

/// ID of the white texture that untextured shapes are drawn with.
pub const WHITE_TEXTURE_ID: usize = 0;

/// Textures (of the caller's type `T`) by ID.
pub struct TextureRegistry<T> {
    textures: HashMap<usize, T>,
    next_id: usize,
}

impl<T> View for TextureRegistry<T> {
    /// The textures by ID, and the ID the next texture gets.
    type V = (Map<usize, T>, usize);

    closed spec fn view(&self) -> (Map<usize, T>, usize) {
        (self.textures@, self.next_id)
    }
}

impl<T> TextureRegistry<T> {
    /// The IDs in use are exactly those below the next ID.
    pub open spec fn wf(&self) -> bool {
        forall|id: usize| #[trigger] self@.0.contains_key(id) <==> id < self@.1
    }

    /// A registry holding only the white texture.
    pub fn new(white: T) -> (r: Self)
        ensures
            r.wf(),
            r@.0 == Map::<usize, T>::empty().insert(WHITE_TEXTURE_ID, white),
            r@.1 == 1,
            is_registry_after(r@, white, Seq::<T>::empty()),
    {
        let mut textures: HashMap<usize, T> = HashMap::new();
        textures.insert(WHITE_TEXTURE_ID, white);
        let r = TextureRegistry { textures, next_id: 1 };
        assert forall|id: usize| #[trigger] r@.0.contains_key(id) <==> id < r@.1 by {}
        r
    }

    /// The ID the next registered texture gets.
    pub fn next_id(&self) -> (n: usize)
        ensures
            n == self@.1,
    {
        self.next_id
    }

    /// Add a texture under a fresh ID and return the ID.
    pub fn register(&mut self, texture: T) -> (id: usize)
        requires
            old(self).wf(),
            old(self)@.1 < usize::MAX,
        ensures
            final(self).wf(),
            id == old(self)@.1,
            !old(self)@.0.contains_key(id),
            final(self)@.0 == old(self)@.0.insert(id, texture),
            final(self)@.1 == old(self)@.1 + 1,
            forall|white: T, loaded: Seq<T>|
                is_registry_after(old(self)@, white, loaded) ==> #[trigger] is_registry_after(
                    final(self)@,
                    white,
                    loaded.push(texture),
                ),
    {
        let id = self.next_id;
        self.textures.insert(id, texture);
        self.next_id = id + 1;
        assert forall|k: usize| #[trigger] self@.0.contains_key(k) <==> k < self@.1 by {
            if k == id {
            } else {
                assert(old(self)@.0.contains_key(k) <==> k < id);
            }
        }
        assert forall|white: T, loaded: Seq<T>|
            is_registry_after(old(self)@, white, loaded) implies #[trigger] is_registry_after(
                self@,
                white,
                loaded.push(texture),
            ) by {
            assert(loaded.push(texture).drop_last() =~= loaded);
        }
        id
    }

    /// The outcome of loading a texture: a texture that was decoded gets the
    /// next ID, which is returned; a load that failed with `message` is
    /// reported as `TextureLoadFailed` and uses no ID.
    pub fn register_loaded(&mut self, decoded: Result<T, String>) -> (r: Result<usize, GuiError>)
        requires
            old(self).wf(),
            decoded is Ok ==> old(self)@.1 < usize::MAX,
        ensures
            final(self).wf(),
            match decoded {
                Ok(texture) => {
                    &&& r == Ok::<usize, GuiError>(old(self)@.1)
                    &&& final(self)@.0 == old(self)@.0.insert(old(self)@.1, texture)
                    &&& final(self)@.1 == old(self)@.1 + 1
                    &&& forall|white: T, loaded: Seq<T>|
                        is_registry_after(old(self)@, white, loaded) ==> #[trigger] is_registry_after(
                            final(self)@,
                            white,
                            loaded.push(texture),
                        )
                },
                Err(message) => {
                    &&& r == Err::<usize, GuiError>(GuiError::TextureLoadFailed(message))
                    &&& final(self)@ == old(self)@
                },
            },
    {
        match decoded {
            Ok(texture) => Ok(self.register(texture)),
            Err(message) => Err(GuiError::TextureLoadFailed(message)),
        }
    }

    /// The texture with ID `id`, if there is one.
    pub fn get(&self, id: usize) -> (t: Option<&T>)
        ensures
            match t {
                Some(v) => self@.0.contains_key(id) && *v == self@.0[id],
                None => !self@.0.contains_key(id),
            },
    {
        self.textures.get(&id)
    }
}

/// IDs are never reused: two registrations in a row give different IDs, and
/// the first texture stays where it was put.
pub proof fn lemma_register_fresh<T>(r0: (Map<usize, T>, usize), a: T, b: T)
    requires
        forall|id: usize| #[trigger] r0.0.contains_key(id) <==> id < r0.1,
        r0.1 + 1 < usize::MAX,
    ensures
        ({
            let id_a = r0.1;
            let m1 = r0.0.insert(id_a, a);
            let id_b = (r0.1 + 1) as usize;
            let m2 = m1.insert(id_b, b);
            &&& id_a != id_b
            &&& !m1.contains_key(id_b)
            &&& m2[id_a] == a
            &&& m2[id_b] == b
            &&& forall|k: usize| r0.0.contains_key(k) ==> m2[k] == r0.0[k]
        }),
{
    let id_a = r0.1;
    let m1 = r0.0.insert(id_a, a);
    let id_b = (r0.1 + 1) as usize;
    assert(!r0.0.contains_key(id_b));
    assert(!m1.contains_key(id_b));
}

/// The registry after the white texture and then the textures of `loaded`,
/// in order, were registered: the textures by ID, and the next ID.
pub open spec fn registry_after<T>(white: T, loaded: Seq<T>) -> (Map<usize, T>, nat)
    decreases loaded.len(),
{
    if loaded.len() == 0 {
        (Map::<usize, T>::empty().insert(WHITE_TEXTURE_ID, white), 1)
    } else {
        let (m, n) = registry_after(white, loaded.drop_last());
        (m.insert(n as usize, loaded.last()), n + 1)
    }
}

/// `r` is the registry after `white` and then `loaded` were registered.
pub open spec fn is_registry_after<T>(r: (Map<usize, T>, usize), white: T, loaded: Seq<T>) -> bool {
    &&& r.0 == registry_after(white, loaded).0
    &&& r.1 == registry_after(white, loaded).1
}

/// Loaded textures are numbered in order: the `k`-th texture registered
/// after the white one gets ID `k` (one more than the number of earlier
/// registrations), the IDs in use are exactly those below the next ID, and
/// each ID keeps the texture it was given.
pub proof fn lemma_load_ids<T>(white: T, loaded: Seq<T>)
    requires
        loaded.len() < usize::MAX,
    ensures
        registry_after(white, loaded).1 == loaded.len() + 1,
        forall|id: usize|
            #[trigger] registry_after(white, loaded).0.contains_key(id) <==> id <= loaded.len(),
        registry_after(white, loaded).0[WHITE_TEXTURE_ID] == white,
        forall|k: int|
            0 <= k < loaded.len() ==> #[trigger] registry_after(white, loaded).0[(k + 1) as usize]
                == loaded[k],
        forall|k: int|
            0 <= k < loaded.len() ==> #[trigger] registry_after(white, loaded.take(k)).1 == k + 1,
    decreases loaded.len(),
{
    if loaded.len() > 0 {
        let prev = loaded.drop_last();
        lemma_load_ids(white, prev);
        assert forall|k: int| 0 <= k < loaded.len() implies #[trigger] registry_after(
            white,
            loaded.take(k),
        ).1 == k + 1 by {
            assert(loaded.take(k) =~= prev.take(k)) by {
                if k < prev.len() {
                }
            }
            if k < prev.len() {
            } else {
                assert(prev.take(k) =~= prev);
            }
        }
        assert forall|k: int| 0 <= k < loaded.len() implies #[trigger] registry_after(
            white,
            loaded,
        ).0[(k + 1) as usize] == loaded[k] by {
            if k < prev.len() {
                assert(prev[k] == loaded[k]);
            }
        }
    }
}

} // verus!
