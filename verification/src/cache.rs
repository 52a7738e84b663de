//! Payloads of entries that are not live at the moment.
use vstd::prelude::*;
use crate::components::DirworldEntity;
use crate::payload::{DirworldEntityPayload, PayloadView};
use crate::text_map::TextMap;

verus! {

/// Payloads kept for entries whose nodes have left the graph, by path. An
/// entry is taken out again the next time its path is made live.
#[derive(Debug)]
pub struct DirworldCache(pub TextMap<DirworldEntityPayload>);

impl View for DirworldCache {
    type V = Map<Seq<char>, DirworldEntityPayload>;

    open spec fn view(&self) -> Map<Seq<char>, DirworldEntityPayload> {
        self.0@
    }
}

impl DirworldCache {
    /// The invariant: no path occurs twice, and every payload is well
    /// formed.
    pub open spec fn wf(&self) -> bool {
        &&& self.0.wf()
        &&& forall|i: int| 0 <= i < self.0.values@.len() ==> (#[trigger] self.0.values@[i]).wf()
    }

    /// What the cache holds, payload by payload: for each path the view
    /// of the payload kept for it.
    pub open spec fn spec_views(&self) -> Map<Seq<char>, PayloadView> {
        Map::new(|path: Seq<char>| self@.contains_key(path), |path: Seq<char>| self@[path]@)
    }

    /// Every payload that a well-formed cache holds is well formed.
    pub proof fn lemma_payloads_wf(&self)
        requires
            self.wf(),
        ensures
            forall|path: Seq<char>| self@.contains_key(path) ==> (#[trigger] self@[path]).wf(),
    {
        assert forall|path: Seq<char>| self@.contains_key(path) implies (#[trigger] self@[path]).wf() by {
            let at = crate::text_map::index_of(self.0.keys@, path);
            assert(self.0.values@[at].wf());
        }
    }

    /// An empty cache.
    pub fn new() -> (cache: DirworldCache)
        ensures
            cache.wf(),
            cache@ == Map::<Seq<char>, DirworldEntityPayload>::empty(),
    {
        DirworldCache(TextMap::new())
    }

    /// Number of payloads held.
    pub fn len(&self) -> (count: usize)
        requires
            self.wf(),
        ensures
            count == self.0.spec_len(),
    {
        self.0.len()
    }

    /// Tells whether a payload is held for `path`.
    pub fn contains(&self, path: &str) -> (held: bool)
        requires
            self.wf(),
        ensures
            held == self@.contains_key(path@),
    {
        self.0.contains_key(path)
    }

    /// Keeps a copy of the entity's payload under the entity's path, in
    /// place of what was kept there. An entity without payload changes
    /// nothing.
    pub fn cache_entity(&mut self, dirworld_entity: &DirworldEntity)
        requires
            old(self).wf(),
            dirworld_entity.wf(),
        ensures
            final(self).wf(),
            match dirworld_entity.payload {
                Some(payload) => final(self)@.dom() == old(self)@.dom().insert(
                    dirworld_entity.path@,
                ) && final(self)@[dirworld_entity.path@]@ == payload@ && forall|path: Seq<char>|
                    path != dirworld_entity.path@ && old(self)@.contains_key(path)
                        ==> #[trigger] final(self)@[path] == old(self)@[path],
                None => *final(self) == *old(self),
            },
            final(self).spec_views() == (match dirworld_entity.payload {
                Some(payload) => old(self).spec_views().insert(dirworld_entity.path@, payload@),
                None => old(self).spec_views(),
            }),
    {
        if let Some(payload) = &dirworld_entity.payload {
            let ghost before = self.0;
            let copy = payload.clone();
            let _ = self.0.insert(dirworld_entity.path.clone(), copy);
            proof {
                assert(self.0@.dom() =~= before@.dom().insert(dirworld_entity.path@));
                assert forall|i: int| 0 <= i < self.0.values@.len() implies (
                #[trigger] self.0.values@[i]).wf() by {
                    if before@.contains_key(dirworld_entity.path@) {
                        let at = crate::text_map::index_of(before.keys@, dirworld_entity.path@);
                        if i != at {
                            assert(self.0.values@[i] == before.values@[i]);
                        }
                    } else {
                        if i < before.values@.len() {
                            assert(self.0.values@[i] == before.values@[i]);
                        }
                    }
                }
                assert(self.spec_views() =~= old(self).spec_views().insert(
                    dirworld_entity.path@,
                    payload@,
                ));
            }
        }
    }

    /// Takes the payload kept for `path` out of the cache.
    pub fn get_entity_cache(&mut self, path: &str) -> (payload: Option<DirworldEntityPayload>)
        requires
            old(self).wf(),
        ensures
            final(self).wf(),
            final(self)@ == old(self)@.remove(path@),
            payload == (if old(self)@.contains_key(path@) {
                Some(old(self)@[path@])
            } else {
                None
            }),
            payload.is_some() ==> payload.unwrap().wf(),
            !old(self)@.contains_key(path@) ==> *final(self) == *old(self),
    {
        let ghost before = self.0;
        proof {
            self.lemma_payloads_wf();
        }
        let payload = self.0.remove(path);
        proof {
            if before@.contains_key(path@) {
                let gone = crate::text_map::index_of(before.keys@, path@);
                assert forall|i: int| 0 <= i < self.0.values@.len() implies (
                #[trigger] self.0.values@[i]).wf() by {
                    let from = if i < gone { i } else { i + 1 };
                    assert(self.0.values@[i] == before.values@[from]);
                }
            }
        }
        payload
    }
}

} // verus!
