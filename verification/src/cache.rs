//! The cache capability contract and its drivers.
//!
//! Every backend stores, fetches and deletes logical objects — a binary
//! payload and a content-type label — under string identifiers, through the
//! two-derived-key schema of [`crate::keys`].  The local-map backend is
//! implemented and verified here over [`crate::store::KeyValueMap`]; the
//! remote backend's decision logic lives in [`crate::remote`], with the
//! network calls kept outside the library.

use vstd::prelude::*;
use crate::keys::{image_key, mime_key, image_key_spec, mime_key_spec,
    lemma_key_derivation_injective_all};
use crate::store::{Entry, EntryModel, KeyValueMap};
use vstd::pervasive::unreached;

verus! {

/// Why a cache operation was refused.
#[derive(Clone, Copy, Debug, PartialEq, Eq, Structural)]
pub enum CacheError {
    /// The local map is at capacity and the identifier is not yet stored.
    CapacityExhausted,
    /// One derived key of a pair resolved while its companion did not.
    IncompletePair,
}

/// Configuration of the remote-store backend: the URI its connection is
/// opened from.
#[derive(Clone, Debug)]
pub struct RedisCacheOptions {
    pub connection_uri: String,
}

/// Configuration of the local-map backend: the greatest number of logical
/// objects the map will hold.
#[derive(Clone, Copy, Debug, PartialEq, Eq, Structural)]
pub struct MemoryCacheOptions {
    pub max_size: usize,
}

/// The cache capability contract.
///
/// A driver holds one live backend session.  Inserting stores the payload
/// and the content-type under the identifier's two derived keys, payload
/// first; fetching reads both back; deleting removes both.  An insert that
/// the backend cannot accept is refused with an error and leaves the
/// contents unchanged.
pub trait CacheImpl<OptionsT>: Sized {
    /// The logical contents: each stored identifier's payload bytes and
    /// content-type label.
    spec fn cached(&self) -> Map<Seq<char>, (Seq<u8>, Seq<char>)>;

    /// The driver is well formed: its physical state carries its logical
    /// contents.
    spec fn wf(&self) -> bool;

    /// Whether an insert under `id` is accepted in the current state.
    spec fn can_store(&self, id: Seq<char>) -> bool;

    /// What `connect` promises of the driver it hands back, beyond
    /// well-formedness.
    spec fn connect_post(options: OptionsT, made: &Self) -> bool;

    /// Opens a live session over the backend configured by `options`.
    fn connect(options: OptionsT) -> (made: Self)
        ensures
            made.wf(),
            Self::connect_post(options, &made),
    ;

    /// Stores `bytes` and `mime` under `identifier`'s two derived keys,
    /// payload first.  Succeeds exactly when the backend can accept the
    /// identifier; a refused insert changes nothing.
    fn insert(&mut self, identifier: String, bytes: Vec<u8>, mime: String) -> (r: Result<
        (),
        CacheError,
    >)
        requires
            old(self).wf(),
        ensures
            final(self).wf(),
            r is Ok <==> old(self).can_store(identifier@),
            r is Ok ==> final(self).cached() == old(self).cached().insert(
                identifier@,
                (bytes@, mime@),
            ),
            r is Err ==> final(self).cached() == old(self).cached(),
            r is Err ==> r == Result::<(), CacheError>::Err(CacheError::CapacityExhausted),
    ;

    /// Reads both derived keys back: the stored pair when the identifier is
    /// present, `None` when it was never stored or has been deleted.
    fn fetch(&self, identifier: String) -> (r: Option<(Vec<u8>, String)>)
        requires
            self.wf(),
        ensures
            match r {
                Some(found) => self.cached().contains_key(identifier@) && found.0@
                    == self.cached()[identifier@].0 && found.1@ == self.cached()[identifier@].1,
                None => !self.cached().contains_key(identifier@),
            },
    ;

    /// Removes both derived keys.  Deleting an identifier that is absent
    /// succeeds and changes nothing.
    fn delete(&mut self, identifier: String)
        requires
            old(self).wf(),
        ensures
            final(self).wf(),
            final(self).cached() == old(self).cached().remove(identifier@),
    ;
}

/// A cache driver: one backend's live connection bound to the options it
/// was opened with, for the lifetime of the cache session.
pub struct CacheDriver<OptionsT, ConnectionT> {
    pub connection: ConnectionT,
    pub options: OptionsT,
}

/// The local-map backend's connection: the bounded map of physical entries,
/// the number of identifiers stored, and the logical contents alongside.
pub struct LocalMapConnection {
    map: KeyValueMap,
    count: usize,
    model: Ghost<Map<Seq<char>, (Seq<u8>, Seq<char>)>>,
}

/// The driver of the local-map backend.
pub type MemoryCacheDriver = CacheDriver<MemoryCacheOptions, LocalMapConnection>;

impl LocalMapConnection {
    /// The logical contents this connection carries.
    pub closed spec fn contents(&self) -> Map<Seq<char>, (Seq<u8>, Seq<char>)> {
        self.model@
    }

    /// The physical map holds exactly the two derived entries of every
    /// stored identifier, and the count matches the number of identifiers.
    pub closed spec fn inv(&self) -> bool {
        &&& self.model@.dom().finite()
        &&& self.count as nat == self.model@.dom().len()
        &&& forall|id: Seq<char>| #[trigger] self.model@.dom().contains(id) ==> {
            &&& self.map@.contains_key(image_key_spec(id))
            &&& self.map@[image_key_spec(id)] == EntryModel::Payload(self.model@[id].0)
            &&& self.map@.contains_key(mime_key_spec(id))
            &&& self.map@[mime_key_spec(id)] == EntryModel::Label(self.model@[id].1)
        }
        &&& forall|k: Seq<char>| #[trigger] self.map@.contains_key(k) ==> exists|id: Seq<char>|
            #[trigger] self.model@.dom().contains(id) && (k == image_key_spec(id) || k
                == mime_key_spec(id))
    }
}

impl CacheImpl<MemoryCacheOptions> for CacheDriver<MemoryCacheOptions, LocalMapConnection> {
    open spec fn cached(&self) -> Map<Seq<char>, (Seq<u8>, Seq<char>)> {
        self.connection.contents()
    }

    open spec fn wf(&self) -> bool {
        self.connection.inv()
    }

    /// Capacity policy of the local map: an insert of a new identifier is
    /// rejected once `max_size` identifiers are stored; overwriting a stored
    /// identifier is always accepted.
    open spec fn can_store(&self, id: Seq<char>) -> bool {
        self.cached().dom().contains(id) || self.cached().dom().len() < self.options.max_size
    }

    open spec fn connect_post(options: MemoryCacheOptions, made: &Self) -> bool {
        made.cached() == Map::<Seq<char>, (Seq<u8>, Seq<char>)>::empty() && made.options == options
    }

    /// Allocates the bounded map; no outside service is involved, so
    /// connecting cannot fail.
    fn connect(options: MemoryCacheOptions) -> (made: Self) {
        let map = KeyValueMap::new();
        let made = CacheDriver {
            connection: LocalMapConnection { map, count: 0, model: Ghost(Map::empty()) },
            options,
        };
        proof {
            assert(made.connection.model@.dom() =~= Set::<Seq<char>>::empty());
        }
        made
    }

    fn insert(&mut self, identifier: String, bytes: Vec<u8>, mime: String) -> (r: Result<
        (),
        CacheError,
    >) {
        let ghost pre = *self;
        let ghost idv = identifier@;
        let ghost bv = bytes@;
        let ghost mv = mime@;
        proof {
            lemma_key_derivation_injective_all();
        }
        let img_k = image_key(identifier.as_str());
        let existing = self.connection.map.get(&img_k);
        let is_new = existing.is_none();
        proof {
            if is_new {
                // absent image key means the identifier is not stored
                if pre.connection.model@.dom().contains(idv) {
                    assert(false);
                }
            } else {
                // a present image key can only belong to this identifier
                let id2 = choose|id2: Seq<char>|
                    #[trigger] pre.connection.model@.dom().contains(id2) && (image_key_spec(idv)
                        == image_key_spec(id2) || image_key_spec(idv) == mime_key_spec(id2));
                assert(id2 == idv);
            }
        }
        if is_new && self.connection.count >= self.options.max_size {
            return Err(CacheError::CapacityExhausted);
        }
        let mime_k = mime_key(identifier.as_str());
        self.connection.map.set(img_k, Entry::Payload(bytes));
        self.connection.map.set(mime_k, Entry::Label(mime));
        if is_new {
            self.connection.count = self.connection.count + 1;
        }
        proof {
            self.connection.model@ = pre.connection.model@.insert(idv, (bv, mv));
            let m1 = pre.connection.model@;
            let m2 = self.connection.model@;
            let v1 = pre.connection.map@;
            let v2 = self.connection.map@;
            let ik = image_key_spec(idv);
            let mk = mime_key_spec(idv);
            if is_new {
                vstd::set::axiom_set_insert_len(m1.dom(), idv);
            } else {
                assert(m2.dom() =~= m1.dom());
            }
            assert forall|id2: Seq<char>| #[trigger] m2.dom().contains(id2) implies {
                &&& v2.contains_key(image_key_spec(id2))
                &&& v2[image_key_spec(id2)] == EntryModel::Payload(m2[id2].0)
                &&& v2.contains_key(mime_key_spec(id2))
                &&& v2[mime_key_spec(id2)] == EntryModel::Label(m2[id2].1)
            } by {
                if id2 == idv {
                    assert(image_key_spec(id2) != mk);
                } else {
                    assert(m1.dom().contains(id2));
                    assert(image_key_spec(id2) != ik && image_key_spec(id2) != mk);
                    assert(mime_key_spec(id2) != ik && mime_key_spec(id2) != mk);
                }
            }
            assert forall|k: Seq<char>| #[trigger] v2.contains_key(k) implies exists|id2: Seq<char>|
                #[trigger] m2.dom().contains(id2) && (k == image_key_spec(id2) || k
                    == mime_key_spec(id2)) by {
                if k == ik || k == mk {
                    assert(m2.dom().contains(idv) && (ik == image_key_spec(idv) || ik
                        == mime_key_spec(idv)));
                } else {
                    assert(v1.contains_key(k));
                    let id2 = choose|id2: Seq<char>|
                        #[trigger] m1.dom().contains(id2) && (k == image_key_spec(id2) || k
                            == mime_key_spec(id2));
                    assert(m2.dom().contains(id2) && (k == image_key_spec(id2) || k
                        == mime_key_spec(id2)));
                }
            }
        }
        Ok(())
    }

    fn fetch(&self, identifier: String) -> (r: Option<(Vec<u8>, String)>) {
        let ghost idv = identifier@;
        proof {
            lemma_key_derivation_injective_all();
        }
        let img_k = image_key(identifier.as_str());
        let found = self.connection.map.get(&img_k);
        match found {
            None => {
                proof {
                    if self.connection.model@.dom().contains(idv) {
                        assert(false);
                    }
                }
                None
            },
            Some(entry) => {
                proof {
                    let id2 = choose|id2: Seq<char>|
                        #[trigger] self.connection.model@.dom().contains(id2) && (image_key_spec(
                            idv,
                        ) == image_key_spec(id2) || image_key_spec(idv) == mime_key_spec(id2));
                    assert(id2 == idv);
                    assert(self.connection.model@.dom().contains(idv));
                }
                let mime_k = mime_key(identifier.as_str());
                let found_mime = self.connection.map.get(&mime_k);
                // the invariant pairs every payload key with its label key,
                // so an asymmetric or ill-typed pair cannot be observed here
                match (entry.into_payload(), found_mime) {
                    (Some(bytes), Some(label_entry)) => {
                        match label_entry.into_label() {
                            Some(label) => Some((bytes, label)),
                            None => unreached(),
                        }
                    },
                    _ => unreached(),
                }
            },
        }
    }

    fn delete(&mut self, identifier: String) {
        let ghost pre = *self;
        let ghost idv = identifier@;
        proof {
            lemma_key_derivation_injective_all();
        }
        let img_k = image_key(identifier.as_str());
        let mime_k = mime_key(identifier.as_str());
        let removed = self.connection.map.del(&img_k);
        proof {
            if removed is Some {
                let id2 = choose|id2: Seq<char>|
                    #[trigger] pre.connection.model@.dom().contains(id2) && (image_key_spec(idv)
                        == image_key_spec(id2) || image_key_spec(idv) == mime_key_spec(id2));
                assert(id2 == idv);
                pre.connection.model@.lemma_remove_key_len(idv);
            } else {
                if pre.connection.model@.dom().contains(idv) {
                    assert(false);
                }
            }
        }
        self.connection.map.del(&mime_k);
        if removed.is_some() {
            self.connection.count = self.connection.count - 1;
        }
        proof {
            self.connection.model@ = pre.connection.model@.remove(idv);
            let m1 = pre.connection.model@;
            let m2 = self.connection.model@;
            let v1 = pre.connection.map@;
            let v2 = self.connection.map@;
            let ik = image_key_spec(idv);
            let mk = mime_key_spec(idv);
            if removed is None {
                assert(m2.dom() =~= m1.dom());
            }
            assert forall|id2: Seq<char>| #[trigger] m2.dom().contains(id2) implies {
                &&& v2.contains_key(image_key_spec(id2))
                &&& v2[image_key_spec(id2)] == EntryModel::Payload(m2[id2].0)
                &&& v2.contains_key(mime_key_spec(id2))
                &&& v2[mime_key_spec(id2)] == EntryModel::Label(m2[id2].1)
            } by {
                assert(m1.dom().contains(id2));
                assert(id2 != idv);
                assert(image_key_spec(id2) != ik && image_key_spec(id2) != mk);
                assert(mime_key_spec(id2) != ik && mime_key_spec(id2) != mk);
            }
            assert forall|k: Seq<char>| #[trigger] v2.contains_key(k) implies exists|id2: Seq<char>|
                #[trigger] m2.dom().contains(id2) && (k == image_key_spec(id2) || k
                    == mime_key_spec(id2)) by {
                assert(v1.contains_key(k));
                assert(k != ik && k != mk);
                let id2 = choose|id2: Seq<char>|
                    #[trigger] m1.dom().contains(id2) && (k == image_key_spec(id2) || k
                        == mime_key_spec(id2));
                assert(id2 != idv);
                assert(m2.dom().contains(id2) && (k == image_key_spec(id2) || k == mime_key_spec(
                    id2,
                )));
            }
        }
    }
}

/// Storing then fetching: an accepted `insert` of `(bytes, mime)` under `id`
/// leaves exactly that pair in the contents under `id`, so by the contract
/// of `fetch` a following `fetch(id)` returns it, byte for byte and string
/// for string.
pub proof fn lemma_insert_then_fetch(
    cached: Map<Seq<char>, (Seq<u8>, Seq<char>)>,
    id: Seq<char>,
    bytes: Seq<u8>,
    mime: Seq<char>,
)
    ensures
        cached.insert(id, (bytes, mime)).contains_key(id),
        cached.insert(id, (bytes, mime))[id] == (bytes, mime),
{
}

/// An identifier that was never inserted stays absent: the contents start
/// empty at `connect`, and neither an insert under a different identifier
/// nor any delete makes `id` present — so by the contract of `fetch`, a
/// `fetch(id)` keeps returning `None`, never stale or default bytes.
pub proof fn lemma_never_inserted_stays_absent(
    cached: Map<Seq<char>, (Seq<u8>, Seq<char>)>,
    id: Seq<char>,
    other: Seq<char>,
    object: (Seq<u8>, Seq<char>),
)
    requires
        !cached.contains_key(id),
        other != id,
    ensures
        !Map::<Seq<char>, (Seq<u8>, Seq<char>)>::empty().contains_key(id),
        !cached.insert(other, object).contains_key(id),
        !cached.remove(other).contains_key(id),
        !cached.remove(id).contains_key(id),
{
}

/// Deleting then fetching: after `delete(id)` the contents lack `id`, so by
/// the contract of `fetch` a following `fetch(id)` does not return the
/// previously stored value — it returns `None`.
pub proof fn lemma_delete_then_fetch(cached: Map<Seq<char>, (Seq<u8>, Seq<char>)>, id: Seq<char>)
    ensures
        !cached.remove(id).contains_key(id),
{
}

/// The local map's capacity policy, reject-new: once `max_size` identifiers
/// are stored, an insert of a new identifier is refused, while overwriting
/// a stored identifier — and any insert below capacity — is accepted.
pub proof fn lemma_capacity_policy(driver: &MemoryCacheDriver, id: Seq<char>)
    ensures
        driver.cached().dom().len() >= driver.options.max_size && !driver.cached().contains_key(id)
            ==> !driver.can_store(id),
        driver.cached().contains_key(id) ==> driver.can_store(id),
        driver.cached().dom().len() < driver.options.max_size ==> driver.can_store(id),
{
}

} // verus!
