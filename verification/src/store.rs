//! Physical storage entries, and a verified key-value store over the
//! dashmap crate's process-local concurrent map.
//!
//! The store exposes the same plain SET / GET / DEL semantics as the remote
//! key-value service, so the one entry shape serves both backends: the local
//! backend keeps its entries here, and a test can drive the remote adapter's
//! decision logic against an instance of this store in place of a live
//! service.

use vstd::prelude::*;

verus! {

/// One physical store entry: a binary payload (kept under an `-image` key)
/// or a content-type label (kept under a `-mime` key).
#[derive(Clone)]
pub enum Entry {
    Payload(Vec<u8>),
    Label(String),
}

/// The mathematical value of an [`Entry`].
pub enum EntryModel {
    Payload(Seq<u8>),
    Label(Seq<char>),
}

impl View for Entry {
    type V = EntryModel;

    open spec fn view(&self) -> EntryModel {
        match self {
            Entry::Payload(b) => EntryModel::Payload(b@),
            Entry::Label(s) => EntryModel::Label(s@),
        }
    }
}

impl Entry {
    /// The payload bytes, if this entry is a payload.
    pub fn into_payload(self) -> (r: Option<Vec<u8>>)
        ensures
            r matches Some(v) <==> self@ is Payload,
            r matches Some(v) ==> self@ == EntryModel::Payload(v@),
    {
        match self {
            Entry::Payload(b) => Some(b),
            Entry::Label(_) => None,
        }
    }

    /// The content-type label, if this entry is a label.
    pub fn into_label(self) -> (r: Option<String>)
        ensures
            r matches Some(s) <==> self@ is Label,
            r matches Some(s) ==> self@ == EntryModel::Label(s@),
    {
        match self {
            Entry::Payload(_) => None,
            Entry::Label(s) => Some(s),
        }
    }
}

/// The dashmap crate's concurrent map, declared so that values of it can
/// flow through verified code.
#[verifier::external_type_specification]
#[verifier::external_body]
#[verifier::reject_recursive_types(K)]
#[verifier::reject_recursive_types(V)]
#[verifier::reject_recursive_types(S)]
pub struct ExDashMap<K, V, S>(dashmap::DashMap<K, V, S>);

/// What a dashmap of entries holds: a map from key to entry value.
pub uninterp spec fn dash_contents(m: dashmap::DashMap<String, Entry>) -> Map<Seq<char>, EntryModel>;

/// Relies on dashmap::DashMap::new: creates an empty map.
#[verifier::external_body]
fn dash_new() -> (created: dashmap::DashMap<String, Entry>)
    ensures
        forall|k: Seq<char>| !dash_contents(created).contains_key(k),
{
    dashmap::DashMap::new()
}

/// Relies on dashmap::DashMap::insert: stores `value` under `key` and
/// returns the value previously stored there, if any.
#[verifier::external_body]
fn dash_insert(m: &mut dashmap::DashMap<String, Entry>, key: String, value: Entry) -> (prev: Option<
    Entry,
>)
    ensures
        dash_contents(*final(m)) == dash_contents(*old(m)).insert(key@, value@),
        prev matches Some(e) ==> dash_contents(*old(m)).contains_key(key@) && e@ == dash_contents(
            *old(m),
        )[key@],
        prev is None ==> !dash_contents(*old(m)).contains_key(key@),
{
    m.insert(key, value)
}

/// Relies on dashmap::DashMap::get: looks `key` up; the wrapper hands back a
/// clone of the stored value rather than dashmap's guarded reference.
#[verifier::external_body]
fn dash_get(m: &dashmap::DashMap<String, Entry>, key: &String) -> (r: Option<Entry>)
    ensures
        r matches Some(e) ==> dash_contents(*m).contains_key(key@) && e@ == dash_contents(
            *m,
        )[key@],
        r is None ==> !dash_contents(*m).contains_key(key@),
{
    m.get(key).map(|guard| guard.value().clone())
}

/// Relies on dashmap::DashMap::remove: removes the entry under `key`,
/// returning the removed value if one was there.
#[verifier::external_body]
fn dash_remove(m: &mut dashmap::DashMap<String, Entry>, key: &String) -> (r: Option<Entry>)
    ensures
        dash_contents(*final(m)) == dash_contents(*old(m)).remove(key@),
        r matches Some(e) ==> dash_contents(*old(m)).contains_key(key@) && e@ == dash_contents(
            *old(m),
        )[key@],
        r is None ==> !dash_contents(*old(m)).contains_key(key@),
{
    m.remove(key).map(|pair| pair.1)
}

/// A key-value store of [`Entry`] values with SET / GET / DEL operations,
/// backed by the dashmap crate's concurrent map.
pub struct KeyValueMap {
    inner: dashmap::DashMap<String, Entry>,
}

impl View for KeyValueMap {
    type V = Map<Seq<char>, EntryModel>;

    closed spec fn view(&self) -> Map<Seq<char>, EntryModel> {
        dash_contents(self.inner)
    }
}

impl KeyValueMap {
    /// Allocates an empty store.
    pub fn new() -> (kv: KeyValueMap)
        ensures
            kv@ == Map::<Seq<char>, EntryModel>::empty(),
    {
        let inner = dash_new();
        proof {
            assert(dash_contents(inner) =~= Map::<Seq<char>, EntryModel>::empty());
        }
        KeyValueMap { inner }
    }

    /// SET: stores `value` under `key`, overwriting any previous entry, and
    /// returns the overwritten entry if there was one.
    pub fn set(&mut self, key: String, value: Entry) -> (prev: Option<Entry>)
        ensures
            final(self)@ == old(self)@.insert(key@, value@),
            prev matches Some(e) ==> old(self)@.contains_key(key@) && e@ == old(self)@[key@],
            prev is None ==> !old(self)@.contains_key(key@),
    {
        dash_insert(&mut self.inner, key, value)
    }

    /// GET: returns the entry stored under `key`, or `None` when the key is
    /// absent.
    pub fn get(&self, key: &String) -> (r: Option<Entry>)
        ensures
            r matches Some(e) ==> self@.contains_key(key@) && e@ == self@[key@],
            r is None ==> !self@.contains_key(key@),
    {
        dash_get(&self.inner, key)
    }

    /// DEL: removes the entry under `key`; deleting an absent key succeeds
    /// and removes nothing.
    pub fn del(&mut self, key: &String) -> (removed: Option<Entry>)
        ensures
            final(self)@ == old(self)@.remove(key@),
            removed matches Some(e) ==> old(self)@.contains_key(key@) && e@ == old(self)@[key@],
            removed is None ==> !old(self)@.contains_key(key@),
    {
        dash_remove(&mut self.inner, key)
    }
}

} // verus!
