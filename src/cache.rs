//! A cache of resource loaders keyed by resource key, counting the
//! references handed out.

use vstd::prelude::*;

use crate::resource::{absolute_uri_of, get_absolute_uri, HoutuNetworkResource};
use crate::text::{push_chars, string_from_chars};

verus! {

/// A cached loader and the number of references handed out to it.
pub struct CacheEntry {
    pub reference_count: usize,
    pub resource_loader: String,
}

impl CacheEntry {
    /// A fresh entry, referenced once.
    pub fn new(resource_load: &str) -> (r: CacheEntry)
        ensures
            r.reference_count == 1,
            r.resource_loader@ == resource_load@,
    {
        CacheEntry { reference_count: 1, resource_loader: resource_load.to_owned() }
    }
}

/// Cache entries by key, each key at most once, in insertion order.
pub struct ResourceCache {
    keys: Vec<String>,
    cache_entries: Vec<CacheEntry>,
}

/// One entry as the cache's contracts see it: key, reference count, loader.
pub type EntryView = (Seq<char>, nat, Seq<char>);

/// A reference count after one more reference, saturating at the maximum.
pub open spec fn bumped(c: nat) -> nat {
    if c < usize::MAX {
        c + 1
    } else {
        c
    }
}

impl View for ResourceCache {
    type V = Seq<EntryView>;

    closed spec fn view(&self) -> Seq<EntryView> {
        Seq::new(
            self.keys@.len(),
            |i: int|
                (
                    self.keys@[i]@,
                    self.cache_entries@[i].reference_count as nat,
                    self.cache_entries@[i].resource_loader@,
                ),
        )
    }
}

/// No key occurs twice.
pub open spec fn keys_unique(s: Seq<EntryView>) -> bool {
    forall|i: int, j: int| 0 <= i < s.len() && 0 <= j < s.len() && i != j ==> s[i].0 != s[j].0
}

impl ResourceCache {
    /// The two vectors line up.
    pub closed spec fn wf(&self) -> bool {
        self.keys@.len() == self.cache_entries@.len()
    }

    /// An empty cache.
    pub fn new() -> (r: ResourceCache)
        ensures
            r.wf(),
            r@ == Seq::<EntryView>::empty(),
    {
        let r = ResourceCache { keys: Vec::new(), cache_entries: Vec::new() };
        assert(r@ =~= Seq::<EntryView>::empty());
        r
    }

    /// Where `key` is stored, if it is.
    fn position(&self, key: &str) -> (r: Option<usize>)
        requires
            self.wf(),
        ensures
            r matches Some(i) ==> i < self@.len() && self@[i as int].0 == key@,
            r is None ==> forall|i: int| 0 <= i < self@.len() ==> self@[i].0 != key@,
    {
        let mut i: usize = 0;
        while i < self.keys.len()
            invariant
                self.wf(),
                i <= self.keys@.len(),
                forall|j: int| 0 <= j < i ==> self@[j].0 != key@,
            decreases self.keys.len() - i,
        {
            if crate::text::str_eq(self.keys[i].as_str(), key) {
                return Some(i);
            }
            i = i + 1;
        }
        None
    }

    /// Adds a loader under `key`, referenced once, unless the key is already
    /// cached; says whether it added.
    pub fn insert(&mut self, key: &str, resource_load: &str) -> (r: bool)
        requires
            old(self).wf(),
            keys_unique(old(self)@),
        ensures
            final(self).wf(),
            keys_unique(final(self)@),
            r == (forall|i: int| 0 <= i < old(self)@.len() ==> old(self)@[i].0 != key@),
            r ==> final(self)@ == old(self)@.push((key@, 1nat, resource_load@)),
            !r ==> final(self)@ == old(self)@,
    {
        match self.position(key) {
            Some(_) => false,
            None => {
                self.keys.push(key.to_owned());
                self.cache_entries.push(CacheEntry::new(resource_load));
                assert(self@ =~= old(self)@.push((key@, 1nat, resource_load@)));
                true
            },
        }
    }

    /// The loader cached under `cache_key`, counting one more reference to
    /// it (saturating at the maximum count); `None`, with the cache
    /// unchanged, when the key is not cached.
    pub fn get(&mut self, cache_key: &str) -> (r: Option<&String>)
        requires
            old(self).wf(),
            keys_unique(old(self)@),
        ensures
            final(self).wf(),
            keys_unique(final(self)@),
            (forall|i: int| 0 <= i < old(self)@.len() ==> old(self)@[i].0 != cache_key@) ==> (r is None
                && final(self)@ == old(self)@),
            forall|i: int|
                0 <= i < old(self)@.len() && old(self)@[i].0 == cache_key@ ==> {
                    &&& r matches Some(s) && s@ == old(self)@[i].2
                    &&& final(self)@ == old(self)@.update(
                        i,
                        (cache_key@, bumped(old(self)@[i].1), old(self)@[i].2),
                    )
                },
    {
        match self.position(cache_key) {
            None => None,
            Some(i) => {
                let c = self.cache_entries[i].reference_count;
                let next = if c < usize::MAX {
                    c + 1
                } else {
                    c
                };
                self.cache_entries[i].reference_count = next;
                assert(self@ =~= old(self)@.update(
                    i as int,
                    (cache_key@, bumped(old(self)@[i as int].1), old(self)@[i as int].2),
                ));
                Some(&self.cache_entries[i].resource_loader)
            },
        }
    }
}

/// Builds the keys that resources are cached under.
pub struct ResourceCacheKey {}

impl ResourceCacheKey {
    /// The key of a metadata schema: `embedded-schema:` and the schema's
    /// JSON text when it is embedded, else `external-schema:` and the URL
    /// of the resource it comes from.
    pub fn get_schema_cache_key(schema: Option<&str>, resource: &HoutuNetworkResource) -> (r: String)
        ensures
            schema matches Some(text) ==> r@ == "embedded-schema:"@ + text@,
            schema is None ==> r@ == "external-schema:"@ + resource.url.serialization@,
    {
        let mut out: Vec<char> = Vec::new();
        match schema {
            Some(text) => {
                push_chars(&mut out, "embedded-schema:");
                push_chars(&mut out, text);
            },
            None => {
                push_chars(&mut out, "external-schema:");
                push_chars(&mut out, resource.url.serialization.as_str());
            },
        }
        string_from_chars(out)
    }
}

/// The key of an external resource: its path, query and fragment.
pub fn get_external_resource_cache_key(resource: &HoutuNetworkResource) -> (r: String)
    ensures
        r@ == absolute_uri_of(resource.url),
{
    get_absolute_uri(&resource.url)
}

/// Loads a metadata schema, embedded or external.
pub struct MetadataSchemaLoader {}

} // verus!
