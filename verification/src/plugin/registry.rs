//! The catalog of known plugins: registration, load status, tags and
//! capabilities.

use vstd::prelude::*;
use crate::ids::Timestamp;
use crate::plugin::{MetadataView, PluginError, PluginMetadata, contains_str, copy_strings};
use crate::text::str_eq;

verus! {

/// A plugin known to the registry.
#[derive(Debug)]
pub struct PluginRegistryEntry {
    /// Plugin metadata
    pub metadata: PluginMetadata,
    /// Where the plugin comes from, if known
    pub source: Option<String>,
    /// Whether the plugin is currently loaded
    pub loaded: bool,
    /// When the plugin was registered
    pub registered_at: Timestamp,
    /// Tags for categorization
    pub tags: Vec<String>,
}

/// The plain value of a registry entry.
pub struct EntryView {
    pub metadata: MetadataView,
    pub source: Option<Seq<char>>,
    pub loaded: bool,
    pub registered_at: Timestamp,
    pub tags: Seq<Seq<char>>,
}

impl View for PluginRegistryEntry {
    type V = EntryView;

    open spec fn view(&self) -> EntryView {
        EntryView {
            metadata: self.metadata@,
            source: match self.source {
                Some(s) => Some(s@),
                None => None,
            },
            loaded: self.loaded,
            registered_at: self.registered_at,
            tags: self.tags.deep_view(),
        }
    }
}

impl PluginRegistryEntry {
    /// A copy of the entry.
    pub fn duplicate(&self) -> (e: Self)
        ensures
            e@ == self@,
    {
        PluginRegistryEntry {
            metadata: self.metadata.duplicate(),
            source: match &self.source {
                Some(s) => Some(s.clone()),
                None => None,
            },
            loaded: self.loaded,
            registered_at: self.registered_at,
            tags: copy_strings(&self.tags),
        }
    }
}

/// The views of a list of entries.
pub open spec fn entry_views(s: Seq<PluginRegistryEntry>) -> Seq<EntryView> {
    s.map_values(|e: PluginRegistryEntry| e@)
}

/// The views of a list of borrowed entries.
pub open spec fn ref_views(s: Seq<&PluginRegistryEntry>) -> Seq<EntryView> {
    s.map_values(|e: &PluginRegistryEntry| e@)
}

/// Whether an entry named `name` is among `s`.
pub open spec fn has_name(s: Seq<EntryView>, name: Seq<char>) -> bool {
    exists|i: int| 0 <= i < s.len() && #[trigger] s[i].metadata.name == name
}

/// Whether no two entries share a name.
pub open spec fn names_distinct(s: Seq<EntryView>) -> bool {
    forall|i: int, j: int| 0 <= i < s.len() && 0 <= j < s.len() && i != j ==>
        #[trigger] s[i].metadata.name != #[trigger] s[j].metadata.name
}

/// The position of the entry named `name`.
pub open spec fn name_index(s: Seq<EntryView>, name: Seq<char>) -> int {
    choose|i: int| 0 <= i < s.len() && #[trigger] s[i].metadata.name == name
}

/// The entry registered with `metadata` and `source`, at time `now`.
pub open spec fn new_entry(metadata: MetadataView, source: Option<Seq<char>>, loaded: bool, now: Timestamp) -> EntryView {
    EntryView { metadata, source, loaded, registered_at: now, tags: Seq::empty() }
}

/// A list of tags with `tag` added, unless it is there already.
pub open spec fn with_tag(tags: Seq<Seq<char>>, tag: Seq<char>) -> Seq<Seq<char>> {
    if tags.contains(tag) { tags } else { tags.push(tag) }
}

/// A list of tags without `tag`.
pub open spec fn without_tag(tags: Seq<Seq<char>>, tag: Seq<char>) -> Seq<Seq<char>> {
    tags.filter(|t: Seq<char>| t != tag)
}

/// How many times `c` occurs in a list of strings.
pub open spec fn occurrences(t: Seq<Seq<char>>, c: Seq<char>) -> nat
    decreases t.len(),
{
    if t.len() == 0 {
        0
    } else {
        occurrences(t.drop_last(), c) + (if t.last() == c { 1nat } else { 0nat })
    }
}

/// How many times `cap` occurs among the capabilities of the entries.
pub open spec fn capability_count(s: Seq<EntryView>, cap: Seq<char>) -> nat
    decreases s.len(),
{
    if s.len() == 0 {
        0
    } else {
        capability_count(s.drop_last(), cap) + occurrences(s.last().metadata.capabilities, cap)
    }
}

/// The number of capabilities over all entries.
pub open spec fn total_capabilities(s: Seq<EntryView>) -> nat
    decreases s.len(),
{
    if s.len() == 0 {
        0
    } else {
        total_capabilities(s.drop_last()) + s.last().metadata.capabilities.len()
    }
}

/// Statistics of a plugin registry.
#[derive(Debug)]
pub struct PluginRegistryStats {
    /// Number of registered plugins
    pub total_plugins: usize,
    /// Number of loaded plugins
    pub loaded_plugins: usize,
    /// Number of registered plugins that are not loaded
    pub unloaded_plugins: usize,
    /// Each capability with the number of plugins offering it
    pub capabilities: Vec<(String, usize)>,
}

/// The catalog of available plugins, each under a unique name.
pub struct PluginRegistry {
    entries: Vec<PluginRegistryEntry>,
    search_paths: Vec<String>,
}

impl PluginRegistry {
    #[verifier::type_invariant]
    spec fn inv(&self) -> bool {
        names_distinct(entry_views(self.entries@))
    }

    /// The entries, in registration order.
    pub closed spec fn entry_seq(&self) -> Seq<EntryView> {
        entry_views(self.entries@)
    }

    /// The search paths, in the order they were added.
    pub closed spec fn path_seq(&self) -> Seq<Seq<char>> {
        self.search_paths.deep_view()
    }

    /// Create an empty registry.
    pub fn new() -> (r: Self)
        ensures
            r.entry_seq() == Seq::<EntryView>::empty(),
            r.path_seq() == Seq::<Seq<char>>::empty(),
    {
        let r = PluginRegistry { entries: Vec::new(), search_paths: Vec::new() };
        assert(r.entry_seq() =~= Seq::<EntryView>::empty());
        assert(r.path_seq() =~= Seq::<Seq<char>>::empty());
        r
    }

    /// Add a search path, unless it is already there.
    pub fn add_search_path(&mut self, path: String)
        ensures
            final(self).entry_seq() == old(self).entry_seq(),
            final(self).path_seq() == with_tag(old(self).path_seq(), path@),
    {
        if !contains_str(&self.search_paths, path.as_str()) {
            proof { use_type_invariant(&*self); }
            let ghost before = self.search_paths.deep_view();
            let mut taken = PluginRegistry::new();
            std::mem::swap(&mut taken, self);
            let PluginRegistry { entries, search_paths: mut paths } = taken;
            paths.push(path);
            assert(paths.deep_view() =~= before.push(path@));
            *self = PluginRegistry { entries, search_paths: paths };
        }
    }

    /// Position of the entry named `name`.
    fn position(&self, name: &str) -> (r: Option<usize>)
        ensures
            r matches Some(i) ==> i < self.entries@.len() && self.entry_seq()[i as int].metadata.name == name@
                && i == name_index(self.entry_seq(), name@),
            r is None ==> !has_name(self.entry_seq(), name@),
    {
        proof { use_type_invariant(self); }
        let mut i: usize = 0;
        while i < self.entries.len()
            invariant
                i <= self.entries@.len(),
                names_distinct(self.entry_seq()),
                forall|j: int| 0 <= j < i ==> #[trigger] self.entry_seq()[j].metadata.name != name@,
            decreases self.entries@.len() - i,
        {
            if crate::text::str_eq(self.entries[i].metadata.name.as_str(), name) {
                assert(self.entry_seq()[i as int].metadata.name == name@);
                let ghost k = name_index(self.entry_seq(), name@);
                assert(self.entry_seq()[k].metadata.name == name@);
                return Some(i);
            }
            i = i + 1;
        }
        None
    }

    fn insert_entry(&mut self, entry: PluginRegistryEntry)
        requires
            !has_name(old(self).entry_seq(), entry@.metadata.name),
        ensures
            final(self).entry_seq() == old(self).entry_seq().push(entry@),
            final(self).path_seq() == old(self).path_seq(),
    {
        proof { use_type_invariant(&*self); }
        let ghost before = self.entry_seq();
        let mut taken = PluginRegistry::new();
        std::mem::swap(&mut taken, self);
        let PluginRegistry { entries: mut entries, search_paths } = taken;
        let ghost e = entry@;
        entries.push(entry);
        proof {
            assert(entry_views(entries@) =~= before.push(e));
            let s = entry_views(entries@);
            assert forall|i: int, j: int| 0 <= i < s.len() && 0 <= j < s.len() && i != j implies
                #[trigger] s[i].metadata.name != #[trigger] s[j].metadata.name by {
                if i == s.len() - 1 {
                    assert(before[j] == s[j]);
                } else if j == s.len() - 1 {
                    assert(before[i] == s[i]);
                } else {
                    assert(before[i] == s[i] && before[j] == s[j]);
                }
            }
        }
        *self = PluginRegistry { entries, search_paths };
    }

    /// Register a plugin that is not loaded yet; a name can be registered
    /// once.
    pub fn register(&mut self, metadata: PluginMetadata, source: Option<String>) -> (r: Result<(), PluginError>)
        ensures
            final(self).path_seq() == old(self).path_seq(),
            has_name(old(self).entry_seq(), metadata@.name) ==> {
                &&& r matches Err(PluginError::AlreadyRegistered(n)) && n@ == metadata@.name
                &&& final(self).entry_seq() == old(self).entry_seq()
            },
            !has_name(old(self).entry_seq(), metadata@.name) ==> {
                &&& r is Ok
                &&& final(self).entry_seq().len() == old(self).entry_seq().len() + 1
                &&& final(self).entry_seq().drop_last() == old(self).entry_seq()
                &&& final(self).entry_seq().last() == new_entry(metadata@, match source { Some(s) => Some(s@), None => None }, false, final(self).entry_seq().last().registered_at)
            },
    {
        match self.position(metadata.name.as_str()) {
            Some(_) => Err(PluginError::AlreadyRegistered(metadata.name.clone())),
            None => {
                let tags: Vec<String> = Vec::new();
                assert(tags.deep_view() =~= Seq::<Seq<char>>::empty());
                let entry = PluginRegistryEntry {
                    metadata,
                    source,
                    loaded: false,
                    registered_at: Timestamp::now(),
                    tags,
                };
                self.insert_entry(entry);
                Ok(())
            },
        }
    }

    /// Register a plugin that is already loaded, by its metadata; a name
    /// can be registered once.
    pub fn register_plugin(&mut self, metadata: PluginMetadata) -> (r: Result<(), PluginError>)
        ensures
            final(self).path_seq() == old(self).path_seq(),
            has_name(old(self).entry_seq(), metadata@.name) ==> {
                &&& r matches Err(PluginError::AlreadyRegistered(n)) && n@ == metadata@.name
                &&& final(self).entry_seq() == old(self).entry_seq()
            },
            !has_name(old(self).entry_seq(), metadata@.name) ==> {
                &&& r is Ok
                &&& final(self).entry_seq().len() == old(self).entry_seq().len() + 1
                &&& final(self).entry_seq().drop_last() == old(self).entry_seq()
                &&& final(self).entry_seq().last() == new_entry(metadata@, None, true, final(self).entry_seq().last().registered_at)
            },
    {
        match self.position(metadata.name.as_str()) {
            Some(_) => Err(PluginError::AlreadyRegistered(metadata.name.clone())),
            None => {
                let tags: Vec<String> = Vec::new();
                assert(tags.deep_view() =~= Seq::<Seq<char>>::empty());
                let entry = PluginRegistryEntry {
                    metadata,
                    source: None,
                    loaded: true,
                    registered_at: Timestamp::now(),
                    tags,
                };
                self.insert_entry(entry);
                Ok(())
            },
        }
    }

    /// Take the entry at position `i` out for an update.
    fn take_entry(&mut self, i: usize) -> (e: PluginRegistryEntry)
        requires
            i < old(self).entry_seq().len(),
        ensures
            e@ == old(self).entry_seq()[i as int],
            final(self).entry_seq() == old(self).entry_seq().remove(i as int),
            final(self).path_seq() == old(self).path_seq(),
    {
        proof { use_type_invariant(&*self); }
        let ghost before = self.entry_seq();
        let mut taken = PluginRegistry::new();
        std::mem::swap(&mut taken, self);
        let PluginRegistry { entries: mut entries, search_paths } = taken;
        let e = entries.remove(i);
        proof {
            assert(entry_views(entries@) =~= before.remove(i as int));
            let s = entry_views(entries@);
            assert forall|a: int, b: int| 0 <= a < s.len() && 0 <= b < s.len() && a != b implies
                #[trigger] s[a].metadata.name != #[trigger] s[b].metadata.name by {
                let a2 = if a < i { a } else { a + 1 };
                let b2 = if b < i { b } else { b + 1 };
                assert(s[a] == before[a2] && s[b] == before[b2]);
            }
        }
        *self = PluginRegistry { entries, search_paths };
        e
    }

    /// Set the load status of the plugin named `name`.
    fn set_loaded(&mut self, name: &str, loaded: bool) -> (r: Result<(), PluginError>)
        ensures
            final(self).path_seq() == old(self).path_seq(),
            !has_name(old(self).entry_seq(), name@) ==> {
                &&& r matches Err(PluginError::NotFound(n)) && n@ == name@
                &&& final(self).entry_seq() == old(self).entry_seq()
            },
            has_name(old(self).entry_seq(), name@) ==> {
                let i = name_index(old(self).entry_seq(), name@);
                &&& r is Ok
                &&& final(self).entry_seq() == old(self).entry_seq().update(i, EntryView { loaded, ..old(self).entry_seq()[i] })
            },
    {
        match self.position(name) {
            None => Err(PluginError::NotFound(String::from_str(name))),
            Some(i) => {
                proof { use_type_invariant(&*self); }
                let ghost before = self.entry_seq();
                let e = self.take_entry(i);
                let updated = PluginRegistryEntry { loaded, ..e };
                self.put_back(i, updated, Ghost(before));
                Ok(())
            },
        }
    }

    /// Mark the plugin named `name` as loaded.
    pub fn mark_loaded(&mut self, name: &str) -> (r: Result<(), PluginError>)
        ensures
            final(self).path_seq() == old(self).path_seq(),
            !has_name(old(self).entry_seq(), name@) ==> {
                &&& r matches Err(PluginError::NotFound(n)) && n@ == name@
                &&& final(self).entry_seq() == old(self).entry_seq()
            },
            has_name(old(self).entry_seq(), name@) ==> {
                let i = name_index(old(self).entry_seq(), name@);
                &&& r is Ok
                &&& final(self).entry_seq() == old(self).entry_seq().update(i, EntryView { loaded: true, ..old(self).entry_seq()[i] })
            },
    {
        self.set_loaded(name, true)
    }

    /// Mark the plugin named `name` as not loaded.
    pub fn mark_unloaded(&mut self, name: &str) -> (r: Result<(), PluginError>)
        ensures
            final(self).path_seq() == old(self).path_seq(),
            !has_name(old(self).entry_seq(), name@) ==> {
                &&& r matches Err(PluginError::NotFound(n)) && n@ == name@
                &&& final(self).entry_seq() == old(self).entry_seq()
            },
            has_name(old(self).entry_seq(), name@) ==> {
                let i = name_index(old(self).entry_seq(), name@);
                &&& r is Ok
                &&& final(self).entry_seq() == old(self).entry_seq().update(i, EntryView { loaded: false, ..old(self).entry_seq()[i] })
            },
    {
        self.set_loaded(name, false)
    }

    /// Remove the plugin named `name`.
    pub fn unregister(&mut self, name: &str) -> (r: Result<(), PluginError>)
        ensures
            final(self).path_seq() == old(self).path_seq(),
            !has_name(old(self).entry_seq(), name@) ==> {
                &&& r matches Err(PluginError::NotFound(n)) && n@ == name@
                &&& final(self).entry_seq() == old(self).entry_seq()
            },
            has_name(old(self).entry_seq(), name@) ==> {
                &&& r is Ok
                &&& final(self).entry_seq() == old(self).entry_seq().remove(name_index(old(self).entry_seq(), name@))
            },
    {
        match self.position(name) {
            None => Err(PluginError::NotFound(String::from_str(name))),
            Some(i) => {
                let _e = self.take_entry(i);
                Ok(())
            },
        }
    }

    /// The entry of the plugin named `name`.
    pub fn get(&self, name: &str) -> (r: Option<&PluginRegistryEntry>)
        ensures
            r is Some == has_name(self.entry_seq(), name@),
            r matches Some(e) ==> e@ == self.entry_seq()[name_index(self.entry_seq(), name@)],
    {
        match self.position(name) {
            Some(i) => Some(&self.entries[i]),
            None => None,
        }
    }

    /// Whether a plugin named `name` is registered.
    pub fn contains(&self, name: &str) -> (r: bool)
        ensures
            r == has_name(self.entry_seq(), name@),
    {
        self.position(name).is_some()
    }

    /// The number of registered plugins.
    pub fn len(&self) -> (n: usize)
        ensures
            n == self.entry_seq().len(),
    {
        self.entries.len()
    }

    /// The entries satisfying `keep`, in registration order.
    fn select(&self, kind: u8, text: &str) -> (r: Vec<&PluginRegistryEntry>)
        ensures
            ref_views(r@) == self.entry_seq().filter(|e: EntryView| selected(e, kind, text@)),
    {
        let ghost pred = |e: EntryView| selected(e, kind, text@);
        let ghost s = self.entry_seq();
        let mut out: Vec<&PluginRegistryEntry> = Vec::new();
        let mut i: usize = 0;
        proof { reveal(Seq::filter); }
        assert(s.take(0) =~= Seq::<EntryView>::empty());
        while i < self.entries.len()
            invariant
                i <= self.entries@.len(),
                s == self.entry_seq(),
                pred == (|e: EntryView| selected(e, kind, text@)),
                ref_views(out@) == s.take(i as int).filter(pred),
            decreases self.entries@.len() - i,
        {
            let e = &self.entries[i];
            let keep = if kind == 0 {
                true
            } else if kind == 1 {
                e.loaded
            } else if kind == 2 {
                !e.loaded
            } else if kind == 3 {
                contains_str(&e.metadata.capabilities, text)
            } else {
                contains_str(&e.tags, text)
            };
            let ghost before = out@;
            proof {
                assert(s.take(i + 1).drop_last() =~= s.take(i as int));
                assert(s.take(i + 1).last() == e@);
                reveal(Seq::filter);
                assert(keep == pred(e@));
            }
            if keep {
                out.push(e);
                proof { assert(ref_views(out@) =~= ref_views(before).push(e@)); }
            }
            i = i + 1;
        }
        assert(s.take(self.entries@.len() as int) =~= s);
        out
    }

    /// Every registered plugin, in registration order.
    pub fn list_all(&self) -> (r: Vec<&PluginRegistryEntry>)
        ensures
            ref_views(r@) == self.entry_seq(),
    {
        let r = self.select(0, "");
        proof { lemma_filter_all(self.entry_seq(), |e: EntryView| selected(e, 0, ""@)); }
        r
    }

    /// The loaded plugins.
    pub fn list_loaded(&self) -> (r: Vec<&PluginRegistryEntry>)
        ensures
            ref_views(r@) == self.entry_seq().filter(|e: EntryView| e.loaded),
    {
        let r = self.select(1, "");
        proof {
            assert((|e: EntryView| selected(e, 1, ""@)) =~= (|e: EntryView| e.loaded));
        }
        r
    }

    /// The plugins that are not loaded.
    pub fn list_unloaded(&self) -> (r: Vec<&PluginRegistryEntry>)
        ensures
            ref_views(r@) == self.entry_seq().filter(|e: EntryView| !e.loaded),
    {
        let r = self.select(2, "");
        proof {
            assert((|e: EntryView| selected(e, 2, ""@)) =~= (|e: EntryView| !e.loaded));
        }
        r
    }

    /// The plugins offering a capability.
    pub fn find_by_capability(&self, capability: &str) -> (r: Vec<&PluginRegistryEntry>)
        ensures
            ref_views(r@) == self.entry_seq().filter(|e: EntryView| e.metadata.capabilities.contains(capability@)),
    {
        let r = self.select(3, capability);
        proof {
            assert((|e: EntryView| selected(e, 3, capability@)) =~= (|e: EntryView| e.metadata.capabilities.contains(capability@)));
        }
        r
    }

    /// The plugins carrying a tag.
    pub fn find_by_tag(&self, tag: &str) -> (r: Vec<&PluginRegistryEntry>)
        ensures
            ref_views(r@) == self.entry_seq().filter(|e: EntryView| e.tags.contains(tag@)),
    {
        let r = self.select(4, tag);
        proof {
            assert((|e: EntryView| selected(e, 4, tag@)) =~= (|e: EntryView| e.tags.contains(tag@)));
        }
        r
    }

    /// Tag the plugin named `name`; a tag is held once.
    pub fn add_tag(&mut self, name: &str, tag: String) -> (r: Result<(), PluginError>)
        ensures
            final(self).path_seq() == old(self).path_seq(),
            !has_name(old(self).entry_seq(), name@) ==> {
                &&& r matches Err(PluginError::NotFound(n)) && n@ == name@
                &&& final(self).entry_seq() == old(self).entry_seq()
            },
            has_name(old(self).entry_seq(), name@) ==> {
                let i = name_index(old(self).entry_seq(), name@);
                &&& r is Ok
                &&& final(self).entry_seq() == old(self).entry_seq().update(i,
                        EntryView { tags: with_tag(old(self).entry_seq()[i].tags, tag@), ..old(self).entry_seq()[i] })
            },
    {
        match self.position(name) {
            None => Err(PluginError::NotFound(String::from_str(name))),
            Some(i) => {
                proof { use_type_invariant(&*self); }
                let ghost before = self.entry_seq();
                let e = self.take_entry(i);
                let PluginRegistryEntry { metadata, source, loaded, registered_at, tags: mut tags } = e;
                if !contains_str(&tags, tag.as_str()) {
                    let ghost t0 = tags.deep_view();
                    tags.push(tag);
                    assert(tags.deep_view() =~= t0.push(tag@));
                }
                let updated = PluginRegistryEntry { metadata, source, loaded, registered_at, tags };
                self.put_back(i, updated, Ghost(before));
                Ok(())
            },
        }
    }

    /// Remove a tag from the plugin named `name`.
    pub fn remove_tag(&mut self, name: &str, tag: &str) -> (r: Result<(), PluginError>)
        ensures
            final(self).path_seq() == old(self).path_seq(),
            !has_name(old(self).entry_seq(), name@) ==> {
                &&& r matches Err(PluginError::NotFound(n)) && n@ == name@
                &&& final(self).entry_seq() == old(self).entry_seq()
            },
            has_name(old(self).entry_seq(), name@) ==> {
                let i = name_index(old(self).entry_seq(), name@);
                &&& r is Ok
                &&& final(self).entry_seq() == old(self).entry_seq().update(i,
                        EntryView { tags: without_tag(old(self).entry_seq()[i].tags, tag@), ..old(self).entry_seq()[i] })
            },
    {
        match self.position(name) {
            None => Err(PluginError::NotFound(String::from_str(name))),
            Some(i) => {
                proof { use_type_invariant(&*self); }
                let ghost before = self.entry_seq();
                let e = self.take_entry(i);
                let PluginRegistryEntry { metadata, source, loaded, registered_at, tags } = e;
                let kept = retain_other_tags(tags, tag);
                let updated = PluginRegistryEntry { metadata, source, loaded, registered_at, tags: kept };
                self.put_back(i, updated, Ghost(before));
                Ok(())
            },
        }
    }

    /// Put an updated entry back at the position it was taken from.
    fn put_back(&mut self, i: usize, entry: PluginRegistryEntry, Ghost(before): Ghost<Seq<EntryView>>)
        requires
            i < before.len(),
            names_distinct(before),
            old(self).entry_seq() == before.remove(i as int),
            entry@.metadata.name == before[i as int].metadata.name,
        ensures
            final(self).entry_seq() == before.update(i as int, entry@),
            final(self).path_seq() == old(self).path_seq(),
    {
        let mut taken = PluginRegistry::new();
        std::mem::swap(&mut taken, self);
        let PluginRegistry { entries: mut entries, search_paths } = taken;
        let ghost u = entry@;
        let ghost mid = entries@;
        assert(entry_views(mid) == before.remove(i as int));
        assert(mid.len() == entry_views(mid).len());
        entries.insert(i, entry);
        proof {
            assert forall|k: int| 0 <= k < before.len() implies #[trigger] entry_views(entries@)[k] == before.update(i as int, u)[k] by {
                if k < i { assert(entries@[k] == mid[k]); assert(entry_views(mid)[k] == before[k]); }
                else if k > i { assert(entries@[k] == mid[k - 1]); assert(entry_views(mid)[k - 1] == before[k]); }
            }
            assert(entry_views(entries@) =~= before.update(i as int, u));
            let s = entry_views(entries@);
            assert forall|a: int, b: int| 0 <= a < s.len() && 0 <= b < s.len() && a != b implies
                #[trigger] s[a].metadata.name != #[trigger] s[b].metadata.name by {
                assert(s[a].metadata.name == before[a].metadata.name);
                assert(s[b].metadata.name == before[b].metadata.name);
            }
        }
        *self = PluginRegistry { entries, search_paths };
    }

    /// Remove every entry; the search paths stay.
    pub fn clear(&mut self)
        ensures
            final(self).entry_seq() == Seq::<EntryView>::empty(),
            final(self).path_seq() == old(self).path_seq(),
    {
        let mut taken = PluginRegistry::new();
        std::mem::swap(&mut taken, self);
        let PluginRegistry { entries: _, search_paths } = taken;
        let entries: Vec<PluginRegistryEntry> = Vec::new();
        *self = PluginRegistry { entries, search_paths };
        assert(self.entry_seq() =~= Seq::<EntryView>::empty());
    }
}

/// Which entries a listing keeps: all (0), loaded (1), not loaded (2),
/// offering a capability (3), or carrying a tag (other kinds).
pub open spec fn selected(e: EntryView, kind: u8, text: Seq<char>) -> bool {
    if kind == 0 {
        true
    } else if kind == 1 {
        e.loaded
    } else if kind == 2 {
        !e.loaded
    } else if kind == 3 {
        e.metadata.capabilities.contains(text)
    } else {
        e.tags.contains(text)
    }
}

/// Filtering with a predicate that holds everywhere keeps everything.
proof fn lemma_filter_all<A>(s: Seq<A>, pred: spec_fn(A) -> bool)
    requires
        forall|a: A| #[trigger] pred(a),
    ensures
        s.filter(pred) == s,
    decreases s.len(),
{
    reveal(Seq::filter);
    if s.len() > 0 {
        lemma_filter_all(s.drop_last(), pred);
        assert(s.drop_last().push(s.last()) =~= s);
    }
}

/// The tags other than `tag`, in order.
fn retain_other_tags(tags: Vec<String>, tag: &str) -> (r: Vec<String>)
    ensures
        r.deep_view() == without_tag(tags.deep_view(), tag@),
{
    let ghost s = tags.deep_view();
    let mut out: Vec<String> = Vec::new();
    let mut i: usize = 0;
    proof { reveal(Seq::filter); }
    assert(s.take(0) =~= Seq::<Seq<char>>::empty());
    assert(out.deep_view() =~= Seq::<Seq<char>>::empty());
    while i < tags.len()
        invariant
            i <= tags@.len(),
            s == tags.deep_view(),
            out.deep_view() == without_tag(s.take(i as int), tag@),
        decreases tags@.len() - i,
    {
        let ghost before = out.deep_view();
        proof {
            assert(s.take(i + 1).drop_last() =~= s.take(i as int));
            assert(s.take(i + 1).last() == tags@[i as int]@);
            reveal(Seq::filter);
        }
        if !crate::text::str_eq(tags[i].as_str(), tag) {
            out.push(tags[i].clone());
            proof { assert(out.deep_view() =~= before.push(tags@[i as int]@)); }
        }
        i = i + 1;
    }
    assert(s.take(tags@.len() as int) =~= s);
    out
}

/// Finds plugins in search paths.
///
/// Plugins are compiled in: discovery finds none yet, and metadata files
/// are not read.
pub struct PluginDiscovery {
    search_paths: Vec<String>,
}

impl View for PluginDiscovery {
    type V = Seq<Seq<char>>;

    closed spec fn view(&self) -> Seq<Seq<char>> {
        self.search_paths.deep_view()
    }
}

impl PluginDiscovery {
    /// A discovery with no search paths.
    pub fn new() -> (d: Self)
        ensures
            d@ == Seq::<Seq<char>>::empty(),
    {
        let d = PluginDiscovery { search_paths: Vec::new() };
        assert(d@ =~= Seq::<Seq<char>>::empty());
        d
    }

    /// Add a search path (paths may repeat).
    pub fn add_path(&mut self, path: String)
        ensures
            final(self)@ == old(self)@.push(path@),
    {
        let ghost before = self@;
        self.search_paths.push(path);
        assert(self@ =~= before.push(path@));
    }

    /// The plugins found in the search paths: none, since plugins are
    /// compiled in.
    pub fn discover(&self) -> (r: Vec<PluginMetadata>)
        ensures
            r@.len() == 0,
    {
        Vec::new()
    }

    /// Whether a file of this name holds plugin metadata: `plugin.json` or
    /// `plugin.toml`.
    pub fn is_metadata_file(name: &str) -> (r: bool)
        ensures
            r == (name@ == "plugin.json"@ || name@ == "plugin.toml"@),
    {
        str_eq(name, "plugin.json") || str_eq(name, "plugin.toml")
    }

    /// Read plugin metadata from a file: not supported, always an error.
    pub fn load_metadata_from_file(&self, _path: &str) -> (r: Result<PluginMetadata, PluginError>)
        ensures
            r matches Err(PluginError::General(m)) && m@ == "Metadata file loading not yet implemented"@,
    {
        Err(PluginError::General(String::from_str("Metadata file loading not yet implemented")))
    }
}

impl crate::order::Ranked for PluginRegistryEntry {
    /// By name when `alt`, else by registration time, both ascending.
    open spec fn precedes(&self, other: &Self, alt: bool) -> bool {
        if alt {
            crate::text::lex_lt(self.metadata.name@, other.metadata.name@)
        } else {
            crate::order::ts_lt(self.registered_at, other.registered_at)
        }
    }

    proof fn lemma_precedes(a: &Self, b: &Self, c: &Self, alt: bool) {
        crate::text::lemma_lex_lt(a.metadata.name@, b.metadata.name@, c.metadata.name@);
        crate::ids::lemma_ts_le_total_order(a.registered_at, b.registered_at, c.registered_at);
        crate::ids::lemma_ts_le_total_order(b.registered_at, a.registered_at, c.registered_at);
    }

    fn goes_first(&self, other: &Self, alt: bool) -> (r: bool) {
        if alt {
            crate::text::lex_before(self.metadata.name.as_str(), other.metadata.name.as_str())
        } else {
            self.registered_at.le(&other.registered_at) && !(self.registered_at == other.registered_at)
        }
    }
}

/// A read-only list of plugin entries with filters and orderings.
pub struct PluginCatalog {
    entries: Vec<PluginRegistryEntry>,
}

impl View for PluginCatalog {
    type V = Seq<EntryView>;

    closed spec fn view(&self) -> Seq<EntryView> {
        entry_views(self.entries@)
    }
}

impl PluginCatalog {
    /// A catalog of every entry of a registry, in registration order.
    pub fn from_registry(registry: &PluginRegistry) -> (c: Self)
        ensures
            c@ == registry.entry_seq(),
    {
        let all = registry.list_all();
        let mut entries: Vec<PluginRegistryEntry> = Vec::new();
        let mut i: usize = 0;
        while i < all.len()
            invariant
                i <= all@.len(),
                ref_views(all@) == registry.entry_seq(),
                entry_views(entries@) == ref_views(all@).take(i as int),
            decreases all@.len() - i,
        {
            let e = all[i].duplicate();
            let ghost before = entries@;
            let ghost ev = e@;
            assert(ev == ref_views(all@)[i as int]);
            entries.push(e);
            proof {
                assert(entry_views(entries@) =~= entry_views(before).push(ev));
                assert(ref_views(all@).take(i + 1) =~= ref_views(all@).take(i as int).push(ev));
            }
            i = i + 1;
        }
        assert(ref_views(all@).take(all@.len() as int) =~= ref_views(all@));
        PluginCatalog { entries }
    }

    /// The entries.
    pub fn entries(&self) -> (s: &[PluginRegistryEntry])
        ensures
            entry_views(s@) == self@,
    {
        self.entries.as_slice()
    }

    /// The number of entries.
    pub fn count(&self) -> (n: usize)
        ensures
            n == self@.len(),
    {
        self.entries.len()
    }

    fn keep(self, kind: u8, text: &str, loaded: bool) -> (c: Self)
        ensures
            c@ == self@.filter(|e: EntryView| catalog_keeps(e, kind, text@, loaded)),
    {
        let ghost s = self@;
        let ghost pred = |e: EntryView| catalog_keeps(e, kind, text@, loaded);
        let ghost orig = self.entries@;
        let ghost n = orig.len();
        let mut rest = self.entries;
        let mut out: Vec<PluginRegistryEntry> = Vec::new();
        proof { reveal(Seq::filter); }
        assert(s.take(0) =~= Seq::<EntryView>::empty());
        while rest.len() > 0
            invariant
                n == orig.len(),
                s == entry_views(orig),
                pred == (|e: EntryView| catalog_keeps(e, kind, text@, loaded)),
                rest@.len() <= n,
                rest@ == orig.skip(n - rest@.len()),
                entry_views(out@) == s.take(n - rest@.len()).filter(pred),
            decreases rest@.len(),
        {
            let ghost i = n - rest@.len();
            let e = rest.remove(0);
            proof {
                assert(e == orig[i]);
                assert(rest@ =~= orig.skip(i + 1));
                assert(s.take(i + 1).drop_last() =~= s.take(i));
                assert(s.take(i + 1).last() == e@);
                reveal(Seq::filter);
            }
            let k = if kind == 0 {
                contains_str(&e.metadata.capabilities, text)
            } else if kind == 1 {
                e.loaded == loaded
            } else {
                contains_str(&e.tags, text)
            };
            if k {
                let ghost before = out@;
                let ghost ev = e@;
                out.push(e);
                proof { assert(entry_views(out@) =~= entry_views(before).push(ev)); }
            }
        }
        assert(s.take(n as int) =~= s);
        PluginCatalog { entries: out }
    }

    /// Keep the entries offering a capability.
    pub fn with_capability(self, capability: &str) -> (c: Self)
        ensures
            c@ == self@.filter(|e: EntryView| e.metadata.capabilities.contains(capability@)),
    {
        let c = self.keep(0, capability, false);
        proof {
            assert((|e: EntryView| catalog_keeps(e, 0, capability@, false)) =~= (|e: EntryView| e.metadata.capabilities.contains(capability@)));
        }
        c
    }

    /// Keep the entries whose load status is `loaded`.
    pub fn loaded(self, loaded: bool) -> (c: Self)
        ensures
            c@ == self@.filter(|e: EntryView| e.loaded == loaded),
    {
        let c = self.keep(1, "", loaded);
        proof {
            assert((|e: EntryView| catalog_keeps(e, 1, ""@, loaded)) =~= (|e: EntryView| e.loaded == loaded));
        }
        c
    }

    /// Keep the entries carrying a tag.
    pub fn with_tag(self, tag: &str) -> (c: Self)
        ensures
            c@ == self@.filter(|e: EntryView| e.tags.contains(tag@)),
    {
        let c = self.keep(2, tag, false);
        proof {
            assert((|e: EntryView| catalog_keeps(e, 2, tag@, false)) =~= (|e: EntryView| e.tags.contains(tag@)));
        }
        c
    }

    /// Order the entries by registration time, oldest first; entries
    /// registered at the same time keep their order.
    pub fn sort_by_time(self) -> (c: Self)
        ensures
            c.entry_list() == crate::order::stable_sorted(self.entry_list(), false),
    {
        PluginCatalog { entries: crate::order::stable_sort(self.entries, false) }
    }

    /// Order the entries by name.
    pub fn sort_by_name(self) -> (c: Self)
        ensures
            c.entry_list() == crate::order::stable_sorted(self.entry_list(), true),
    {
        PluginCatalog { entries: crate::order::stable_sort(self.entries, true) }
    }

    /// The entries themselves, in catalog order.
    pub closed spec fn entry_list(&self) -> Seq<PluginRegistryEntry> {
        self.entries@
    }
}

/// Which entries a catalog filter keeps: those offering a capability (0),
/// those whose load status is `loaded` (1), or those carrying a tag.
pub open spec fn catalog_keeps(e: EntryView, kind: u8, text: Seq<char>, loaded: bool) -> bool {
    if kind == 0 {
        e.metadata.capabilities.contains(text)
    } else if kind == 1 {
        e.loaded == loaded
    } else {
        e.tags.contains(text)
    }
}

/// Registration and removal: after a plugin is registered under a new
/// name, that name is found with the registered entry; after the plugin
/// named `name` is removed, no entry has that name, and names stay
/// distinct throughout.
pub proof fn lemma_register_then_lookup(s: Seq<EntryView>, e: EntryView, name: Seq<char>)
    requires
        names_distinct(s),
        !has_name(s, e.metadata.name),
    ensures
        names_distinct(s.push(e)),
        has_name(s.push(e), e.metadata.name),
        s.push(e)[name_index(s.push(e), e.metadata.name)] == e,
        has_name(s, name) ==> !has_name(s.remove(name_index(s, name)), name),
{
    let t = s.push(e);
    assert forall|i: int, j: int| 0 <= i < t.len() && 0 <= j < t.len() && i != j implies
        #[trigger] t[i].metadata.name != #[trigger] t[j].metadata.name by {
        if i < s.len() && j < s.len() {
            assert(t[i] == s[i] && t[j] == s[j]);
        } else if i < s.len() {
            assert(t[i] == s[i]);
        } else {
            assert(t[j] == s[j]);
        }
    }
    let n = s.len() as int;
    assert(t[n].metadata.name == e.metadata.name);
    let k = name_index(t, e.metadata.name);
    if k != n {
        assert(t[k].metadata.name == e.metadata.name);
    }
    if has_name(s, name) {
        let idx = name_index(s, name);
        let r = s.remove(idx);
        if has_name(r, name) {
            let j = choose|j: int| 0 <= j < r.len() && #[trigger] r[j].metadata.name == name;
            let j2 = if j < idx { j } else { j + 1 };
            assert(r[j] == s[j2]);
            assert(s[idx].metadata.name == name);
        }
    }
}

// ===== Capability counts =====

/// Whether no two counted keys are the same.
pub open spec fn count_keys_distinct(cv: Seq<(String, usize)>) -> bool {
    forall|a: int, b: int| 0 <= a < cv.len() && 0 <= b < cv.len() && a != b ==>
        (#[trigger] cv[a]).0@ != (#[trigger] cv[b]).0@
}

/// Whether `c` is counted.
pub open spec fn is_counted(cv: Seq<(String, usize)>, c: Seq<char>) -> bool {
    exists|a: int| 0 <= a < cv.len() && (#[trigger] cv[a]).0@ == c
}

/// The count kept for `c`: zero when it is not counted.
pub open spec fn count_of(cv: Seq<(String, usize)>, c: Seq<char>) -> nat {
    if is_counted(cv, c) {
        cv[choose|a: int| 0 <= a < cv.len() && (#[trigger] cv[a]).0@ == c].1 as nat
    } else {
        0
    }
}

proof fn lemma_count_at(cv: Seq<(String, usize)>, a: int)
    requires
        count_keys_distinct(cv),
        0 <= a < cv.len(),
    ensures
        is_counted(cv, cv[a].0@),
        count_of(cv, cv[a].0@) == cv[a].1,
{
    let c = cv[a].0@;
    assert(cv[a].0@ == c);
    let k = choose|k: int| 0 <= k < cv.len() && (#[trigger] cv[k]).0@ == c;
    if k != a {
        assert(cv[k].0@ == c);
    }
}

/// Count one more `key`.
fn bump_key(counts: &mut Vec<(String, usize)>, key: &String)
    requires
        count_keys_distinct(old(counts)@),
        count_of(old(counts)@, key@) < usize::MAX,
        forall|a: int| 0 <= a < old(counts)@.len() ==> (#[trigger] old(counts)@[a]).1 > 0,
    ensures
        count_keys_distinct(final(counts)@),
        forall|c: Seq<char>| #[trigger] count_of(final(counts)@, c) == count_of(old(counts)@, c) + (if c == key@ { 1nat } else { 0nat }),
        forall|c: Seq<char>| #[trigger] is_counted(final(counts)@, c) == (is_counted(old(counts)@, c) || c == key@),
        forall|a: int| 0 <= a < final(counts)@.len() ==> (#[trigger] final(counts)@[a]).1 > 0,
{
    let ghost before = counts@;
    let mut k: usize = 0;
    while k < counts.len()
        invariant
            counts@ == before,
            k <= counts@.len(),
            forall|a: int| 0 <= a < k ==> (#[trigger] counts@[a]).0@ != key@,
        ensures
            counts@ == before,
            k <= counts@.len(),
            forall|a: int| 0 <= a < k ==> (#[trigger] counts@[a]).0@ != key@,
            k < counts@.len() ==> counts@[k as int].0@ == key@,
        decreases counts@.len() - k,
    {
        if crate::text::str_eq(counts[k].0.as_str(), key.as_str()) {
            break;
        }
        k = k + 1;
    }
    if k < counts.len() {
        proof { lemma_count_at(before, k as int); }
        let (name, v) = counts.remove(k);
        counts.insert(k, (name, v + 1));
        proof {
            let after = counts@;
            assert(after =~= before.update(k as int, after[k as int]));
            assert forall|a: int, b: int| 0 <= a < after.len() && 0 <= b < after.len() && a != b implies
                (#[trigger] after[a]).0@ != (#[trigger] after[b]).0@ by {
                assert(after[a].0@ == before[a].0@ && after[b].0@ == before[b].0@);
            }
            assert forall|c: Seq<char>| #[trigger] is_counted(after, c) == (is_counted(before, c) || c == key@) by {
                if is_counted(after, c) {
                    let a = choose|a: int| 0 <= a < after.len() && (#[trigger] after[a]).0@ == c;
                    assert(before[a].0@ == c);
                }
                if is_counted(before, c) {
                    let a = choose|a: int| 0 <= a < before.len() && (#[trigger] before[a]).0@ == c;
                    assert(after[a].0@ == c);
                }
                if c == key@ {
                    assert(after[k as int].0@ == c);
                }
            }
            assert forall|c: Seq<char>| #[trigger] count_of(after, c) == count_of(before, c) + (if c == key@ { 1nat } else { 0nat }) by {
                if is_counted(after, c) {
                    let a = choose|a: int| 0 <= a < after.len() && (#[trigger] after[a]).0@ == c;
                    lemma_count_at(after, a);
                    lemma_count_at(before, a);
                }
            }
        }
    } else {
        counts.push((key.clone(), 1));
        proof {
            let after = counts@;
            let n = before.len() as int;
            assert(!is_counted(before, key@)) by {
                if is_counted(before, key@) {
                    let a = choose|a: int| 0 <= a < before.len() && (#[trigger] before[a]).0@ == key@;
                    assert(before[a].0@ != key@);
                }
            }
            assert forall|a: int, b: int| 0 <= a < after.len() && 0 <= b < after.len() && a != b implies
                (#[trigger] after[a]).0@ != (#[trigger] after[b]).0@ by {
                if a < n { assert(after[a] == before[a]); }
                if b < n { assert(after[b] == before[b]); }
            }
            assert forall|c: Seq<char>| #[trigger] is_counted(after, c) == (is_counted(before, c) || c == key@) by {
                if is_counted(after, c) {
                    let a = choose|a: int| 0 <= a < after.len() && (#[trigger] after[a]).0@ == c;
                    if a < n { assert(before[a].0@ == c); }
                }
                if is_counted(before, c) {
                    let a = choose|a: int| 0 <= a < before.len() && (#[trigger] before[a]).0@ == c;
                    assert(after[a].0@ == c);
                }
                if c == key@ {
                    assert(after[n].0@ == c);
                }
            }
            assert forall|c: Seq<char>| #[trigger] count_of(after, c) == count_of(before, c) + (if c == key@ { 1nat } else { 0nat }) by {
                if is_counted(after, c) {
                    let a = choose|a: int| 0 <= a < after.len() && (#[trigger] after[a]).0@ == c;
                    lemma_count_at(after, a);
                    if a < n {
                        assert(after[a] == before[a]);
                        lemma_count_at(before, a);
                    }
                }
            }
        }
    }
}

proof fn lemma_occurrences_bounded(t: Seq<Seq<char>>, c: Seq<char>)
    ensures
        occurrences(t, c) <= t.len(),
    decreases t.len(),
{
    if t.len() > 0 {
        lemma_occurrences_bounded(t.drop_last(), c);
    }
}

proof fn lemma_capability_count_bounded(s: Seq<EntryView>, c: Seq<char>)
    ensures
        capability_count(s, c) <= total_capabilities(s),
    decreases s.len(),
{
    if s.len() > 0 {
        lemma_capability_count_bounded(s.drop_last(), c);
        lemma_occurrences_bounded(s.last().metadata.capabilities, c);
    }
}

proof fn lemma_total_take_mono(s: Seq<EntryView>, i: int)
    requires
        0 <= i <= s.len(),
    ensures
        total_capabilities(s.take(i)) <= total_capabilities(s),
    decreases s.len() - i,
{
    if i < s.len() {
        lemma_total_take_mono(s, i + 1);
        assert(s.take(i + 1).drop_last() =~= s.take(i));
    } else {
        assert(s.take(i) =~= s);
    }
}

impl PluginRegistry {
    /// Count the capabilities of entries, all entries' capabilities being
    /// no more than a `usize` can count.
    pub fn stats(&self) -> (r: PluginRegistryStats)
        requires
            total_capabilities(self.entry_seq()) <= usize::MAX,
        ensures
            r.total_plugins == self.entry_seq().len(),
            r.loaded_plugins == self.entry_seq().filter(|e: EntryView| e.loaded).len(),
            r.unloaded_plugins == self.entry_seq().filter(|e: EntryView| !e.loaded).len(),
            count_keys_distinct(r.capabilities@),
            forall|a: int| 0 <= a < r.capabilities@.len() ==>
                (#[trigger] r.capabilities@[a]).1 == capability_count(self.entry_seq(), r.capabilities@[a].0@)
                && r.capabilities@[a].1 > 0,
            forall|c: Seq<char>| capability_count(self.entry_seq(), c) > 0 ==> #[trigger] is_counted(r.capabilities@, c),
    {
        let total = self.entries.len();
        let loaded = self.list_loaded().len();
        let unloaded = self.list_unloaded().len();
        let ghost s = self.entry_seq();
        let mut counts: Vec<(String, usize)> = Vec::new();
        let mut i: usize = 0;
        assert(s.take(0) =~= Seq::<EntryView>::empty());
        while i < self.entries.len()
            invariant
                i <= self.entries@.len(),
                s == self.entry_seq(),
                total_capabilities(s) <= usize::MAX,
                count_keys_distinct(counts@),
                forall|a: int| 0 <= a < counts@.len() ==> (#[trigger] counts@[a]).1 > 0,
                forall|c: Seq<char>| #[trigger] count_of(counts@, c) == capability_count(s.take(i as int), c),
                forall|c: Seq<char>| #[trigger] is_counted(counts@, c) == (capability_count(s.take(i as int), c) > 0),
            decreases self.entries@.len() - i,
        {
            let caps = &self.entries[i].metadata.capabilities;
            let ghost cv = caps.deep_view();
            assert(cv == s[i as int].metadata.capabilities);
            let mut j: usize = 0;
            assert(cv.take(0) =~= Seq::<Seq<char>>::empty());
            proof {
                lemma_total_take_mono(s, i + 1);
                assert(s.take(i + 1).drop_last() =~= s.take(i as int));
                assert(s.take(i + 1).last() == s[i as int]);
            }
            while j < caps.len()
                invariant
                    i < self.entries@.len(),
                    j <= caps@.len(),
                    cv == caps.deep_view(),
                    cv == s[i as int].metadata.capabilities,
                    s == self.entry_seq(),
                    total_capabilities(s.take(i as int)) + cv.len() <= usize::MAX,
                    count_keys_distinct(counts@),
                    forall|a: int| 0 <= a < counts@.len() ==> (#[trigger] counts@[a]).1 > 0,
                    forall|c: Seq<char>| #[trigger] count_of(counts@, c)
                        == capability_count(s.take(i as int), c) + occurrences(cv.take(j as int), c),
                    forall|c: Seq<char>| #[trigger] is_counted(counts@, c)
                        == (capability_count(s.take(i as int), c) + occurrences(cv.take(j as int), c) > 0),
                decreases caps@.len() - j,
            {
                let key = &caps[j];
                proof {
                    assert(cv.take(j + 1).drop_last() =~= cv.take(j as int));
                    assert(cv.take(j + 1).last() == key@);
                    lemma_capability_count_bounded(s.take(i as int), key@);
                    lemma_occurrences_bounded(cv.take(j as int), key@);
                }
                bump_key(&mut counts, key);
                j = j + 1;
            }
            proof {
                assert(cv.take(cv.len() as int) =~= cv);
            }
            i = i + 1;
        }
        assert(s.take(s.len() as int) =~= s);
        proof {
            assert forall|a: int| 0 <= a < counts@.len() implies
                (#[trigger] counts@[a]).1 == capability_count(s, counts@[a].0@) && counts@[a].1 > 0 by {
                lemma_count_at(counts@, a);
            }
        }
        PluginRegistryStats {
            total_plugins: total,
            loaded_plugins: loaded,
            unloaded_plugins: unloaded,
            capabilities: counts,
        }
    }
}

} // verus!
