//! The plugin scanner's bookkeeping: the cache of scanned plugin files, the
//! blacklist, and the searches over the cache.
//!
//! Reading directories, file times and the cache file is left to the
//! caller, which hands the scanner plain values (paths and modification
//! times) and stores what `cache_entries` gives back.

use crate::plugin::clap_integration::strings_view;
use crate::plugin::error::PluginError;
use crate::plugin::parameters::{
    new_descriptor_view, PluginCategory, PluginDescriptor, PluginDescriptorView,
};
use crate::text::{contains_text, text_contains};
use vstd::prelude::*;

verus! {

/// Plugin cache entry: the scanned file, its modification time (seconds
/// since the Unix epoch) and the descriptor found in it.
#[derive(Debug, Clone)]
pub struct CacheEntry {
    pub file_path: String,
    pub last_modified: u64,
    pub descriptor: PluginDescriptor,
}

/// What a cache entry holds, as plain values.
pub ghost struct CacheEntryView {
    pub file_path: Seq<char>,
    pub last_modified: u64,
    pub descriptor: PluginDescriptorView,
}

impl View for CacheEntry {
    type V = CacheEntryView;

    open spec fn view(&self) -> CacheEntryView {
        CacheEntryView {
            file_path: self.file_path@,
            last_modified: self.last_modified,
            descriptor: self.descriptor@,
        }
    }
}

impl CacheEntry {
    /// A copy of this entry.
    pub fn duplicate(&self) -> (r: Self)
        ensures
            r@ == self@,
    {
        CacheEntry {
            file_path: self.file_path.clone(),
            last_modified: self.last_modified,
            descriptor: self.descriptor.duplicate(),
        }
    }
}

/// Cache statistics.
#[derive(Debug, Clone)]
pub struct CacheStats {
    pub total_plugins: usize,
    pub blacklisted_plugins: usize,
}

/// The cache as plain values: pairs of a path and its entry.
pub type CacheView = Seq<(Seq<char>, CacheEntryView)>;

/// The view of a list of keyed entries.
pub open spec fn cache_view(v: Seq<(String, CacheEntry)>) -> CacheView {
    v.map_values(|e: (String, CacheEntry)| (e.0@, e.1@))
}

/// Whether every path occurs at most once.
pub open spec fn keys_unique(c: CacheView) -> bool {
    forall|i: int, j: int|
        0 <= i < c.len() && 0 <= j < c.len() && i != j ==> #[trigger] c[i].0 != #[trigger] c[j].0
}

/// Whether `key` has an entry.
pub open spec fn has_key(c: CacheView, key: Seq<char>) -> bool {
    exists|i: int| 0 <= i < c.len() && #[trigger] c[i].0 == key
}

/// The position of the entry of `key` (meaningful when `has_key`).
pub open spec fn key_index(c: CacheView, key: Seq<char>) -> int {
    choose|i: int| 0 <= i < c.len() && #[trigger] c[i].0 == key
}

/// The cache after storing `e` under `key`: an existing entry of `key` is
/// replaced where it stands, a new key comes last.
pub open spec fn cache_insert(c: CacheView, key: Seq<char>, e: CacheEntryView) -> CacheView {
    if has_key(c, key) {
        c.update(key_index(c, key), (key, e))
    } else {
        c.push((key, e))
    }
}

/// The cache after storing each of `entries` in order.
pub open spec fn cache_insert_all(c: CacheView, entries: CacheView) -> CacheView
    decreases entries.len(),
{
    if entries.len() == 0 {
        c
    } else {
        cache_insert(
            cache_insert_all(c, entries.drop_last()),
            entries.last().0,
            entries.last().1,
        )
    }
}

/// Storing under a key keeps the keys unique.
pub proof fn lemma_insert_keeps_keys_unique(c: CacheView, key: Seq<char>, e: CacheEntryView)
    requires
        keys_unique(c),
    ensures
        keys_unique(cache_insert(c, key, e)),
        has_key(cache_insert(c, key, e), key),
{
    let r = cache_insert(c, key, e);
    if has_key(c, key) {
        let k = key_index(c, key);
        assert(r[k].0 == key);
    } else {
        assert(r[c.len() as int].0 == key);
    }
}

/// A scanned file is found again: after storing an entry under a path, the
/// entry of that path is the stored one, whatever the cache held before.
pub proof fn law_stored_entry_is_found(c: CacheView, key: Seq<char>, e: CacheEntryView)
    requires
        keys_unique(c),
    ensures
        has_key(cache_insert(c, key, e), key),
        cache_insert(c, key, e)[key_index(cache_insert(c, key, e), key)] == (key, e),
{
    lemma_insert_keeps_keys_unique(c, key, e);
    let r = cache_insert(c, key, e);
    let k = if has_key(c, key) {
        key_index(c, key)
    } else {
        c.len() as int
    };
    assert(r[k] == (key, e));
    let j = key_index(r, key);
    assert(r[j].0 == key);
    assert(j == k);
}

/// The descriptor that scanning a file without loading it gives: named
/// after the file's stem ("unknown" when it has none), version "1.0.0",
/// vendor "Unknown Vendor", described as "A CLAP plugin", an effect.
pub open spec fn placeholder_view(file_path: Seq<char>) -> PluginDescriptorView {
    let stem = match file_stem_of(file_path) {
        Some(s) => s,
        None => "unknown"@,
    };
    PluginDescriptorView {
        version: "1.0.0"@,
        vendor: "Unknown Vendor"@,
        description: "A CLAP plugin"@,
        category: PluginCategory::Effect,
        ..new_descriptor_view(stem, stem + " Plugin"@, file_path)
    }
}

/// The file stem of a path (`std::path::Path::file_stem`): the file name
/// without its last extension; none when the path has no file name.
pub uninterp spec fn file_stem_of(path: Seq<char>) -> Option<Seq<char>>;

/// Wraps `std::path::Path::file_stem`: the stem of the last component of
/// `path`. A stem of a `&str` path is always valid UTF-8, so the
/// conversion back to text cannot fail.
#[verifier::external_body]
fn path_file_stem(path: &str) -> (r: Option<String>)
    ensures
        match r {
            Some(s) => file_stem_of(path@) == Some(s@),
            None => file_stem_of(path@) is None,
        },
{
    std::path::Path::new(path).file_stem().and_then(|s| s.to_str()).map(|s| s.to_string())
}

/// The lower-case form of a text (`str::to_lowercase`, Unicode rules).
pub uninterp spec fn lowercase(s: Seq<char>) -> Seq<char>;

/// Wraps `str::to_lowercase`.
#[verifier::external_body]
fn to_lowercase(s: &str) -> (r: String)
    ensures
        r@ == lowercase(s@),
{
    s.to_lowercase()
}

/// The descriptors of the entries that satisfy `keep`, in cache order.
pub open spec fn descriptors_where(
    c: CacheView,
    keep: spec_fn(PluginDescriptorView) -> bool,
) -> Seq<PluginDescriptorView>
    decreases c.len(),
{
    if c.len() == 0 {
        Seq::empty()
    } else {
        let rest = descriptors_where(c.drop_last(), keep);
        if keep(c.last().1.descriptor) {
            rest.push(c.last().1.descriptor)
        } else {
            rest
        }
    }
}

/// Whether a descriptor's name contains `query`, ignoring case.
pub open spec fn name_matches(query: Seq<char>) -> spec_fn(PluginDescriptorView) -> bool {
    |d: PluginDescriptorView| contains_text(lowercase(d.name), lowercase(query))
}

/// Whether a descriptor's vendor contains `query`, ignoring case.
pub open spec fn vendor_matches(query: Seq<char>) -> spec_fn(PluginDescriptorView) -> bool {
    |d: PluginDescriptorView| contains_text(lowercase(d.vendor), lowercase(query))
}

/// Whether a descriptor is of category `category`.
pub open spec fn category_matches(category: PluginCategory) -> spec_fn(PluginDescriptorView) -> bool {
    |d: PluginDescriptorView| d.category == category
}

/// Every descriptor.
pub open spec fn any_descriptor() -> spec_fn(PluginDescriptorView) -> bool {
    |d: PluginDescriptorView| true
}

/// The views of a list of descriptor references.
pub open spec fn found_view(v: Seq<&PluginDescriptor>) -> Seq<PluginDescriptorView> {
    v.map_values(|d: &PluginDescriptor| d@)
}

/// Whether some blacklisted text occurs in `path`.
pub open spec fn is_blacklisted_in(blacklist: Seq<Seq<char>>, path: Seq<char>) -> bool {
    exists|i: int| 0 <= i < blacklist.len() && contains_text(path, #[trigger] blacklist[i])
}

/// The blacklist without the entries equal to `id`, in order.
pub open spec fn without(blacklist: Seq<Seq<char>>, id: Seq<char>) -> Seq<Seq<char>> {
    blacklist.filter(|b: Seq<char>| b != id)
}

/// Plugin scanner for discovering and caching CLAP plugins.
pub struct PluginScanner {
    cache_path: String,
    cache: Vec<(String, CacheEntry)>,
    blacklist: Vec<String>,
}

impl PluginScanner {
    /// Where the cache is saved.
    pub closed spec fn spec_cache_path(&self) -> Seq<char> {
        self.cache_path@
    }

    /// The cached entries, by path, in the order in which they were first stored.
    pub closed spec fn spec_cache(&self) -> CacheView {
        cache_view(self.cache@)
    }

    /// The blacklisted texts, in the order in which they were added.
    pub closed spec fn spec_blacklist(&self) -> Seq<Seq<char>> {
        strings_view(self.blacklist@)
    }

    /// Well-formedness: each path is cached once.
    pub open spec fn wf(&self) -> bool {
        keys_unique(self.spec_cache())
    }

    /// A scanner saving its cache at `cache_path`, holding the entries read
    /// from it (a later entry replaces an earlier one of the same path), and
    /// an empty blacklist.
    pub fn new(cache_path: String, cached: Vec<(String, CacheEntry)>) -> (r: Self)
        ensures
            r.wf(),
            r.spec_cache_path() == cache_path@,
            r.spec_cache() == cache_insert_all(Seq::empty(), cache_view(cached@)),
            r.spec_blacklist() == Seq::<Seq<char>>::empty(),
    {
        let mut r = PluginScanner { cache_path, cache: Vec::new(), blacklist: Vec::new() };
        let ghost all = cache_view(cached@);
        assert(r.spec_cache() =~= Seq::<(Seq<char>, CacheEntryView)>::empty());
        assert(r.spec_blacklist() =~= Seq::<Seq<char>>::empty());
        let ghost n = all.len();
        let mut i: usize = 0;
        while i < cached.len()
            invariant
                r.wf(),
                r.spec_cache_path() == cache_path@,
                r.spec_blacklist() == Seq::<Seq<char>>::empty(),
                n == all.len(),
                all == cache_view(cached@),
                i <= n,
                r.spec_cache() == cache_insert_all(Seq::empty(), all.take(i as int)),
            decreases cached.len() - i,
        {
            let key = cached[i].0.clone();
            let entry = cached[i].1.duplicate();
            proof {
                assert(all.take(i + 1).drop_last() =~= all.take(i as int));
                assert(all.take(i + 1).last() == all[i as int]);
            }
            r.store(key, entry);
            i = i + 1;
        }
        assert(all.take(n as int) =~= all);
        r
    }

    /// The position of the entry of `key`, if any.
    fn find_key(&self, key: &str) -> (r: Option<usize>)
        ensures
            match r {
                Some(i) => i < self.cache@.len() && self.spec_cache()[i as int].0 == key@,
                None => !has_key(self.spec_cache(), key@),
            },
    {
        let k = key.to_owned();
        let mut i: usize = 0;
        while i < self.cache.len()
            invariant
                i <= self.cache@.len(),
                k@ == key@,
                forall|j: int| 0 <= j < i ==> #[trigger] self.spec_cache()[j].0 != key@,
            decreases self.cache@.len() - i,
        {
            assert(self.spec_cache()[i as int].0 == self.cache@[i as int].0@);
            if self.cache[i].0 == k {
                return Some(i);
            }
            i = i + 1;
        }
        None
    }

    /// Stores `entry` under `key`, replacing the entry of that key.
    fn store(&mut self, key: String, entry: CacheEntry)
        requires
            old(self).wf(),
        ensures
            final(self).wf(),
            final(self).spec_cache() == cache_insert(old(self).spec_cache(), key@, entry@),
            final(self).spec_cache_path() == old(self).spec_cache_path(),
            final(self).spec_blacklist() == old(self).spec_blacklist(),
    {
        let ghost before = self.spec_cache();
        let ghost e = entry@;
        proof {
            lemma_insert_keeps_keys_unique(before, key@, e);
        }
        match self.find_key(key.as_str()) {
            Some(i) => {
                proof {
                    let k = key_index(before, key@);
                    assert(before[k].0 == key@);
                    assert(k == i);
                }
                self.cache.set(i, (key, entry));
                assert(self.spec_cache() =~= cache_insert(before, key@, e));
            },
            None => {
                self.cache.push((key, entry));
                assert(self.spec_cache() =~= cache_insert(before, key@, e));
            },
        }
    }

    /// Whether some blacklisted text occurs in `file_path`.
    pub fn is_blacklisted(&self, file_path: &str) -> (r: bool)
        ensures
            r == is_blacklisted_in(self.spec_blacklist(), file_path@),
    {
        let mut i: usize = 0;
        while i < self.blacklist.len()
            invariant
                i <= self.blacklist@.len(),
                forall|j: int|
                    0 <= j < i ==> !contains_text(file_path@, #[trigger] self.spec_blacklist()[j]),
            decreases self.blacklist@.len() - i,
        {
            assert(self.spec_blacklist()[i as int] == self.blacklist@[i as int]@);
            if text_contains(file_path, self.blacklist[i].as_str()) {
                return true;
            }
            i = i + 1;
        }
        false
    }

    /// Refuses a blacklisted file.
    pub fn check_blacklist(&self, file_path: &str) -> (r: Result<(), PluginError>)
        ensures
            r is Ok <==> !is_blacklisted_in(self.spec_blacklist(), file_path@),
            r matches Err(e) ==> (e matches PluginError::LoadFailed(m) && m@
                == "Plugin is blacklisted"@),
    {
        if self.is_blacklisted(file_path) {
            Err(PluginError::LoadFailed(String::from_str("Plugin is blacklisted")))
        } else {
            Ok(())
        }
    }

    /// The descriptor of a plugin file, made up from its name (the file
    /// itself is not opened).
    fn load_plugin_descriptor(&self, file_path: &str) -> (r: Result<PluginDescriptor, PluginError>)
        ensures
            r matches Ok(d) && d@ == placeholder_view(file_path@),
    {
        let stem = match path_file_stem(file_path) {
            Some(s) => s,
            None => String::from_str("unknown"),
        };
        let name = stem.clone().concat(" Plugin");
        let d = PluginDescriptor::new(stem, name, file_path.to_owned()).with_version(
            String::from_str("1.0.0"),
        ).with_vendor(String::from_str("Unknown Vendor")).with_description(
            String::from_str("A CLAP plugin"),
        ).with_category(PluginCategory::Effect);
        Ok(d)
    }

    /// Scans a plugin file last modified at `last_modified`: a blacklisted
    /// file is refused; a file cached with the same time gives its cached
    /// descriptor; any other is described afresh and cached under its path.
    /// The caller reads the time before and saves the cache after.
    pub fn scan_file(&mut self, file_path: &str, last_modified: u64) -> (r: Result<
        PluginDescriptor,
        PluginError,
    >)
        requires
            old(self).wf(),
        ensures
            final(self).wf(),
            final(self).spec_cache_path() == old(self).spec_cache_path(),
            final(self).spec_blacklist() == old(self).spec_blacklist(),
            is_blacklisted_in(old(self).spec_blacklist(), file_path@) ==> {
                &&& r matches Err(PluginError::LoadFailed(m)) && m@ == "Plugin is blacklisted"@
                &&& final(self).spec_cache() == old(self).spec_cache()
            },
            !is_blacklisted_in(old(self).spec_blacklist(), file_path@) ==> {
                let c = old(self).spec_cache();
                let hit = has_key(c, file_path@) && c[key_index(c, file_path@)].1.last_modified
                    == last_modified;
                &&& hit ==> (r matches Ok(d) && d@ == c[key_index(c, file_path@)].1.descriptor)
                &&& hit ==> final(self).spec_cache() == c
                &&& !hit ==> (r matches Ok(d) && d@ == placeholder_view(file_path@))
                &&& !hit ==> final(self).spec_cache() == cache_insert(
                    c,
                    file_path@,
                    CacheEntryView {
                        file_path: file_path@,
                        last_modified,
                        descriptor: placeholder_view(file_path@),
                    },
                )
            },
    {
        self.check_blacklist(file_path)?;
        let ghost c = self.spec_cache();
        if let Some(i) = self.find_key(file_path) {
            proof {
                let k = key_index(c, file_path@);
                assert(c[k].0 == file_path@);
                assert(k == i);
                assert(c[i as int].1 == self.cache@[i as int].1@);
            }
            if self.cache[i].1.last_modified == last_modified {
                return Ok(self.cache[i].1.descriptor.duplicate());
            }
        }
        let descriptor = self.load_plugin_descriptor(file_path)?;
        let entry = CacheEntry {
            file_path: file_path.to_owned(),
            last_modified,
            descriptor: descriptor.duplicate(),
        };
        self.store(file_path.to_owned(), entry);
        Ok(descriptor)
    }

    /// The descriptors of the cached entries that satisfy `keep`, where
    /// `keep_exec` decides `keep` for each of them.
    fn collect_where(
        &self,
        keep: Ghost<spec_fn(PluginDescriptorView) -> bool>,
        keep_exec: impl Fn(&PluginDescriptor) -> bool,
    ) -> (r: Vec<&PluginDescriptor>)
        requires
            forall|d: &PluginDescriptor| #[trigger] keep_exec.requires((d,)),
            forall|d: &PluginDescriptor, b: bool| keep_exec.ensures((d,), b) ==> b == keep@(d@),
        ensures
            found_view(r@) == descriptors_where(self.spec_cache(), keep@),
    {
        let mut r: Vec<&PluginDescriptor> = Vec::new();
        let mut i: usize = 0;
        while i < self.cache.len()
            invariant
                i <= self.cache@.len(),
                forall|d: &PluginDescriptor| #[trigger] keep_exec.requires((d,)),
                forall|d: &PluginDescriptor, b: bool| keep_exec.ensures((d,), b) ==> b == keep@(d@),
                found_view(r@) == descriptors_where(self.spec_cache().take(i as int), keep@),
            decreases self.cache@.len() - i,
        {
            let d = &self.cache[i].1.descriptor;
            let ghost before = r@;
            proof {
                let c = self.spec_cache();
                assert(c.take(i + 1).drop_last() =~= c.take(i as int));
                assert(c.take(i + 1).last() == c[i as int]);
                assert(c[i as int].1.descriptor == d@);
            }
            if keep_exec(d) {
                r.push(d);
                assert(found_view(r@) =~= found_view(before).push(d@));
            }
            i = i + 1;
        }
        assert(self.spec_cache().take(i as int) =~= self.spec_cache());
        r
    }

    /// The cached plugins whose name contains `name`, ignoring case, in cache order.
    pub fn search_by_name(&self, name: &str) -> (r: Vec<&PluginDescriptor>)
        ensures
            found_view(r@) == descriptors_where(self.spec_cache(), name_matches(name@)),
    {
        let query = to_lowercase(name);
        let keep = |d: &PluginDescriptor| -> (b: bool)
            ensures
                b == contains_text(lowercase(d@.name), lowercase(name@)),
            { text_contains(to_lowercase(d.name.as_str()).as_str(), query.as_str()) };
        self.collect_where(Ghost(name_matches(name@)), keep)
    }

    /// The cached plugins whose vendor contains `vendor`, ignoring case, in cache order.
    pub fn search_by_vendor(&self, vendor: &str) -> (r: Vec<&PluginDescriptor>)
        ensures
            found_view(r@) == descriptors_where(self.spec_cache(), vendor_matches(vendor@)),
    {
        let query = to_lowercase(vendor);
        let keep = |d: &PluginDescriptor| -> (b: bool)
            ensures
                b == contains_text(lowercase(d@.vendor), lowercase(vendor@)),
            { text_contains(to_lowercase(d.vendor.as_str()).as_str(), query.as_str()) };
        self.collect_where(Ghost(vendor_matches(vendor@)), keep)
    }

    /// The cached plugins of category `category`, in cache order.
    pub fn search_by_category(&self, category: PluginCategory) -> (r: Vec<&PluginDescriptor>)
        ensures
            found_view(r@) == descriptors_where(self.spec_cache(), category_matches(category)),
    {
        let keep = |d: &PluginDescriptor| -> (b: bool)
            ensures
                b == (d@.category == category),
            { d.category == category };
        self.collect_where(Ghost(category_matches(category)), keep)
    }

    /// All cached plugins, in cache order.
    pub fn get_all_plugins(&self) -> (r: Vec<&PluginDescriptor>)
        ensures
            found_view(r@) == descriptors_where(self.spec_cache(), any_descriptor()),
    {
        let keep = |d: &PluginDescriptor| -> (b: bool)
            ensures
                b,
            { true };
        self.collect_where(Ghost(any_descriptor()), keep)
    }

    /// Adds a text to the blacklist, after the others.
    pub fn add_to_blacklist(&mut self, plugin_id: String)
        ensures
            final(self).spec_blacklist() == old(self).spec_blacklist().push(plugin_id@),
            final(self).spec_cache() == old(self).spec_cache(),
            final(self).spec_cache_path() == old(self).spec_cache_path(),
    {
        let ghost before = self.blacklist@;
        self.blacklist.push(plugin_id);
        assert(strings_view(self.blacklist@) =~= strings_view(before).push(plugin_id@));
    }

    /// Removes every blacklist entry equal to `plugin_id`, keeping the order
    /// of the others.
    pub fn remove_from_blacklist(&mut self, plugin_id: &str)
        ensures
            final(self).spec_blacklist() == without(old(self).spec_blacklist(), plugin_id@),
            final(self).spec_cache() == old(self).spec_cache(),
            final(self).spec_cache_path() == old(self).spec_cache_path(),
    {
        let ghost all = self.spec_blacklist();
        let key = plugin_id.to_owned();
        let mut kept: Vec<String> = Vec::new();
        let mut i: usize = 0;
        while i < self.blacklist.len()
            invariant
                i <= self.blacklist@.len(),
                all == strings_view(self.blacklist@),
                key@ == plugin_id@,
                strings_view(kept@) == without(all.take(i as int), plugin_id@),
            decreases self.blacklist@.len() - i,
        {
            let ghost before = kept@;
            proof {
                assert(all.take(i + 1).drop_last() =~= all.take(i as int));
                assert(all.take(i + 1).last() == self.blacklist@[i as int]@);
                assert(without(all.take(i + 1), plugin_id@) == {
                    let f = without(all.take(i as int), plugin_id@);
                    if self.blacklist@[i as int]@ != plugin_id@ {
                        f.push(self.blacklist@[i as int]@)
                    } else {
                        f
                    }
                }) by {
                    all.take(i + 1).filter_lemma(|b: Seq<char>| b != plugin_id@);
                    reveal(Seq::filter);
                }
            }
            if self.blacklist[i] != key {
                kept.push(self.blacklist[i].clone());
                assert(strings_view(kept@) =~= strings_view(before).push(self.blacklist@[i as int]@));
            }
            i = i + 1;
        }
        assert(all.take(i as int) =~= all);
        self.blacklist = kept;
    }

    /// The blacklist, in the order in which its entries were added.
    pub fn get_blacklist(&self) -> (r: &[String])
        ensures
            strings_view(r@) == self.spec_blacklist(),
    {
        self.blacklist.as_slice()
    }

    /// Empties the cache (the caller saves it).
    pub fn clear_cache(&mut self)
        ensures
            final(self).wf(),
            final(self).spec_cache() == Seq::<(Seq<char>, CacheEntryView)>::empty(),
            final(self).spec_blacklist() == old(self).spec_blacklist(),
            final(self).spec_cache_path() == old(self).spec_cache_path(),
    {
        self.cache.clear();
        assert(self.spec_cache() =~= Seq::<(Seq<char>, CacheEntryView)>::empty());
    }

    /// How many plugins are cached and how many texts are blacklisted.
    pub fn get_cache_stats(&self) -> (r: CacheStats)
        ensures
            r.total_plugins == self.spec_cache().len(),
            r.blacklisted_plugins == self.spec_blacklist().len(),
    {
        CacheStats { total_plugins: self.cache.len(), blacklisted_plugins: self.blacklist.len() }
    }

    /// Where the cache is saved.
    pub fn cache_path(&self) -> (r: &str)
        ensures
            r@ == self.spec_cache_path(),
    {
        self.cache_path.as_str()
    }

    /// The cached entries, by path, in cache order: what is saved.
    pub fn cache_entries(&self) -> (r: Vec<(String, CacheEntry)>)
        ensures
            cache_view(r@) == self.spec_cache(),
    {
        let mut r: Vec<(String, CacheEntry)> = Vec::new();
        let mut i: usize = 0;
        while i < self.cache.len()
            invariant
                i <= self.cache@.len(),
                cache_view(r@) == self.spec_cache().take(i as int),
            decreases self.cache@.len() - i,
        {
            let ghost before = r@;
            let e = (self.cache[i].0.clone(), self.cache[i].1.duplicate());
            r.push(e);
            proof {
                assert(cache_view(r@) =~= cache_view(before).push((e.0@, e.1@)));
                assert(self.spec_cache()[i as int] == (self.cache@[i as int].0@, self.cache@[i as int].1@));
                assert(self.spec_cache().take(i + 1) =~= self.spec_cache().take(i as int).push(
                    self.spec_cache()[i as int],
                ));
            }
            i = i + 1;
        }
        assert(self.spec_cache().take(i as int) =~= self.spec_cache());
        r
    }
}

} // verus!
