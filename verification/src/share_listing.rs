//! The listing of a shared directory: the entries on screen, the listings
//! already fetched per node and path, and which load is the current one.
//!
//! A load is answered from the cache when it can be; otherwise it is tagged
//! with a sequence number, and its result is applied only while that number,
//! the browsed node and the path are still the current ones.

use vstd::prelude::*;
use crate::asset_map::AssetMap;
use crate::text::{
    clone_opt, str_eq, string_from, chars_of, chars_eq_ignore_ascii_case, eq_ignore_ascii_case, push_str,
};
use crate::cluster::join;
use crate::text::opt_seq;
use crate::find::{first_where, lemma_first_where_found, lemma_first_where_none};

verus! {

/// One entry of a shared directory.
pub struct ShareEntry {
    pub entry_id: Option<String>,
    pub name: String,
    pub kind: String,
    pub size: u64,
    pub modified_at: u64,
    pub local: bool,
    pub volume_id: Option<String>,
    pub version_id: Option<String>,
    pub version_author: Option<String>,
}

impl ShareEntry {
    /// A copy of the entry.
    pub fn duplicate(&self) -> (r: ShareEntry)
        ensures
            r == *self,
    {
        ShareEntry {
            entry_id: clone_opt(&self.entry_id),
            name: self.name.clone(),
            kind: self.kind.clone(),
            size: self.size,
            modified_at: self.modified_at,
            local: self.local,
            volume_id: clone_opt(&self.volume_id),
            version_id: clone_opt(&self.version_id),
            version_author: clone_opt(&self.version_author),
        }
    }
}

/// A copy of a listing.
pub fn clone_entries(v: &[ShareEntry]) -> (r: Vec<ShareEntry>)
    ensures
        r@ == v@,
{
    let mut r: Vec<ShareEntry> = Vec::new();
    let mut i: usize = 0;
    while i < v.len()
        invariant
            i <= v@.len(),
            r@ == v@.take(i as int),
        decreases v@.len() - i,
    {
        r.push(v[i].duplicate());
        i = i + 1;
        assert(r@ =~= v@.take(i as int));
    }
    assert(v@.take(i as int) =~= v@);
    r
}

/// The listings cached per node, then per path.
type ListingCache = AssetMap<AssetMap<Vec<ShareEntry>>>;

/// Every level of the cache is well formed.
pub open spec fn cache_wf(c: AssetMap<AssetMap<Vec<ShareEntry>>>) -> bool {
    &&& c.wf()
    &&& forall|k: Seq<char>| #[trigger] c.view_map().contains_key(k) ==> c.view_map()[k].wf()
}

/// The listing cached for `node` and `path`, if any.
pub open spec fn cache_get(c: AssetMap<AssetMap<Vec<ShareEntry>>>, node: Seq<char>, path: Seq<char>) -> Option<
    Seq<ShareEntry>,
> {
    if c.view_map().contains_key(node) && c.view_map()[node].view_map().contains_key(path) {
        Some(c.view_map()[node].view_map()[path]@)
    } else {
        None
    }
}

/// The cache as one map from (node, path) to listing.
pub open spec fn cache_map(c: AssetMap<AssetMap<Vec<ShareEntry>>>) -> Map<(Seq<char>, Seq<char>), Seq<ShareEntry>> {
    Map::new(
        |k: (Seq<char>, Seq<char>)| cache_get(c, k.0, k.1) is Some,
        |k: (Seq<char>, Seq<char>)| cache_get(c, k.0, k.1)->0,
    )
}

fn cache_lookup<'a>(c: &'a ListingCache, node: &str, path: &str) -> (r: Option<&'a Vec<ShareEntry>>)
    requires
        cache_wf(*c),
    ensures
        match r {
            Some(v) => cache_map(*c).contains_key((node@, path@)) && cache_map(*c)[(node@, path@)] == v@,
            None => !cache_map(*c).contains_key((node@, path@)),
        },
{
    match c.get(node) {
        Some(inner) => inner.get(path),
        None => None,
    }
}

fn cache_store(c: &mut ListingCache, node: &str, path: &str, listing: Vec<ShareEntry>)
    requires
        cache_wf(*old(c)),
    ensures
        cache_wf(*final(c)),
        cache_map(*final(c)) == cache_map(*old(c)).insert((node@, path@), listing@),
{
    let ghost before = cache_map(*c);
    let mut inner = match c.remove(node) {
        Some(i) => i,
        None => AssetMap::new(),
    };
    let ghost l = listing@;
    inner.insert(string_from(path), listing);
    c.insert(string_from(node), inner);
    proof {
        assert forall|k: Seq<char>| #[trigger] c.view_map().contains_key(k) implies c.view_map()[k].wf() by {
            if k != node@ {
                assert(old(c).view_map().contains_key(k));
            }
        }
        assert forall|k: (Seq<char>, Seq<char>)| #[trigger] cache_map(*c).contains_key(k) == before.insert((node@, path@), l).contains_key(k) by {
            if k.0 != node@ {
                assert(c.view_map()[k.0] == old(c).view_map()[k.0]);
            }
        }
        assert forall|k: (Seq<char>, Seq<char>)| #[trigger] cache_map(*c).contains_key(k) implies cache_map(*c)[k] == before.insert((node@, path@), l)[k] by {
            if k.0 != node@ {
                assert(c.view_map()[k.0] == old(c).view_map()[k.0]);
            }
        }
        assert(cache_map(*c) =~= before.insert((node@, path@), l));
    }
}

fn cache_forget(c: &mut ListingCache, node: &str, path: &str)
    requires
        cache_wf(*old(c)),
    ensures
        cache_wf(*final(c)),
        cache_map(*final(c)) == cache_map(*old(c)).remove((node@, path@)),
{
    let ghost before = cache_map(*c);
    match c.remove(node) {
        Some(mut inner) => {
            let _ = inner.remove(path);
            c.insert(string_from(node), inner);
            proof {
                assert forall|k: Seq<char>| #[trigger] c.view_map().contains_key(k) implies c.view_map()[k].wf() by {
                    if k != node@ {
                        assert(old(c).view_map().contains_key(k));
                    }
                }
                assert forall|k: (Seq<char>, Seq<char>)| #[trigger] cache_map(*c).contains_key(k) == before.remove((node@, path@)).contains_key(k) by {
                    if k.0 != node@ {
                        assert(c.view_map()[k.0] == old(c).view_map()[k.0]);
                    }
                }
                assert forall|k: (Seq<char>, Seq<char>)| #[trigger] cache_map(*c).contains_key(k) implies cache_map(*c)[k] == before.remove((node@, path@))[k] by {
                    if k.0 != node@ {
                        assert(c.view_map()[k.0] == old(c).view_map()[k.0]);
                    }
                }
                assert(cache_map(*c) =~= before.remove((node@, path@)));
            }
        },
        None => {
            proof {
                assert forall|k: Seq<char>| #[trigger] c.view_map().contains_key(k) implies c.view_map()[k].wf() by {
                    assert(old(c).view_map().contains_key(k));
                }
                assert(cache_map(*c) =~= before.remove((node@, path@)));
            }
        },
    }
}

/// The value of a listing state.
pub struct ListingView {
    pub entries: Seq<ShareEntry>,
    pub cache: Map<(Seq<char>, Seq<char>), Seq<ShareEntry>>,
    pub error: Option<Seq<char>>,
    pub loading: bool,
    pub load_seq: u64,
    pub selected: Option<Seq<char>>,
}

/// What a load asks of the caller.
#[derive(Debug, Clone, Copy, PartialEq, Eq, Structural)]
pub enum ShareLoadStep {
    /// The listing was cached and is now on screen: nothing to fetch.
    Served,
    /// Fetch the listing and hand it back tagged with `seq`.
    Fetch { seq: u64 },
}

/// The load counter after one step (it wraps).
pub open spec fn next_seq(s: u64) -> u64 {
    if s == u64::MAX {
        0
    } else {
        (s + 1) as u64
    }
}

/// Some entry of the listing is called `name`.
pub open spec fn names_entry(entries: Seq<ShareEntry>, name: Seq<char>) -> bool {
    exists|i: int| 0 <= i < entries.len() && (#[trigger] entries[i]).name@ == name
}

/// The selection kept across a new listing: dropped when no entry bears
/// its name.
pub open spec fn kept_selection(sel: Option<Seq<char>>, entries: Seq<ShareEntry>) -> Option<Seq<char>> {
    match sel {
        Some(n) => if names_entry(entries, n) {
            Some(n)
        } else {
            None
        },
        None => None,
    }
}

/// A cached listing put on screen.
pub open spec fn serve_spec(s: ListingView, listing: Seq<ShareEntry>) -> ListingView {
    ListingView {
        entries: listing,
        cache: s.cache,
        error: None,
        loading: false,
        load_seq: next_seq(s.load_seq),
        selected: kept_selection(s.selected, listing),
    }
}

/// A load of `path` on `node`: served from the cache unless `force` or
/// nothing is cached; else a new fetch is tagged (a forced load first drops
/// the cached listing).
pub open spec fn begin_spec(s: ListingView, node: Seq<char>, path: Seq<char>, force: bool) -> (
    ListingView,
    ShareLoadStep,
) {
    let key = (node, path);
    if !force && s.cache.contains_key(key) {
        (serve_spec(s, s.cache[key]), ShareLoadStep::Served)
    } else {
        let seq = next_seq(s.load_seq);
        (
            ListingView {
                entries: s.entries,
                cache: if force {
                    s.cache.remove(key)
                } else {
                    s.cache
                },
                error: None,
                loading: true,
                load_seq: seq,
                selected: s.selected,
            },
            ShareLoadStep::Fetch { seq },
        )
    }
}

/// A fetch result is still wanted: its tag is the current one and the
/// browsed node and path are those it was fetched for.
pub open spec fn still_current(
    s: ListingView,
    seq: u64,
    node: Seq<char>,
    path: Seq<char>,
    browsing: Option<Seq<char>>,
    current_path: Seq<char>,
) -> bool {
    s.load_seq == seq && browsing == Some(node) && current_path == path
}

/// A fetch result applied: dropped when no longer current; a listing is
/// cached and shown; an error empties the listing and is shown.
pub open spec fn apply_spec(
    s: ListingView,
    seq: u64,
    node: Seq<char>,
    path: Seq<char>,
    browsing: Option<Seq<char>>,
    current_path: Seq<char>,
    result: Result<Seq<ShareEntry>, Seq<char>>,
) -> ListingView {
    if !still_current(s, seq, node, path, browsing, current_path) {
        s
    } else {
        match result {
            Ok(listing) => ListingView {
                entries: listing,
                cache: s.cache.insert((node, path), listing),
                error: None,
                loading: false,
                load_seq: s.load_seq,
                selected: kept_selection(s.selected, listing),
            },
            Err(message) => ListingView {
                entries: Seq::empty(),
                cache: s.cache,
                error: Some(message),
                loading: false,
                load_seq: s.load_seq,
                selected: s.selected,
            },
        }
    }
}

/// The optional browsed node as characters.
pub open spec fn opt_str(o: Option<&str>) -> Option<Seq<char>> {
    match o {
        Some(s) => Some(s@),
        None => None,
    }
}

/// A fetch result as characters.
pub open spec fn result_view(r: Result<Vec<ShareEntry>, String>) -> Result<Seq<ShareEntry>, Seq<char>> {
    match r {
        Ok(v) => Ok(v@),
        Err(e) => Err(e@),
    }
}

/// The entry is a file called `name`.
pub open spec fn is_file_named(e: ShareEntry, name: Seq<char>) -> bool {
    e.name@ == name && eq_ignore_ascii_case(e.kind@, "file"@)
}

/// The listing state of the share browser.
pub struct ShareListing {
    pub entries: Vec<ShareEntry>,
    cache: ListingCache,
    pub error: Option<String>,
    pub loading: bool,
    pub load_seq: u64,
    pub selected: Option<String>,
}

impl View for ShareListing {
    type V = ListingView;

    closed spec fn view(&self) -> ListingView {
        ListingView {
            entries: self.entries@,
            cache: cache_map(self.cache),
            error: match self.error {
                Some(e) => Some(e@),
                None => None,
            },
            loading: self.loading,
            load_seq: self.load_seq,
            selected: match self.selected {
                Some(n) => Some(n@),
                None => None,
            },
        }
    }
}

impl ShareListing {
    /// The cache is well formed.
    pub closed spec fn wf(&self) -> bool {
        cache_wf(self.cache)
    }

    /// Nothing listed, nothing cached, no load started.
    pub fn new() -> (r: Self)
        ensures
            r.wf(),
            r@.entries == Seq::<ShareEntry>::empty(),
            r@.cache == Map::<(Seq<char>, Seq<char>), Seq<ShareEntry>>::empty(),
            r@.error is None,
            !r@.loading,
            r@.load_seq == 0,
            r@.selected is None,
    {
        let r = ShareListing {
            entries: Vec::new(),
            cache: AssetMap::new(),
            error: None,
            loading: false,
            load_seq: 0,
            selected: None,
        };
        assert(cache_map(r.cache) =~= Map::<(Seq<char>, Seq<char>), Seq<ShareEntry>>::empty());
        r
    }

    fn keep_selection(&mut self)
        ensures
            final(self).entries == old(self).entries,
            final(self).cache == old(self).cache,
            final(self).error == old(self).error,
            final(self).loading == old(self).loading,
            final(self).load_seq == old(self).load_seq,
            final(self)@.selected == kept_selection(old(self)@.selected, old(self)@.entries),
    {
        let keep = match &self.selected {
            Some(name) => {
                let mut found = false;
                let mut i: usize = 0;
                while i < self.entries.len()
                    invariant
                        i <= self.entries@.len(),
                        found <==> exists|j: int| 0 <= j < i && (#[trigger] self.entries@[j]).name@ == name@,
                    decreases self.entries@.len() - i,
                {
                    if str_eq(self.entries[i].name.as_str(), name.as_str()) {
                        found = true;
                    }
                    i = i + 1;
                }
                found
            },
            None => true,
        };
        if !keep {
            self.selected = None;
        }
    }

    /// Starts a load of `path` on `node` (see [`begin_spec`]); a forced load
    /// always fetches.
    pub fn begin_load(&mut self, node: &str, path: &str, force: bool) -> (step: ShareLoadStep)
        requires
            old(self).wf(),
        ensures
            final(self).wf(),
            (final(self)@, step) == begin_spec(old(self)@, node@, path@, force),
    {
        if force {
            cache_forget(&mut self.cache, node, path);
        } else {
            let hit = match cache_lookup(&self.cache, node, path) {
                Some(cached) => Some(clone_entries(cached.as_slice())),
                None => None,
            };
            if let Some(listing) = hit {
                self.load_seq = self.load_seq.wrapping_add(1);
                self.loading = false;
                self.error = None;
                self.entries = listing;
                self.keep_selection();
                return ShareLoadStep::Served;
            }
        }
        self.load_seq = self.load_seq.wrapping_add(1);
        self.loading = true;
        self.error = None;
        ShareLoadStep::Fetch { seq: self.load_seq }
    }

    /// Applies the result of the fetch tagged `seq` of `path` on `node`, while
    /// `browsing` and `current_path` are on screen (see [`apply_spec`]).
    /// Returns whether the result was still current.
    pub fn apply_listing(
        &mut self,
        seq: u64,
        node: &str,
        path: &str,
        browsing: Option<&str>,
        current_path: &str,
        result: Result<Vec<ShareEntry>, String>,
    ) -> (applied: bool)
        requires
            old(self).wf(),
        ensures
            final(self).wf(),
            applied == still_current(old(self)@, seq, node@, path@, opt_str(browsing), current_path@),
            final(self)@ == apply_spec(
                old(self)@,
                seq,
                node@,
                path@,
                opt_str(browsing),
                current_path@,
                result_view(result),
            ),
    {
        let same_node = match browsing {
            Some(b) => str_eq(b, node),
            None => false,
        };
        if !(self.load_seq == seq && same_node && str_eq(current_path, path)) {
            return false;
        }
        self.loading = false;
        match result {
            Ok(listing) => {
                let shown = clone_entries(listing.as_slice());
                cache_store(&mut self.cache, node, path, listing);
                self.entries = shown;
                self.error = None;
                self.keep_selection();
            },
            Err(message) => {
                self.entries = Vec::new();
                self.error = Some(message);
            },
        }
        true
    }

    /// Abandons the current load: its result will be dropped.
    pub fn cancel(&mut self)
        requires
            old(self).wf(),
        ensures
            final(self).wf(),
            final(self)@ == (ListingView {
                load_seq: next_seq(old(self)@.load_seq),
                loading: false,
                ..old(self)@
            }),
    {
        self.load_seq = self.load_seq.wrapping_add(1);
        self.loading = false;
    }

    /// Forgets every cached listing.
    pub fn clear_cache(&mut self)
        requires
            old(self).wf(),
        ensures
            final(self).wf(),
            final(self)@ == (ListingView {
                cache: Map::<(Seq<char>, Seq<char>), Seq<ShareEntry>>::empty(),
                ..old(self)@
            }),
    {
        self.cache = AssetMap::new();
        assert(cache_map(self.cache) =~= Map::<(Seq<char>, Seq<char>), Seq<ShareEntry>>::empty());
    }

    /// Empties the listing, the cache, the selection and the error, as when
    /// another node is opened or the grid is shown again.
    pub fn reset(&mut self)
        requires
            old(self).wf(),
        ensures
            final(self).wf(),
            final(self)@ == (ListingView {
                entries: Seq::empty(),
                cache: Map::<(Seq<char>, Seq<char>), Seq<ShareEntry>>::empty(),
                error: None,
                selected: None,
                ..old(self)@
            }),
    {
        self.entries = Vec::new();
        self.clear_cache();
        self.selected = None;
        self.error = None;
    }

    /// Selects the file entry called `name`; a name that is not a file of the
    /// listing changes nothing.
    pub fn select_file(&mut self, name: &str) -> (selected: bool)
        requires
            old(self).wf(),
        ensures
            final(self).wf(),
            selected == exists|i: int|
                0 <= i < old(self)@.entries.len() && is_file_named(#[trigger] old(self)@.entries[i], name@),
            final(self)@ == (if selected {
                ListingView { selected: Some(name@), ..old(self)@ }
            } else {
                old(self)@
            }),
    {
        match self.file_index(name) {
            Some(_) => {
                self.selected = Some(string_from(name));
                true
            },
            None => false,
        }
    }

    fn file_index(&self, name: &str) -> (r: Option<usize>)
        ensures
            match r {
                Some(i) => i < self@.entries.len() && is_file_named(self@.entries[i as int], name@)
                    && forall|j: int| 0 <= j < i ==> !is_file_named(#[trigger] self@.entries[j], name@),
                None => forall|j: int|
                    0 <= j < self@.entries.len() ==> !is_file_named(#[trigger] self@.entries[j], name@),
            },
    {
        let file = chars_of("file");
        proof {
            reveal_strlit("file");
        }
        let mut i: usize = 0;
        while i < self.entries.len()
            invariant
                i <= self.entries@.len(),
                file@ == "file"@,
                forall|j: int| 0 <= j < i ==> !is_file_named(#[trigger] self.entries@[j], name@),
            decreases self.entries@.len() - i,
        {
            let e = &self.entries[i];
            let kind = chars_of(e.kind.as_str());
            if str_eq(e.name.as_str(), name) && chars_eq_ignore_ascii_case(kind.as_slice(), file.as_slice()) {
                return Some(i);
            }
            i = i + 1;
        }
        None
    }

    /// The index of the selected file entry, if one is selected and listed.
    pub fn selected_entry(&self) -> (r: Option<usize>)
        ensures
            match self@.selected {
                None => r is None,
                Some(n) => match r {
                    Some(i) => i < self@.entries.len() && is_file_named(self@.entries[i as int], n)
                        && forall|j: int| 0 <= j < i ==> !is_file_named(#[trigger] self@.entries[j], n),
                    None => forall|j: int|
                        0 <= j < self@.entries.len() ==> !is_file_named(#[trigger] self@.entries[j], n),
                },
            },
    {
        match &self.selected {
            Some(n) => self.file_index(n.as_str()),
            None => None,
        }
    }
}

/// The status line above a listing.
#[derive(Debug, PartialEq, Eq)]
pub enum ShareStatusLine {
    /// A message of the last share action, shown as it is.
    Message(String),
    /// A load is running (`VAULT · ` and `devices.share.reading`).
    Reading,
    /// The load failed: `VAULT · ` and the error.
    Failed(String),
    /// The peer is offline; `count` entries are shown (`devices.share.vault_offline`).
    Offline { count: usize },
    /// `count` entries are shown (`devices.share.vault_count`).
    Count { count: usize },
}

/// The status line's value.
pub enum StatusLineView {
    Message(Seq<char>),
    Reading,
    Failed(Seq<char>),
    Offline(nat),
    Count(nat),
}

/// The status line: a share message first, then a running load, then an
/// error, then the entry count, marked offline when the browsed node is
/// neither this device nor a live peer.
pub open spec fn status_line_spec(s: ListingView, message: Option<Seq<char>>, local: bool, peer_live: bool) -> StatusLineView {
    match message {
        Some(m) => StatusLineView::Message(m),
        None => if s.loading {
            StatusLineView::Reading
        } else {
            match s.error {
                Some(e) => StatusLineView::Failed("VAULT · "@ + e),
                None => if !local && !peer_live {
                    StatusLineView::Offline(s.entries.len())
                } else {
                    StatusLineView::Count(s.entries.len())
                },
            }
        },
    }
}

impl View for ShareStatusLine {
    type V = StatusLineView;

    open spec fn view(&self) -> StatusLineView {
        match self {
            ShareStatusLine::Message(m) => StatusLineView::Message(m@),
            ShareStatusLine::Reading => StatusLineView::Reading,
            ShareStatusLine::Failed(e) => StatusLineView::Failed(e@),
            ShareStatusLine::Offline { count } => StatusLineView::Offline(*count as nat),
            ShareStatusLine::Count { count } => StatusLineView::Count(*count as nat),
        }
    }
}

/// Entries that carry the volume id `volume`.
pub open spec fn carries_volume(entries: Seq<ShareEntry>, volume: Seq<char>) -> spec_fn(int) -> bool {
    |i: int| entries[i].volume_id matches Some(v) && v@ == volume
}

/// The name shown for the volume `volume`: the name of the first entry
/// carrying that volume id, else the id itself.
pub open spec fn volume_name(entries: Seq<ShareEntry>, volume: Seq<char>) -> Seq<char> {
    let k = first_where(entries.len(), carries_volume(entries, volume));
    if k >= 0 {
        entries[k].name@
    } else {
        volume
    }
}

/// The address bar: the device alone at the root; the device and the
/// volume name inside a volume; deeper, the device and the folders below
/// the volume, separated by backslashes.
pub open spec fn address_spec(device: Seq<char>, path: Seq<Seq<char>>, entries: Seq<ShareEntry>) -> Seq<char> {
    if path.len() == 0 {
        device
    } else if path.len() == 1 {
        device + " · "@ + volume_name(entries, path[0])
    } else {
        device + "\\"@ + join(path.drop_first(), "\\"@)
    }
}

impl ShareListing {
    /// The status line of the listing (see [`status_line_spec`]), given the
    /// message of the last share action and whether the browsed node is this
    /// device or a live peer.
    pub fn status_line(&self, message: Option<&str>, local: bool, peer_live: bool) -> (r: ShareStatusLine)
        ensures
            r@ == status_line_spec(self@, opt_str(message), local, peer_live),
    {
        proof {
            reveal_strlit("VAULT · ");
        }
        if let Some(m) = message {
            return ShareStatusLine::Message(string_from(m));
        }
        if self.loading {
            return ShareStatusLine::Reading;
        }
        let count = self.entries.len();
        if let Some(e) = &self.error {
            let mut t = string_from("VAULT · ");
            push_str(&mut t, e.as_str());
            return ShareStatusLine::Failed(t);
        }
        if !local && !peer_live {
            ShareStatusLine::Offline { count }
        } else {
            ShareStatusLine::Count { count }
        }
    }

    /// The address bar for `device` (the shortened device label) at `path`
    /// (see [`address_spec`]).
    pub fn address_label(&self, device: &str, path: &[String]) -> (r: String)
        ensures
            r@ == address_spec(device@, path@.map_values(|p: String| p@), self@.entries),
    {
        let ghost pv = path@.map_values(|p: String| p@);
        let mut r = string_from(device);
        if path.len() == 0 {
            return r;
        }
        if path.len() == 1 {
            push_str(&mut r, " · ");
            let ghost ents = self@.entries;
            let ghost vol = path@[0]@;
            let ghost pred = carries_volume(ents, vol);
            assert(pv[0] == vol);
            let mut i: usize = 0;
            while i < self.entries.len()
                invariant
                    i <= self.entries@.len(),
                    ents == self@.entries,
                    path@.len() == 1,
                    vol == path@[0]@,
                    pred == carries_volume(ents, vol),
                    pv == path@.map_values(|p: String| p@),
                    pv[0] == vol,
                    r@ == device@ + " · "@,
                    forall|j: int| 0 <= j < i ==> !#[trigger] pred(j),
                decreases self.entries@.len() - i,
            {
                let hit = match &self.entries[i].volume_id {
                    Some(v) => str_eq(v.as_str(), path[0].as_str()),
                    None => false,
                };
                if hit {
                    assert(pred(i as int));
                    proof {
                        lemma_first_where_found(ents.len(), pred, i as int);
                    }
                    push_str(&mut r, self.entries[i].name.as_str());
                    return r;
                }
                i = i + 1;
            }
            proof {
                lemma_first_where_none(ents.len(), pred);
            }
            push_str(&mut r, path[0].as_str());
            return r;
        }
        push_str(&mut r, "\\");
        push_str(&mut r, path[1].as_str());
        let ghost rest = pv.drop_first();
        assert(rest.take(1) =~= seq![rest[0]]);
        let mut j: usize = 2;
        while j < path.len()
            invariant
                2 <= j <= path@.len(),
                pv == path@.map_values(|p: String| p@),
                rest == pv.drop_first(),
                r@ == device@ + "\\"@ + join(rest.take(j - 1), "\\"@),
            decreases path@.len() - j,
        {
            push_str(&mut r, "\\");
            push_str(&mut r, path[j].as_str());
            proof {
                let t = rest.take(j as int);
                assert(t.drop_last() =~= rest.take(j - 1));
                assert(t.last() == rest[j - 1]);
                assert(rest[j - 1] == path@[j as int]@);
            }
            j = j + 1;
        }
        assert(rest.take(j - 1) =~= rest);
        r
    }
}

/// What a file action (open, sync, delete, open on the host) is sent with.
#[derive(Debug, PartialEq, Eq)]
pub struct ShareActionParams {
    pub node_id: String,
    pub share_path: String,
    pub entry_name: String,
    pub remote_size: Option<u64>,
    pub remote_modified_at: Option<u64>,
    pub entry_id: Option<String>,
    pub version_id: Option<String>,
    pub version_author: Option<String>,
    pub requested_app: Option<String>,
}

/// Entries called `name`.
pub open spec fn named(entries: Seq<ShareEntry>, name: Seq<char>) -> spec_fn(int) -> bool {
    |i: int| entries[i].name@ == name
}

impl ShareListing {
    fn entry_index(&self, name: &str) -> (r: Option<usize>)
        ensures
            match r {
                Some(k) => k < self@.entries.len() && first_where(self@.entries.len(), named(self@.entries, name@)) == k,
                None => first_where(self@.entries.len(), named(self@.entries, name@)) == -1,
            },
    {
        let ghost p = named(self@.entries, name@);
        let mut i: usize = 0;
        while i < self.entries.len()
            invariant
                i <= self.entries@.len(),
                p == named(self@.entries, name@),
                self@.entries == self.entries@,
                forall|j: int| 0 <= j < i ==> !#[trigger] p(j),
            decreases self.entries@.len() - i,
        {
            if str_eq(self.entries[i].name.as_str(), name) {
                assert(p(i as int));
                proof {
                    lemma_first_where_found(self@.entries.len(), p, i as int);
                }
                return Some(i);
            }
            i = i + 1;
        }
        proof {
            lemma_first_where_none(self@.entries.len(), p);
        }
        None
    }

    /// The parameters of an action on `entry_name` at `share_path` of the
    /// browsed node (empty without one): the size, time, ids and author of
    /// the first listed entry of that name, if any, and the app to open it
    /// with.
    pub fn action_params(
        &self,
        browsing: Option<&str>,
        share_path: String,
        entry_name: &str,
        requested_app: Option<String>,
    ) -> (r: ShareActionParams)
        ensures
            r.node_id@ == (match browsing {
                Some(b) => b@,
                None => Seq::<char>::empty(),
            }),
            r.share_path == share_path,
            r.entry_name@ == entry_name@,
            r.requested_app == requested_app,
            ({
                let k = first_where(self@.entries.len(), named(self@.entries, entry_name@));
                if k >= 0 {
                    let e = self@.entries[k];
                    &&& r.remote_size == Some(e.size)
                    &&& r.remote_modified_at == Some(e.modified_at)
                    &&& r.entry_id == e.entry_id
                    &&& r.version_id == e.version_id
                    &&& r.version_author == e.version_author
                } else {
                    r.remote_size is None && r.remote_modified_at is None && r.entry_id is None
                        && r.version_id is None && r.version_author is None
                }
            }),
    {
        let node_id = match browsing {
            Some(b) => string_from(b),
            None => String::new(),
        };
        match self.entry_index(entry_name) {
            Some(k) => {
                let e = &self.entries[k];
                ShareActionParams {
                    node_id,
                    share_path,
                    entry_name: string_from(entry_name),
                    remote_size: Some(e.size),
                    remote_modified_at: Some(e.modified_at),
                    entry_id: clone_opt(&e.entry_id),
                    version_id: clone_opt(&e.version_id),
                    version_author: clone_opt(&e.version_author),
                    requested_app,
                }
            },
            None => ShareActionParams {
                node_id,
                share_path,
                entry_name: string_from(entry_name),
                remote_size: None,
                remote_modified_at: None,
                entry_id: None,
                version_id: None,
                version_author: None,
                requested_app,
            },
        }
    }
}

impl ShareListing {
    /// The volume that stops being shared when the entry `name` is
    /// unshared: the volume id of the first listed entry of that name, when
    /// the browsed node may be managed.
    pub fn unshare_target(&self, name: &str, can_manage: bool) -> (r: Option<String>)
        ensures
            ({
                let k = first_where(self@.entries.len(), named(self@.entries, name@));
                if k >= 0 && self@.entries[k].volume_id is Some && can_manage {
                    opt_seq(r) == Some(self@.entries[k].volume_id->0@)
                } else {
                    r is None
                }
            }),
    {
        match self.entry_index(name) {
            Some(k) => match &self.entries[k].volume_id {
                Some(v) => if can_manage {
                    Some(string_from(v.as_str()))
                } else {
                    None
                },
                None => None,
            },
            None => None,
        }
    }
}

} // verus!
