//! The dependency readiness tracker.
//!
//! A map is ready once everything it transitively references has
//! materialized in the host store: its own tileset and that tileset's image,
//! and, for every placed object, the object's template, the template's
//! tileset, and that tileset's image. The tracker is polled once per tick
//! with a read-only snapshot of the store; it reports `Done` exactly when
//! every branch of every tracked map has materialized, stays `Done` forever
//! after, and signals the crossing exactly once.

use vstd::prelude::*;
use crate::records::{RawMapData, SpritesheetData, TemplateData};
use crate::text::bytes_eq;

verus! {

/// The tracker's two states: still polling, or everything materialized.
#[derive(Clone, Copy, Debug, PartialEq, Eq, Structural)]
pub enum MapLoadState {
    Loading,
    Done,
}

impl Default for MapLoadState {
    /// A tracker starts out loading.
    fn default() -> (r: Self)
        ensures
            r == MapLoadState::Loading,
    {
        MapLoadState::Loading
    }
}

/// A read-only snapshot of the host store: every record that has
/// materialized, keyed by its handle, and every materialized image handle.
pub struct StoreSnapshot {
    pub maps: Vec<(Vec<u8>, RawMapData)>,
    pub spritesheets: Vec<(Vec<u8>, SpritesheetData)>,
    pub templates: Vec<(Vec<u8>, TemplateData)>,
    pub images: Vec<Vec<u8>>,
}

/// Keyed entries as key-sequence pairs.
pub open spec fn spec_entries<T>(v: Seq<(Vec<u8>, T)>) -> Seq<(Seq<u8>, T)> {
    v.map_values(|p: (Vec<u8>, T)| (p.0@, p.1))
}

/// The first entry under the given key, scanned in order.
pub open spec fn spec_lookup<T>(entries: Seq<(Seq<u8>, T)>, key: Seq<u8>) -> Option<T>
    decreases entries.len(),
{
    if entries.len() == 0 {
        None
    } else if entries[0].0 == key {
        Some(entries[0].1)
    } else {
        spec_lookup(entries.drop_first(), key)
    }
}

/// Whether the image under this handle has materialized.
pub open spec fn spec_image_loaded(store: StoreSnapshot, path: Seq<u8>) -> bool {
    exists|i: int| 0 <= i < store.images@.len() && store.images@[i]@ == path
}

/// Whether the tileset under this handle has materialized together with its
/// image: one whole branch of depth two.
pub open spec fn spec_sheet_ready(store: StoreSnapshot, path: Seq<u8>) -> bool {
    match spec_lookup(spec_entries(store.spritesheets@), path) {
        Some(s) => spec_image_loaded(store, s.sprite@),
        None => false,
    }
}

/// Whether the template under this handle has materialized together with its
/// tileset and that tileset's image: one whole branch of depth three.
pub open spec fn spec_template_ready(store: StoreSnapshot, path: Seq<u8>) -> bool {
    match spec_lookup(spec_entries(store.templates@), path) {
        Some(t) => spec_sheet_ready(store, t.sprite_sheet@),
        None => false,
    }
}

/// Whether every branch of one materialized map is ready: the map's tileset
/// branch, and the template branch of every placed object.
pub open spec fn spec_map_ready(store: StoreSnapshot, m: RawMapData) -> bool {
    &&& spec_sheet_ready(store, m.sprite_sheet@)
    &&& forall|k: int|
        0 <= k < m.objects@.len() ==> spec_template_ready(store, #[trigger] m.objects@[k].template@)
}

/// Whether the map under this handle has materialized and is ready.
pub open spec fn spec_tracked_map_ready(store: StoreSnapshot, path: Seq<u8>) -> bool {
    match spec_lookup(spec_entries(store.maps@), path) {
        Some(m) => spec_map_ready(store, m),
        None => false,
    }
}

/// Whether every tracked map is ready.
pub open spec fn spec_all_ready(store: StoreSnapshot, map_paths: Seq<Vec<u8>>) -> bool {
    forall|k: int| 0 <= k < map_paths.len() ==> spec_tracked_map_ready(store, #[trigger] map_paths[k]@)
}

/// Readiness of one map is exactly the conjunction of its `1 + N` branches:
/// the tileset-and-image branch of the map itself, and the
/// template-tileset-image branch of each of its `N` objects. No subset of
/// branches suffices, and no further condition is demanded.
pub proof fn lemma_map_ready_branches(store: StoreSnapshot, m: RawMapData)
    ensures
        spec_map_ready(store, m) <==> (spec_sheet_ready(store, m.sprite_sheet@) && (forall|k: int|
            0 <= k < m.objects@.len() ==> spec_template_ready(
                store,
                #[trigger] m.objects@[k].template@,
            ))),
{
}

/// Finds the first entry under the given key.
fn lookup<'a, T>(entries: &'a Vec<(Vec<u8>, T)>, key: &[u8]) -> (r: Option<&'a T>)
    ensures
        match r {
            Some(t) => spec_lookup(spec_entries(entries@), key@) == Some(*t),
            None => spec_lookup(spec_entries(entries@), key@) is None,
        },
{
    let ghost all = spec_entries(entries@);
    let mut i: usize = 0;
    proof {
        assert(all.skip(0) =~= all);
    }
    while i < entries.len()
        invariant
            0 <= i <= entries@.len(),
            all == spec_entries(entries@),
            all.len() == entries@.len(),
            spec_lookup(all, key@) == spec_lookup(all.skip(i as int), key@),
        decreases entries@.len() - i,
    {
        proof {
            assert(all.skip(i as int)[0] == (entries@[i as int].0@, entries@[i as int].1));
            assert(all.skip(i as int).drop_first() =~= all.skip(i + 1));
        }
        if bytes_eq(entries[i].0.as_slice(), key) {
            return Some(&entries[i].1);
        }
        i = i + 1;
    }
    proof {
        assert(all.skip(i as int) =~= Seq::<(Seq<u8>, T)>::empty());
    }
    None
}

/// Whether the image under this handle has materialized.
fn image_loaded(store: &StoreSnapshot, path: &[u8]) -> (r: bool)
    ensures
        r == spec_image_loaded(*store, path@),
{
    let mut i: usize = 0;
    while i < store.images.len()
        invariant
            0 <= i <= store.images@.len(),
            forall|j: int| 0 <= j < i ==> store.images@[j]@ != path@,
        decreases store.images@.len() - i,
    {
        if bytes_eq(store.images[i].as_slice(), path) {
            return true;
        }
        i = i + 1;
    }
    false
}

/// Whether the tileset branch under this handle is ready.
pub fn sheet_ready(store: &StoreSnapshot, path: &[u8]) -> (r: bool)
    ensures
        r == spec_sheet_ready(*store, path@),
{
    match lookup(&store.spritesheets, path) {
        Some(s) => image_loaded(store, s.sprite.as_slice()),
        None => false,
    }
}

/// Whether the template branch under this handle is ready.
pub fn template_ready(store: &StoreSnapshot, path: &[u8]) -> (r: bool)
    ensures
        r == spec_template_ready(*store, path@),
{
    match lookup(&store.templates, path) {
        Some(t) => sheet_ready(store, t.sprite_sheet.as_slice()),
        None => false,
    }
}

/// Whether every branch of one materialized map is ready. Every branch is
/// inspected by handle; a missing or unready branch anywhere keeps the map
/// unready, however many of its siblings have materialized.
pub fn map_ready(store: &StoreSnapshot, m: &RawMapData) -> (r: bool)
    ensures
        r == spec_map_ready(*store, *m),
{
    if !sheet_ready(store, m.sprite_sheet.as_slice()) {
        return false;
    }
    let mut k: usize = 0;
    while k < m.objects.len()
        invariant
            0 <= k <= m.objects@.len(),
            forall|j: int|
                0 <= j < k ==> spec_template_ready(*store, #[trigger] m.objects@[j].template@),
        decreases m.objects@.len() - k,
    {
        if !template_ready(store, m.objects[k].template.as_slice()) {
            return false;
        }
        k = k + 1;
    }
    true
}

/// Whether every tracked map has materialized and is ready.
pub fn all_ready(store: &StoreSnapshot, map_paths: &Vec<Vec<u8>>) -> (r: bool)
    ensures
        r == spec_all_ready(*store, map_paths@),
{
    let mut k: usize = 0;
    while k < map_paths.len()
        invariant
            0 <= k <= map_paths@.len(),
            forall|j: int| 0 <= j < k ==> spec_tracked_map_ready(*store, #[trigger] map_paths@[j]@),
        decreases map_paths@.len() - k,
    {
        let ready = match lookup(&store.maps, map_paths[k].as_slice()) {
            Some(m) => map_ready(store, m),
            None => false,
        };
        if !ready {
            return false;
        }
        k = k + 1;
    }
    true
}

/// The readiness tracker for a set of maps, polled once per tick.
pub struct MapTracker {
    pub state: MapLoadState,
    pub map_paths: Vec<Vec<u8>>,
}

impl MapTracker {
    /// Starts tracking the given map handles, in the loading state.
    pub fn new(map_paths: Vec<Vec<u8>>) -> (r: MapTracker)
        ensures
            r.state == MapLoadState::Loading,
            r.map_paths == map_paths,
    {
        MapTracker { state: MapLoadState::Loading, map_paths }
    }

    /// One polling tick against a snapshot of the store.
    ///
    /// The state moves to `Done` exactly when every tracked map is ready in
    /// this snapshot, and once `Done` it never reverts, whatever later
    /// snapshots show. The returned signal is edge-triggered: it is true
    /// exactly on the tick that crosses from `Loading` to `Done`.
    pub fn tick(&mut self, store: &StoreSnapshot) -> (signal: bool)
        ensures
            final(self).map_paths == old(self).map_paths,
            old(self).state == MapLoadState::Done ==> final(self).state == MapLoadState::Done,
            final(self).state == MapLoadState::Done <==> (old(self).state == MapLoadState::Done
                || spec_all_ready(*store, old(self).map_paths@)),
            signal == (old(self).state == MapLoadState::Loading && final(self).state
                == MapLoadState::Done),
    {
        match self.state {
            MapLoadState::Done => false,
            MapLoadState::Loading => {
                if all_ready(store, &self.map_paths) {
                    self.state = MapLoadState::Done;
                    true
                } else {
                    false
                }
            },
        }
    }
}

} // verus!
