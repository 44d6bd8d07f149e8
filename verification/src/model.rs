use std::collections::HashMap;
use vstd::prelude::*;

verus! {

/// One volume of a series, as the collection knows it.
///
/// `bought_price` is carried through unchanged: the library never computes on prices.
#[derive(Clone, Copy)]
pub struct MangaVolume<P> {
    pub owned: bool,
    pub volume_number: i64,
    pub manga_id: i64,
    pub bought_price: P,
    pub stored_state: bool,
}

impl<P: Copy> MangaVolume<P> {
    /// Whether this volume is already known to have a row in the database.
    pub open spec fn is_known_stored(self) -> bool {
        self.stored_state
    }

    /// The same volume, with the knowledge that its row exists recorded.
    pub open spec fn marked_stored(self) -> Self {
        MangaVolume { stored_state: true, ..self }
    }

    /// The same volume with another ownership state.
    pub open spec fn with_owned(self, owned: bool) -> Self {
        MangaVolume { owned, ..self }
    }

    pub(crate) fn set_owned_state(self, owned: bool) -> (r: Self)
        ensures
            r == self.with_owned(owned),
    {
        MangaVolume { owned, ..self }
    }

    pub fn new(owned: bool, volume_number: i64, manga_id: i64, bought_price: P) -> (r: Self)
        ensures
            r.owned == owned,
            r.volume_number == volume_number,
            r.manga_id == manga_id,
            r.bought_price == bought_price,
            !r.is_known_stored(),
    {
        MangaVolume { owned, volume_number, manga_id, bought_price, stored_state: false }
    }

    pub(crate) fn known_stored(&self) -> (r: bool)
        ensures
            r == self.is_known_stored(),
    {
        self.stored_state
    }

    pub(crate) fn mark_stored(self) -> (r: Self)
        ensures
            r == self.marked_stored(),
    {
        MangaVolume { stored_state: true, ..self }
    }
}

/// A series in the collection, together with the volumes loaded so far.
///
/// `volumes` caches the volumes loaded so far, each under its number.
pub struct MangaEntry<P> {
    pub name: String,
    pub volume_count: i64,
    pub last_price: P,
    pub volumes: HashMap<i64, MangaVolume<P>>,
    pub cover_path: Option<String>,
    pub id: i64,
}

/// Each cached volume is stored under its own number.
pub open spec fn keyed_by_number<P>(volumes: Map<i64, MangaVolume<P>>) -> bool {
    forall|n: i64| #[trigger] volumes.dom().contains(n) ==> volumes[n].volume_number == n
}

/// The cached volumes whose number (the key they are cached under) is at most `limit`.
pub open spec fn volumes_up_to<P>(volumes: Map<i64, MangaVolume<P>>, limit: i64) -> Map<i64, MangaVolume<P>> {
    Map::new(|n: i64| volumes.dom().contains(n) && n <= limit, |n: i64| volumes[n])
}

impl<P: Copy> MangaEntry<P> {
    /// The database id this entry has learned, or zero (or less) while it has learned none.
    pub open spec fn cached_id(self) -> i64 {
        self.id
    }

    /// The same entry after it has learned the id `id`.
    pub open spec fn with_id(self, id: i64) -> Self {
        MangaEntry { id, ..self }
    }

    /// The same entry with another volume count and volume cache.
    pub open spec fn with_volumes(self, volume_count: i64, volumes: HashMap<i64, MangaVolume<P>>) -> Self {
        MangaEntry { volume_count, volumes, ..self }
    }

    pub fn new(name: &str, volume_count: i64, last_price: P, cover_path: Option<String>) -> (r: Self)
        ensures
            r.name@ == name@,
            r.volume_count == volume_count,
            r.last_price == last_price,
            r.volumes@ == Map::<i64, MangaVolume<P>>::empty(),
            r.cover_path == cover_path,
            r.cached_id() == 0,
    {
        MangaEntry {
            id: 0,
            name: name.to_owned(),
            volume_count,
            last_price,
            volumes: HashMap::new(),
            cover_path,
        }
    }

    pub fn edit_last_price(&mut self, new_price: P)
        ensures
            *final(self) == (MangaEntry { last_price: new_price, ..*old(self) }),
    {
        self.last_price = new_price;
    }

    pub(crate) fn set_id(self, id: i64) -> (r: Self)
        ensures
            r == self.with_id(id),
    {
        MangaEntry { id, ..self }
    }
}

fn at_most(n: i64, limit: i64) -> (r: bool)
    ensures
        r == (n <= limit),
{
    n <= limit
}

/// `HashMap::retain`, keeping the cached volumes whose number is at most `limit`: std
/// documents that it removes every pair for which the predicate answers `false`, here
/// those whose key is above `limit`.
#[verifier::external_body]
pub(crate) fn retain_up_to<P: Copy>(volumes: &mut HashMap<i64, MangaVolume<P>>, limit: i64)
    ensures
        final(volumes)@ == volumes_up_to(old(volumes)@, limit),
{
    volumes.retain(|n, _| at_most(*n, limit));
}

/// What the collection answers about one series.
#[derive(Debug)]
pub struct MangaResponse {
    pub id: i64,
    pub name: String,
    pub volume_count: i64,
    pub owned_volumes: Vec<i64>,
    pub cover_image_path: Option<String>,
}

/// A request to mark one volume of a series as owned or not.
pub struct UpdateVolumeRequest {
    pub volume: i64,
    pub state: bool,
}

/// A request to add a series to the collection.
pub struct CreateMangaRequest<P> {
    pub name: String,
    pub volume_count: i64,
    pub last_price: Option<P>,
}

/// A request to change the volume count or the last price of a series.
pub struct UpdateMangaRequest<P> {
    pub volume_count: Option<i64>,
    pub last_price: Option<P>,
}

} // verus!
