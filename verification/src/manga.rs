use crate::cover::{cover_slug, find_cover_for, FindCover};
use crate::model::{retain_up_to, volumes_up_to, MangaEntry, MangaVolume};
use crate::protocol::{Action, DbError, EntryOutcome, Progress, Reply, VolumeOutcome};
use vstd::prelude::*;

verus! {

broadcast use vstd::std_specs::hash::group_hash_axioms;

/// `MangaEntry::get_id`, waiting for the id lookup by name.
pub struct GetId<P> {
    pub entry: MangaEntry<P>,
}

/// `MangaEntry::save`: checks whether a row with the entry's name exists, then
/// overwrites it or adds one.
pub enum Save<P> {
    Checking { entry: MangaEntry<P> },
    Writing { entry: MangaEntry<P> },
    Reporting { entry: MangaEntry<P> },
}

/// `MangaEntry::set_cover`, waiting for the cover update.
pub struct SetCover<P> {
    pub entry: MangaEntry<P>,
}

/// `MangaEntry::has_volumes`, waiting for the volume count.
pub struct HasVolumes<P> {
    pub entry: MangaEntry<P>,
}

/// `MangaEntry::initialize_volumes`: adds volumes `1..=volume_count` in one transaction
/// unless the series already has volume rows.
pub enum InitializeVolumes<P> {
    FindingId { lookup: GetId<P> },
    Counting { check: HasVolumes<P>, manga_id: i64 },
    Beginning { entry: MangaEntry<P>, manga_id: i64 },
    Preparing { entry: MangaEntry<P>, manga_id: i64 },
    Inserting { entry: MangaEntry<P>, manga_id: i64, volume_number: i64 },
    Committing { entry: MangaEntry<P> },
    RollingBack { entry: MangaEntry<P>, error: DbError },
}

/// `MangaEntry::init`: save, add the volumes, learn the id, then look for a cover in the
/// cover folder and record it.
pub enum Init<P> {
    Saving { save: Save<P> },
    InitializingVolumes { volumes: InitializeVolumes<P> },
    FindingId { lookup: GetId<P> },
    FindingCover { entry: MangaEntry<P>, find: FindCover },
    SettingCover { cover: SetCover<P> },
}

/// `MangaEntry::set_volume_count`: adds the missing volume rows or removes the extra
/// ones, records the new count, all in one transaction.
pub enum SetVolumeCount<P> {
    FindingId { lookup: GetId<P>, new_count: i64 },
    Beginning { entry: MangaEntry<P>, manga_id: i64, new_count: i64 },
    Preparing { entry: MangaEntry<P>, manga_id: i64, new_count: i64 },
    Inserting { entry: MangaEntry<P>, manga_id: i64, new_count: i64, volume_number: i64 },
    Deleting { entry: MangaEntry<P>, manga_id: i64, new_count: i64 },
    Recording { entry: MangaEntry<P>, manga_id: i64, new_count: i64 },
    Committing { entry: MangaEntry<P>, new_count: i64 },
    RollingBack { entry: MangaEntry<P>, error: DbError },
}

/// `MangaEntry::update_metadata`: record the new price, then the new volume count.
pub enum UpdateMetadata<P> {
    UpdatingPrice { entry: MangaEntry<P>, new_count: i64 },
    SettingCount { count: SetVolumeCount<P> },
}

/// `MangaEntry::get_volume`: finds a volume in the cache, or loads it into the cache.
pub enum GetVolume<P> {
    FindingId { lookup: GetId<P>, volume_number: i64 },
    Loading { entry: MangaEntry<P>, manga_id: i64, volume_number: i64 },
}

/// `MangaVolume::store`: overwrites the volume's row if it exists, adds it otherwise.
pub enum Store<P> {
    Reporting { volume: MangaVolume<P> },
    Checking { volume: MangaVolume<P> },
    Writing { volume: MangaVolume<P> },
}

/// `MangaVolume::set_owned`, while the volume is being stored.
pub struct SetOwned<P> {
    pub store: Store<P>,
}

/// `MangaVolume::set_owned` on the volume cached under `volume_number` (the number
/// `get_volume` answers): the volume's new state is taken back into the cache.
pub struct SetCachedOwned<P> {
    pub entry: MangaEntry<P>,
    pub volume_number: i64,
    pub owned: SetOwned<P>,
}

// ---------------------------------------------------------------- get_id

impl<P: Copy> MangaEntry<P> {
    /// A positive id already learned is answered at once; otherwise the id is looked up by name.
    pub open spec fn get_id_first(self) -> Progress<GetId<P>, EntryOutcome<P, Option<i64>>, P> {
        if self.id > 0 {
            Progress::Finished((self, Ok(Some(self.id))))
        } else {
            Progress::Perform(GetId { entry: self }, Action::LookupMangaId { name: self.name })
        }
    }

    pub fn get_id(self) -> (r: Progress<GetId<P>, EntryOutcome<P, Option<i64>>, P>)
        ensures
            r == self.get_id_first(),
    {
        if self.id > 0 {
            let id = self.id;
            Progress::Finished((self, Ok(Some(id))))
        } else {
            let name = self.name.clone();
            Progress::Perform(GetId { entry: self }, Action::LookupMangaId { name })
        }
    }
}

impl<P: Copy> GetId<P> {
    /// An id found is remembered; no row means no id; other failures are passed on.
    pub open spec fn next(self, reply: Reply<P>) -> Progress<GetId<P>, EntryOutcome<P, Option<i64>>, P> {
        match reply {
            Reply::MangaId(Some(id)) => Progress::Finished((self.entry.with_id(id), Ok(Some(id)))),
            Reply::MangaId(None) => Progress::Finished((self.entry, Ok(None))),
            Reply::Failed(DbError::QueryReturnedNoRows) => Progress::Finished((self.entry, Ok(None))),
            Reply::Failed(e) => Progress::Finished((self.entry, Err(e))),
            _ => Progress::Finished((self.entry, Err(DbError::UnexpectedReply))),
        }
    }

    pub fn resume(self, reply: Reply<P>) -> (r: Progress<GetId<P>, EntryOutcome<P, Option<i64>>, P>)
        ensures
            r == self.next(reply),
    {
        match reply {
            Reply::MangaId(Some(id)) => Progress::Finished((self.entry.set_id(id), Ok(Some(id)))),
            Reply::MangaId(None) => Progress::Finished((self.entry, Ok(None))),
            Reply::Failed(DbError::QueryReturnedNoRows) => Progress::Finished((self.entry, Ok(None))),
            Reply::Failed(e) => Progress::Finished((self.entry, Err(e))),
            _ => Progress::Finished((self.entry, Err(DbError::UnexpectedReply))),
        }
    }
}

// ---------------------------------------------------------------- save

/// The write that stores `entry` under its name: an update when the row exists, an insert otherwise.
pub open spec fn manga_write<P>(entry: MangaEntry<P>, exists: bool) -> Action<P> {
    if exists {
        Action::UpdateManga {
            name: entry.name,
            volume_count: entry.volume_count,
            last_price: entry.last_price,
            cover_image_path: entry.cover_path,
        }
    } else {
        Action::InsertManga {
            name: entry.name,
            volume_count: entry.volume_count,
            last_price: entry.last_price,
            cover_image_path: entry.cover_path,
        }
    }
}

fn clone_cover(cover: &Option<String>) -> (r: Option<String>)
    ensures
        r == *cover,
{
    match cover {
        Some(c) => Some(c.clone()),
        None => None,
    }
}

fn make_manga_write<P: Copy>(entry: &MangaEntry<P>, exists: bool) -> (r: Action<P>)
    ensures
        r == manga_write(*entry, exists),
{
    let name = entry.name.clone();
    let cover_image_path = clone_cover(&entry.cover_path);
    if exists {
        Action::UpdateManga { name, volume_count: entry.volume_count, last_price: entry.last_price, cover_image_path }
    } else {
        Action::InsertManga { name, volume_count: entry.volume_count, last_price: entry.last_price, cover_image_path }
    }
}

impl<P: Copy> MangaEntry<P> {
    pub open spec fn save_first(self) -> Progress<Save<P>, EntryOutcome<P, ()>, P> {
        Progress::Perform(Save::Checking { entry: self }, Action::CheckMangaStored { name: self.name })
    }

    pub fn save(self) -> (r: Progress<Save<P>, EntryOutcome<P, ()>, P>)
        ensures
            r == self.save_first(),
    {
        let name = self.name.clone();
        Progress::Perform(Save::Checking { entry: self }, Action::CheckMangaStored { name })
    }
}

impl<P: Copy> Save<P> {
    /// A failed existence check is reported and the save ends without writing, successfully.
    pub open spec fn next(self, reply: Reply<P>) -> Progress<Save<P>, EntryOutcome<P, ()>, P> {
        match self {
            Save::Checking { entry } => match reply {
                Reply::Found => Progress::Perform(Save::Writing { entry }, manga_write(entry, true)),
                Reply::Failed(DbError::QueryReturnedNoRows) => Progress::Perform(Save::Writing { entry }, manga_write(entry, false)),
                Reply::Failed(e) => Progress::Perform(Save::Reporting { entry }, Action::ReportError { error: e }),
                _ => Progress::Finished((entry, Err(DbError::UnexpectedReply))),
            },
            Save::Writing { entry } => match reply {
                Reply::Done => Progress::Finished((entry, Ok(()))),
                Reply::Failed(e) => Progress::Finished((entry, Err(e))),
                _ => Progress::Finished((entry, Err(DbError::UnexpectedReply))),
            },
            Save::Reporting { entry } => Progress::Finished((entry, Ok(()))),
        }
    }

    pub fn resume(self, reply: Reply<P>) -> (r: Progress<Save<P>, EntryOutcome<P, ()>, P>)
        ensures
            r == self.next(reply),
    {
        match self {
            Save::Checking { entry } => match reply {
                Reply::Found => {
                    let a = make_manga_write(&entry, true);
                    Progress::Perform(Save::Writing { entry }, a)
                },
                Reply::Failed(DbError::QueryReturnedNoRows) => {
                    let a = make_manga_write(&entry, false);
                    Progress::Perform(Save::Writing { entry }, a)
                },
                Reply::Failed(e) => Progress::Perform(Save::Reporting { entry }, Action::ReportError { error: e }),
                _ => Progress::Finished((entry, Err(DbError::UnexpectedReply))),
            },
            Save::Writing { entry } => match reply {
                Reply::Done => Progress::Finished((entry, Ok(()))),
                Reply::Failed(e) => Progress::Finished((entry, Err(e))),
                _ => Progress::Finished((entry, Err(DbError::UnexpectedReply))),
            },
            Save::Reporting { entry } => Progress::Finished((entry, Ok(()))),
        }
    }
}


// ---------------------------------------------------------------- set_cover / has_volumes

impl<P: Copy> MangaEntry<P> {
    /// The cover path is written to the row with the entry's remembered id.
    pub open spec fn set_cover_first(self, new_path: String) -> Progress<SetCover<P>, EntryOutcome<P, ()>, P> {
        Progress::Perform(SetCover { entry: self }, Action::UpdateMangaCover { id: self.id, new_path })
    }

    pub fn set_cover(self, new_path: String) -> (r: Progress<SetCover<P>, EntryOutcome<P, ()>, P>)
        ensures
            r == self.set_cover_first(new_path),
    {
        let id = self.id;
        Progress::Perform(SetCover { entry: self }, Action::UpdateMangaCover { id, new_path })
    }

    pub open spec fn has_volumes_first(self, manga_id: i64) -> Progress<HasVolumes<P>, EntryOutcome<P, bool>, P> {
        Progress::Perform(HasVolumes { entry: self }, Action::CountVolumes { manga_id })
    }

    pub fn has_volumes(self, manga_id: i64) -> (r: Progress<HasVolumes<P>, EntryOutcome<P, bool>, P>)
        ensures
            r == self.has_volumes_first(manga_id),
    {
        Progress::Perform(HasVolumes { entry: self }, Action::CountVolumes { manga_id })
    }
}

impl<P: Copy> SetCover<P> {
    pub open spec fn next(self, reply: Reply<P>) -> Progress<SetCover<P>, EntryOutcome<P, ()>, P> {
        match reply {
            Reply::Done => Progress::Finished((self.entry, Ok(()))),
            Reply::Failed(e) => Progress::Finished((self.entry, Err(e))),
            _ => Progress::Finished((self.entry, Err(DbError::UnexpectedReply))),
        }
    }

    pub fn resume(self, reply: Reply<P>) -> (r: Progress<SetCover<P>, EntryOutcome<P, ()>, P>)
        ensures
            r == self.next(reply),
    {
        match reply {
            Reply::Done => Progress::Finished((self.entry, Ok(()))),
            Reply::Failed(e) => Progress::Finished((self.entry, Err(e))),
            _ => Progress::Finished((self.entry, Err(DbError::UnexpectedReply))),
        }
    }
}

impl<P: Copy> HasVolumes<P> {
    /// The series has volumes exactly when the count is positive.
    pub open spec fn next(self, reply: Reply<P>) -> Progress<HasVolumes<P>, EntryOutcome<P, bool>, P> {
        match reply {
            Reply::VolumeCount(count) => Progress::Finished((self.entry, Ok(count > 0))),
            Reply::Failed(e) => Progress::Finished((self.entry, Err(e))),
            _ => Progress::Finished((self.entry, Err(DbError::UnexpectedReply))),
        }
    }

    pub fn resume(self, reply: Reply<P>) -> (r: Progress<HasVolumes<P>, EntryOutcome<P, bool>, P>)
        ensures
            r == self.next(reply),
    {
        match reply {
            Reply::VolumeCount(count) => Progress::Finished((self.entry, Ok(count > 0))),
            Reply::Failed(e) => Progress::Finished((self.entry, Err(e))),
            _ => Progress::Finished((self.entry, Err(DbError::UnexpectedReply))),
        }
    }
}

// ---------------------------------------------------------------- initialize_volumes

impl<P: Copy> InitializeVolumes<P> {
    /// Continue after the id lookup: a missing id is an error.
    pub open spec fn after_id(p: Progress<GetId<P>, EntryOutcome<P, Option<i64>>, P>) -> Progress<InitializeVolumes<P>, EntryOutcome<P, ()>, P> {
        match p {
            Progress::Perform(lookup, a) => Progress::Perform(InitializeVolumes::FindingId { lookup }, a),
            Progress::Finished((entry, Ok(Some(id)))) => Self::after_count(entry.has_volumes_first(id), id),
            Progress::Finished((entry, Ok(None))) => Progress::Finished((entry, Err(DbError::QueryReturnedNoRows))),
            Progress::Finished((entry, Err(e))) => Progress::Finished((entry, Err(e))),
        }
    }

    /// Continue after counting: a series that has volume rows is left as it is.
    pub open spec fn after_count(p: Progress<HasVolumes<P>, EntryOutcome<P, bool>, P>, manga_id: i64) -> Progress<InitializeVolumes<P>, EntryOutcome<P, ()>, P> {
        match p {
            Progress::Perform(check, a) => Progress::Perform(InitializeVolumes::Counting { check, manga_id }, a),
            Progress::Finished((entry, Ok(true))) => Progress::Finished((entry, Ok(()))),
            Progress::Finished((entry, Ok(false))) => Progress::Perform(InitializeVolumes::Beginning { entry, manga_id }, Action::BeginTransaction),
            Progress::Finished((entry, Err(e))) => Progress::Finished((entry, Err(e))),
        }
    }

    /// Insert volume `volume_number` if it is within the count, else commit.
    pub open spec fn insert_from(entry: MangaEntry<P>, manga_id: i64, volume_number: i64) -> Progress<InitializeVolumes<P>, EntryOutcome<P, ()>, P> {
        if volume_number <= entry.volume_count {
            Progress::Perform(
                InitializeVolumes::Inserting { entry, manga_id, volume_number },
                Action::InsertEmptyVolume { manga_id, volume_number, or_ignore: false },
            )
        } else {
            Progress::Perform(InitializeVolumes::Committing { entry }, Action::CommitTransaction)
        }
    }

    pub open spec fn next(self, reply: Reply<P>) -> Progress<InitializeVolumes<P>, EntryOutcome<P, ()>, P> {
        match self {
            InitializeVolumes::FindingId { lookup } => Self::after_id(lookup.next(reply)),
            InitializeVolumes::Counting { check, manga_id } => Self::after_count(check.next(reply), manga_id),
            InitializeVolumes::Beginning { entry, manga_id } => match reply {
                Reply::Done => Progress::Perform(InitializeVolumes::Preparing { entry, manga_id }, Action::PrepareVolumeInsert { or_ignore: false }),
                Reply::Failed(e) => Progress::Finished((entry, Err(e))),
                _ => Progress::Finished((entry, Err(DbError::UnexpectedReply))),
            },
            InitializeVolumes::Preparing { entry, manga_id } => match reply {
                Reply::Done => Self::insert_from(entry, manga_id, 1),
                Reply::Failed(e) => Progress::Perform(InitializeVolumes::RollingBack { entry, error: e }, Action::RollbackTransaction),
                _ => Progress::Perform(InitializeVolumes::RollingBack { entry, error: DbError::UnexpectedReply }, Action::RollbackTransaction),
            },
            InitializeVolumes::Inserting { entry, manga_id, volume_number } => match reply {
                Reply::Done => if volume_number < entry.volume_count {
                    Self::insert_from(entry, manga_id, (volume_number + 1) as i64)
                } else {
                    Progress::Perform(InitializeVolumes::Committing { entry }, Action::CommitTransaction)
                },
                Reply::Failed(e) => Progress::Perform(InitializeVolumes::RollingBack { entry, error: e }, Action::RollbackTransaction),
                _ => Progress::Perform(InitializeVolumes::RollingBack { entry, error: DbError::UnexpectedReply }, Action::RollbackTransaction),
            },
            InitializeVolumes::Committing { entry } => match reply {
                Reply::Done => Progress::Finished((entry, Ok(()))),
                Reply::Failed(e) => Progress::Perform(InitializeVolumes::RollingBack { entry, error: e }, Action::RollbackTransaction),
                _ => Progress::Perform(InitializeVolumes::RollingBack { entry, error: DbError::UnexpectedReply }, Action::RollbackTransaction),
            },
            InitializeVolumes::RollingBack { entry, error } => Progress::Finished((entry, Err(error))),
        }
    }

    fn continue_after_id(p: Progress<GetId<P>, EntryOutcome<P, Option<i64>>, P>) -> (r: Progress<InitializeVolumes<P>, EntryOutcome<P, ()>, P>)
        ensures
            r == Self::after_id(p),
    {
        match p {
            Progress::Perform(lookup, a) => Progress::Perform(InitializeVolumes::FindingId { lookup }, a),
            Progress::Finished((entry, Ok(Some(id)))) => Self::continue_after_count(entry.has_volumes(id), id),
            Progress::Finished((entry, Ok(None))) => Progress::Finished((entry, Err(DbError::QueryReturnedNoRows))),
            Progress::Finished((entry, Err(e))) => Progress::Finished((entry, Err(e))),
        }
    }

    fn continue_after_count(p: Progress<HasVolumes<P>, EntryOutcome<P, bool>, P>, manga_id: i64) -> (r: Progress<InitializeVolumes<P>, EntryOutcome<P, ()>, P>)
        ensures
            r == Self::after_count(p, manga_id),
    {
        match p {
            Progress::Perform(check, a) => Progress::Perform(InitializeVolumes::Counting { check, manga_id }, a),
            Progress::Finished((entry, Ok(true))) => Progress::Finished((entry, Ok(()))),
            Progress::Finished((entry, Ok(false))) => Progress::Perform(InitializeVolumes::Beginning { entry, manga_id }, Action::BeginTransaction),
            Progress::Finished((entry, Err(e))) => Progress::Finished((entry, Err(e))),
        }
    }

    fn insert_volume(entry: MangaEntry<P>, manga_id: i64, volume_number: i64) -> (r: Progress<InitializeVolumes<P>, EntryOutcome<P, ()>, P>)
        ensures
            r == Self::insert_from(entry, manga_id, volume_number),
    {
        if volume_number <= entry.volume_count {
            Progress::Perform(
                InitializeVolumes::Inserting { entry, manga_id, volume_number },
                Action::InsertEmptyVolume { manga_id, volume_number, or_ignore: false },
            )
        } else {
            Progress::Perform(InitializeVolumes::Committing { entry }, Action::CommitTransaction)
        }
    }

    pub fn resume(self, reply: Reply<P>) -> (r: Progress<InitializeVolumes<P>, EntryOutcome<P, ()>, P>)
        ensures
            r == self.next(reply),
    {
        match self {
            InitializeVolumes::FindingId { lookup } => Self::continue_after_id(lookup.resume(reply)),
            InitializeVolumes::Counting { check, manga_id } => Self::continue_after_count(check.resume(reply), manga_id),
            InitializeVolumes::Beginning { entry, manga_id } => match reply {
                Reply::Done => Progress::Perform(InitializeVolumes::Preparing { entry, manga_id }, Action::PrepareVolumeInsert { or_ignore: false }),
                Reply::Failed(e) => Progress::Finished((entry, Err(e))),
                _ => Progress::Finished((entry, Err(DbError::UnexpectedReply))),
            },
            InitializeVolumes::Preparing { entry, manga_id } => match reply {
                Reply::Done => Self::insert_volume(entry, manga_id, 1),
                Reply::Failed(e) => Progress::Perform(InitializeVolumes::RollingBack { entry, error: e }, Action::RollbackTransaction),
                _ => Progress::Perform(InitializeVolumes::RollingBack { entry, error: DbError::UnexpectedReply }, Action::RollbackTransaction),
            },
            InitializeVolumes::Inserting { entry, manga_id, volume_number } => match reply {
                Reply::Done => if volume_number < entry.volume_count {
                    Self::insert_volume(entry, manga_id, volume_number + 1)
                } else {
                    Progress::Perform(InitializeVolumes::Committing { entry }, Action::CommitTransaction)
                },
                Reply::Failed(e) => Progress::Perform(InitializeVolumes::RollingBack { entry, error: e }, Action::RollbackTransaction),
                _ => Progress::Perform(InitializeVolumes::RollingBack { entry, error: DbError::UnexpectedReply }, Action::RollbackTransaction),
            },
            InitializeVolumes::Committing { entry } => match reply {
                Reply::Done => Progress::Finished((entry, Ok(()))),
                Reply::Failed(e) => Progress::Perform(InitializeVolumes::RollingBack { entry, error: e }, Action::RollbackTransaction),
                _ => Progress::Perform(InitializeVolumes::RollingBack { entry, error: DbError::UnexpectedReply }, Action::RollbackTransaction),
            },
            InitializeVolumes::RollingBack { entry, error } => Progress::Finished((entry, Err(error))),
        }
    }
}

impl<P: Copy> MangaEntry<P> {
    pub open spec fn initialize_volumes_first(self) -> Progress<InitializeVolumes<P>, EntryOutcome<P, ()>, P> {
        InitializeVolumes::after_id(self.get_id_first())
    }

    pub fn initialize_volumes(self) -> (r: Progress<InitializeVolumes<P>, EntryOutcome<P, ()>, P>)
        ensures
            r == self.initialize_volumes_first(),
    {
        InitializeVolumes::continue_after_id(self.get_id())
    }
}


// ---------------------------------------------------------------- init

impl<P: Copy> Init<P> {
    /// How `init` goes on once `save` has moved to `p`: after a successful save the
    /// volumes are added.
    pub open spec fn after_save_is(p: Progress<Save<P>, EntryOutcome<P, ()>, P>, r: Progress<Init<P>, EntryOutcome<P, ()>, P>) -> bool {
        match p {
            Progress::Perform(save, a) => r == Progress::<Init<P>, EntryOutcome<P, ()>, P>::Perform(Init::Saving { save }, a),
            Progress::Finished((entry, Ok(()))) => Self::after_volumes_is(entry.initialize_volumes_first(), r),
            Progress::Finished((entry, Err(e))) => r == Progress::<Init<P>, EntryOutcome<P, ()>, P>::Finished((entry, Err(e))),
        }
    }

    /// How `init` goes on once the addition of the volumes has moved to `p`: afterwards the
    /// id is looked up.
    pub open spec fn after_volumes_is(p: Progress<InitializeVolumes<P>, EntryOutcome<P, ()>, P>, r: Progress<Init<P>, EntryOutcome<P, ()>, P>) -> bool {
        match p {
            Progress::Perform(volumes, a) => r == Progress::<Init<P>, EntryOutcome<P, ()>, P>::Perform(Init::InitializingVolumes { volumes }, a),
            Progress::Finished((entry, Ok(()))) => Self::after_id_is(entry.get_id_first(), r),
            Progress::Finished((entry, Err(e))) => r == Progress::<Init<P>, EntryOutcome<P, ()>, P>::Finished((entry, Err(e))),
        }
    }

    /// How `init` goes on once the id lookup has moved to `p`: whether or not an id was
    /// found, the cover search begins, with the series' first cover file name.
    pub open spec fn after_id_is(p: Progress<GetId<P>, EntryOutcome<P, Option<i64>>, P>, r: Progress<Init<P>, EntryOutcome<P, ()>, P>) -> bool {
        match p {
            Progress::Perform(lookup, a) => r == Progress::<Init<P>, EntryOutcome<P, ()>, P>::Perform(Init::FindingId { lookup }, a),
            Progress::Finished((entry, Ok(_))) => r matches Progress::Perform(Init::FindingCover { entry: e, find }, a)
                && e == entry
                && FindCover::tries_is(cover_slug(entry.name@), 0, Progress::<FindCover, Option<String>, P>::Perform(find, a)),
            Progress::Finished((entry, Err(e))) => r == Progress::<Init<P>, EntryOutcome<P, ()>, P>::Finished((entry, Err(e))),
        }
    }

    pub open spec fn after_cover(p: Progress<SetCover<P>, EntryOutcome<P, ()>, P>) -> Progress<Init<P>, EntryOutcome<P, ()>, P> {
        match p {
            Progress::Perform(cover, a) => Progress::Perform(Init::SettingCover { cover }, a),
            Progress::Finished(out) => Progress::Finished(out),
        }
    }

    /// How `init` goes on after `reply`. A cover found is written with the entry's id;
    /// with none, `init` succeeds as it is.
    pub open spec fn next_is(self, reply: Reply<P>, r: Progress<Init<P>, EntryOutcome<P, ()>, P>) -> bool {
        match self {
            Init::Saving { save } => Self::after_save_is(save.next(reply), r),
            Init::InitializingVolumes { volumes } => Self::after_volumes_is(volumes.next(reply), r),
            Init::FindingId { lookup } => Self::after_id_is(lookup.next(reply), r),
            Init::SettingCover { cover } => r == Self::after_cover(cover.next(reply)),
            Init::FindingCover { entry, find } => match r {
                Progress::Perform(Init::FindingCover { entry: e, find: f }, a) => e == entry
                    && find.next_is(reply, Progress::<FindCover, Option<String>, P>::Perform(f, a)),
                Progress::Perform(Init::SettingCover { cover }, Action::UpdateMangaCover { id, new_path }) => cover == (SetCover { entry })
                    && id == entry.id
                    && find.next_is(reply, Progress::<FindCover, Option<String>, P>::Finished(Some(new_path))),
                Progress::Finished(out) => out == (entry, Ok::<(), DbError>(()))
                    && find.next_is(reply, Progress::<FindCover, Option<String>, P>::Finished(None)),
                _ => false,
            },
        }
    }

    fn continue_after_save(p: Progress<Save<P>, EntryOutcome<P, ()>, P>) -> (r: Progress<Init<P>, EntryOutcome<P, ()>, P>)
        ensures
            Self::after_save_is(p, r),
    {
        match p {
            Progress::Perform(save, a) => Progress::Perform(Init::Saving { save }, a),
            Progress::Finished((entry, Ok(()))) => Self::continue_after_volumes(entry.initialize_volumes()),
            Progress::Finished((entry, Err(e))) => Progress::Finished((entry, Err(e))),
        }
    }

    fn continue_after_volumes(p: Progress<InitializeVolumes<P>, EntryOutcome<P, ()>, P>) -> (r: Progress<Init<P>, EntryOutcome<P, ()>, P>)
        ensures
            Self::after_volumes_is(p, r),
    {
        match p {
            Progress::Perform(volumes, a) => Progress::Perform(Init::InitializingVolumes { volumes }, a),
            Progress::Finished((entry, Ok(()))) => Self::continue_after_id(entry.get_id()),
            Progress::Finished((entry, Err(e))) => Progress::Finished((entry, Err(e))),
        }
    }

    fn continue_after_id(p: Progress<GetId<P>, EntryOutcome<P, Option<i64>>, P>) -> (r: Progress<Init<P>, EntryOutcome<P, ()>, P>)
        ensures
            Self::after_id_is(p, r),
    {
        match p {
            Progress::Perform(lookup, a) => Progress::Perform(Init::FindingId { lookup }, a),
            Progress::Finished((entry, Ok(_))) => match find_cover_for::<P>(entry.name.as_str()) {
                Progress::Perform(find, a) => Progress::Perform(Init::FindingCover { entry, find }, a),
                Progress::Finished(_) => Progress::Finished((entry, Ok(()))),
            },
            Progress::Finished((entry, Err(e))) => Progress::Finished((entry, Err(e))),
        }
    }

    fn continue_after_cover(p: Progress<SetCover<P>, EntryOutcome<P, ()>, P>) -> (r: Progress<Init<P>, EntryOutcome<P, ()>, P>)
        ensures
            r == Self::after_cover(p),
    {
        match p {
            Progress::Perform(cover, a) => Progress::Perform(Init::SettingCover { cover }, a),
            Progress::Finished(out) => Progress::Finished(out),
        }
    }

    pub fn resume(self, reply: Reply<P>) -> (r: Progress<Init<P>, EntryOutcome<P, ()>, P>)
        ensures
            self.next_is(reply, r),
    {
        match self {
            Init::Saving { save } => Self::continue_after_save(save.resume(reply)),
            Init::InitializingVolumes { volumes } => Self::continue_after_volumes(volumes.resume(reply)),
            Init::FindingId { lookup } => Self::continue_after_id(lookup.resume(reply)),
            Init::SettingCover { cover } => Self::continue_after_cover(cover.resume(reply)),
            Init::FindingCover { entry, find } => match find.resume(reply) {
                Progress::Perform(find, a) => Progress::Perform(Init::FindingCover { entry, find }, a),
                Progress::Finished(Some(path)) => Self::continue_after_cover(entry.set_cover(path)),
                Progress::Finished(None) => Progress::Finished((entry, Ok(()))),
            },
        }
    }
}

impl<P: Copy> MangaEntry<P> {
    /// `init` begins with the existence check of `save`.
    pub open spec fn init_first(self) -> Progress<Init<P>, EntryOutcome<P, ()>, P> {
        Progress::Perform(Init::Saving { save: Save::Checking { entry: self } }, Action::CheckMangaStored { name: self.name })
    }

    pub fn init(self) -> (r: Progress<Init<P>, EntryOutcome<P, ()>, P>)
        ensures
            r == self.init_first(),
    {
        match self.save() {
            Progress::Perform(save, a) => Progress::Perform(Init::Saving { save }, a),
            Progress::Finished(out) => Progress::Finished(out),
        }
    }
}


// ---------------------------------------------------------------- set_volume_count

impl<P: Copy> SetVolumeCount<P> {
    pub open spec fn after_id(p: Progress<GetId<P>, EntryOutcome<P, Option<i64>>, P>, new_count: i64) -> Progress<SetVolumeCount<P>, EntryOutcome<P, ()>, P> {
        match p {
            Progress::Perform(lookup, a) => Progress::Perform(SetVolumeCount::FindingId { lookup, new_count }, a),
            Progress::Finished((entry, Ok(Some(manga_id)))) => Progress::Perform(
                SetVolumeCount::Beginning { entry, manga_id, new_count },
                Action::BeginTransaction,
            ),
            Progress::Finished((entry, Ok(None))) => Progress::Finished((entry, Err(DbError::QueryReturnedNoRows))),
            Progress::Finished((entry, Err(e))) => Progress::Finished((entry, Err(e))),
        }
    }

    pub open spec fn rollback(entry: MangaEntry<P>, error: DbError) -> Progress<SetVolumeCount<P>, EntryOutcome<P, ()>, P> {
        Progress::Perform(SetVolumeCount::RollingBack { entry, error }, Action::RollbackTransaction)
    }

    pub open spec fn record(entry: MangaEntry<P>, manga_id: i64, new_count: i64) -> Progress<SetVolumeCount<P>, EntryOutcome<P, ()>, P> {
        Progress::Perform(
            SetVolumeCount::Recording { entry, manga_id, new_count },
            Action::UpdateVolumeCount { manga_id, volume_count: new_count },
        )
    }

    pub open spec fn insert(entry: MangaEntry<P>, manga_id: i64, new_count: i64, volume_number: i64) -> Progress<SetVolumeCount<P>, EntryOutcome<P, ()>, P> {
        Progress::Perform(
            SetVolumeCount::Inserting { entry, manga_id, new_count, volume_number },
            Action::InsertEmptyVolume { manga_id, volume_number, or_ignore: true },
        )
    }

    /// How `set_volume_count` goes on after `reply`. Growing inserts volumes
    /// `old + 1 ..= new` one by one; shrinking deletes the rows above the new count; then
    /// the count is recorded and the transaction committed. Only after the commit does the
    /// entry take the new count and, when shrinking, drop the cached volumes above it.
    /// Any failure inside the transaction, the commit's included, rolls it back and ends
    /// with that failure.
    pub open spec fn next_is(self, reply: Reply<P>, r: Progress<SetVolumeCount<P>, EntryOutcome<P, ()>, P>) -> bool {
        match self {
            SetVolumeCount::FindingId { lookup, new_count } => r == Self::after_id(lookup.next(reply), new_count),
            SetVolumeCount::Beginning { entry, manga_id, new_count } => {
                let p: Progress<Self, EntryOutcome<P, ()>, P> = match reply {
                    Reply::Done => if new_count > entry.volume_count {
                        Progress::Perform(
                            SetVolumeCount::Preparing { entry, manga_id, new_count },
                            Action::PrepareVolumeInsert { or_ignore: true },
                        )
                    } else {
                        Progress::Perform(
                            SetVolumeCount::Deleting { entry, manga_id, new_count },
                            Action::DeleteVolumesAbove { manga_id, volume_number: new_count },
                        )
                    },
                    Reply::Failed(e) => Progress::Finished((entry, Err(e))),
                    _ => Progress::Finished((entry, Err(DbError::UnexpectedReply))),
                };
                r == p
            },
            SetVolumeCount::Preparing { entry, manga_id, new_count } => {
                let p: Progress<Self, EntryOutcome<P, ()>, P> = match reply {
                    Reply::Done => if entry.volume_count < new_count {
                        Self::insert(entry, manga_id, new_count, (entry.volume_count + 1) as i64)
                    } else {
                        Self::record(entry, manga_id, new_count)
                    },
                    Reply::Failed(e) => Self::rollback(entry, e),
                    _ => Self::rollback(entry, DbError::UnexpectedReply),
                };
                r == p
            },
            SetVolumeCount::Inserting { entry, manga_id, new_count, volume_number } => {
                let p: Progress<Self, EntryOutcome<P, ()>, P> = match reply {
                    Reply::Done => if volume_number < new_count {
                        Self::insert(entry, manga_id, new_count, (volume_number + 1) as i64)
                    } else {
                        Self::record(entry, manga_id, new_count)
                    },
                    Reply::Failed(e) => Self::rollback(entry, e),
                    _ => Self::rollback(entry, DbError::UnexpectedReply),
                };
                r == p
            },
            SetVolumeCount::Deleting { entry, manga_id, new_count } => {
                let p: Progress<Self, EntryOutcome<P, ()>, P> = match reply {
                    Reply::Done => Self::record(entry, manga_id, new_count),
                    Reply::Failed(e) => Self::rollback(entry, e),
                    _ => Self::rollback(entry, DbError::UnexpectedReply),
                };
                r == p
            },
            SetVolumeCount::Recording { entry, manga_id, new_count } => {
                let p: Progress<Self, EntryOutcome<P, ()>, P> = match reply {
                    Reply::Done => Progress::Perform(SetVolumeCount::Committing { entry, new_count }, Action::CommitTransaction),
                    Reply::Failed(e) => Self::rollback(entry, e),
                    _ => Self::rollback(entry, DbError::UnexpectedReply),
                };
                r == p
            },
            SetVolumeCount::Committing { entry, new_count } => match reply {
                Reply::Done => r matches Progress::Finished((e, Ok(()))) && e == entry.with_volumes(new_count, e.volumes)
                    && e.volumes@ == if new_count < entry.volume_count {
                        volumes_up_to(entry.volumes@, new_count)
                    } else {
                        entry.volumes@
                    },
                Reply::Failed(e) => r == Self::rollback(entry, e),
                _ => r == Self::rollback(entry, DbError::UnexpectedReply),
            },
            SetVolumeCount::RollingBack { entry, error } => r == Progress::<SetVolumeCount<P>, EntryOutcome<P, ()>, P>::Finished((entry, Err(error))),
        }
    }

    fn continue_after_id(p: Progress<GetId<P>, EntryOutcome<P, Option<i64>>, P>, new_count: i64) -> (r: Progress<SetVolumeCount<P>, EntryOutcome<P, ()>, P>)
        ensures
            r == Self::after_id(p, new_count),
    {
        match p {
            Progress::Perform(lookup, a) => Progress::Perform(SetVolumeCount::FindingId { lookup, new_count }, a),
            Progress::Finished((entry, Ok(Some(manga_id)))) => Progress::Perform(
                SetVolumeCount::Beginning { entry, manga_id, new_count },
                Action::BeginTransaction,
            ),
            Progress::Finished((entry, Ok(None))) => Progress::Finished((entry, Err(DbError::QueryReturnedNoRows))),
            Progress::Finished((entry, Err(e))) => Progress::Finished((entry, Err(e))),
        }
    }

    pub fn resume(self, reply: Reply<P>) -> (r: Progress<SetVolumeCount<P>, EntryOutcome<P, ()>, P>)
        ensures
            self.next_is(reply, r),
    {
        match self {
            SetVolumeCount::FindingId { lookup, new_count } => Self::continue_after_id(lookup.resume(reply), new_count),
            SetVolumeCount::Beginning { entry, manga_id, new_count } => match reply {
                Reply::Done => if new_count > entry.volume_count {
                    Progress::Perform(
                        SetVolumeCount::Preparing { entry, manga_id, new_count },
                        Action::PrepareVolumeInsert { or_ignore: true },
                    )
                } else {
                    Progress::Perform(
                        SetVolumeCount::Deleting { entry, manga_id, new_count },
                        Action::DeleteVolumesAbove { manga_id, volume_number: new_count },
                    )
                },
                Reply::Failed(e) => Progress::Finished((entry, Err(e))),
                _ => Progress::Finished((entry, Err(DbError::UnexpectedReply))),
            },
            SetVolumeCount::Preparing { entry, manga_id, new_count } => match reply {
                Reply::Done => if entry.volume_count < new_count {
                    let first = entry.volume_count + 1;
                    Progress::Perform(
                        SetVolumeCount::Inserting { entry, manga_id, new_count, volume_number: first },
                        Action::InsertEmptyVolume { manga_id, volume_number: first, or_ignore: true },
                    )
                } else {
                    Progress::Perform(
                        SetVolumeCount::Recording { entry, manga_id, new_count },
                        Action::UpdateVolumeCount { manga_id, volume_count: new_count },
                    )
                },
                Reply::Failed(e) => Progress::Perform(SetVolumeCount::RollingBack { entry, error: e }, Action::RollbackTransaction),
                _ => Progress::Perform(SetVolumeCount::RollingBack { entry, error: DbError::UnexpectedReply }, Action::RollbackTransaction),
            },
            SetVolumeCount::Inserting { entry, manga_id, new_count, volume_number } => match reply {
                Reply::Done => if volume_number < new_count {
                    let next = volume_number + 1;
                    Progress::Perform(
                        SetVolumeCount::Inserting { entry, manga_id, new_count, volume_number: next },
                        Action::InsertEmptyVolume { manga_id, volume_number: next, or_ignore: true },
                    )
                } else {
                    Progress::Perform(
                        SetVolumeCount::Recording { entry, manga_id, new_count },
                        Action::UpdateVolumeCount { manga_id, volume_count: new_count },
                    )
                },
                Reply::Failed(e) => Progress::Perform(SetVolumeCount::RollingBack { entry, error: e }, Action::RollbackTransaction),
                _ => Progress::Perform(SetVolumeCount::RollingBack { entry, error: DbError::UnexpectedReply }, Action::RollbackTransaction),
            },
            SetVolumeCount::Deleting { entry, manga_id, new_count } => match reply {
                Reply::Done => Progress::Perform(
                    SetVolumeCount::Recording { entry, manga_id, new_count },
                    Action::UpdateVolumeCount { manga_id, volume_count: new_count },
                ),
                Reply::Failed(e) => Progress::Perform(SetVolumeCount::RollingBack { entry, error: e }, Action::RollbackTransaction),
                _ => Progress::Perform(SetVolumeCount::RollingBack { entry, error: DbError::UnexpectedReply }, Action::RollbackTransaction),
            },
            SetVolumeCount::Recording { entry, manga_id, new_count } => match reply {
                Reply::Done => Progress::Perform(SetVolumeCount::Committing { entry, new_count }, Action::CommitTransaction),
                Reply::Failed(e) => Progress::Perform(SetVolumeCount::RollingBack { entry, error: e }, Action::RollbackTransaction),
                _ => Progress::Perform(SetVolumeCount::RollingBack { entry, error: DbError::UnexpectedReply }, Action::RollbackTransaction),
            },
            SetVolumeCount::Committing { entry, new_count } => match reply {
                Reply::Done => {
                    let MangaEntry { name, volume_count, last_price, mut volumes, cover_path, id } = entry;
                    if new_count < volume_count {
                        retain_up_to(&mut volumes, new_count);
                    }
                    Progress::Finished((MangaEntry { name, volume_count: new_count, last_price, volumes, cover_path, id }, Ok(())))
                },
                Reply::Failed(e) => Progress::Perform(SetVolumeCount::RollingBack { entry, error: e }, Action::RollbackTransaction),
                _ => Progress::Perform(SetVolumeCount::RollingBack { entry, error: DbError::UnexpectedReply }, Action::RollbackTransaction),
            },
            SetVolumeCount::RollingBack { entry, error } => Progress::Finished((entry, Err(error))),
        }
    }
}

impl<P: Copy> MangaEntry<P> {
    /// A count equal to the current one, or below one, changes nothing and succeeds at once.
    /// Otherwise the id is needed, and a missing id is an error.
    pub open spec fn set_volume_count_first(self, new_count: i64) -> Progress<SetVolumeCount<P>, EntryOutcome<P, ()>, P> {
        if new_count == self.volume_count || new_count < 1 {
            Progress::Finished((self, Ok(())))
        } else {
            SetVolumeCount::after_id(self.get_id_first(), new_count)
        }
    }

    pub fn set_volume_count(self, new_count: i64) -> (r: Progress<SetVolumeCount<P>, EntryOutcome<P, ()>, P>)
        ensures
            r == self.set_volume_count_first(new_count),
    {
        if new_count == self.volume_count || new_count < 1 {
            Progress::Finished((self, Ok(())))
        } else {
            SetVolumeCount::continue_after_id(self.get_id(), new_count)
        }
    }
}

// ---------------------------------------------------------------- update_metadata

impl<P: Copy> MangaEntry<P> {
    /// The new price is taken at once and written to the row with the entry's name.
    pub open spec fn update_metadata_first(self, new_count: i64, new_price: P) -> Progress<UpdateMetadata<P>, EntryOutcome<P, ()>, P> {
        let entry = MangaEntry { last_price: new_price, ..self };
        Progress::Perform(
            UpdateMetadata::UpdatingPrice { entry, new_count },
            Action::UpdateMangaPrice { name: entry.name, last_price: new_price },
        )
    }

    pub fn update_metadata(self, new_count: i64, new_price: P) -> (r: Progress<UpdateMetadata<P>, EntryOutcome<P, ()>, P>)
        ensures
            r == self.update_metadata_first(new_count, new_price),
    {
        let mut entry = self;
        entry.edit_last_price(new_price);
        let name = entry.name.clone();
        Progress::Perform(
            UpdateMetadata::UpdatingPrice { entry, new_count },
            Action::UpdateMangaPrice { name, last_price: new_price },
        )
    }
}

impl<P: Copy> UpdateMetadata<P> {
    pub open spec fn after_price(p: Progress<SetVolumeCount<P>, EntryOutcome<P, ()>, P>) -> Progress<UpdateMetadata<P>, EntryOutcome<P, ()>, P> {
        match p {
            Progress::Perform(count, a) => Progress::Perform(UpdateMetadata::SettingCount { count }, a),
            Progress::Finished(out) => Progress::Finished(out),
        }
    }

    /// After the price is written the volume count is set as `set_volume_count` does;
    /// a failed price write ends it with that failure.
    pub open spec fn next_is(self, reply: Reply<P>, r: Progress<UpdateMetadata<P>, EntryOutcome<P, ()>, P>) -> bool {
        match self {
            UpdateMetadata::UpdatingPrice { entry, new_count } => {
                let p: Progress<Self, EntryOutcome<P, ()>, P> = match reply {
                    Reply::Done => Self::after_price(entry.set_volume_count_first(new_count)),
                    Reply::Failed(e) => Progress::Finished((entry, Err(e))),
                    _ => Progress::Finished((entry, Err(DbError::UnexpectedReply))),
                };
                r == p
            },
            UpdateMetadata::SettingCount { count } => match r {
                Progress::Perform(UpdateMetadata::SettingCount { count: c }, a) => count.next_is(reply, Progress::Perform(c, a)),
                Progress::Finished(out) => count.next_is(reply, Progress::Finished(out)),
                _ => false,
            },
        }
    }

    fn continue_after_price(p: Progress<SetVolumeCount<P>, EntryOutcome<P, ()>, P>) -> (r: Progress<UpdateMetadata<P>, EntryOutcome<P, ()>, P>)
        ensures
            r == Self::after_price(p),
    {
        match p {
            Progress::Perform(count, a) => Progress::Perform(UpdateMetadata::SettingCount { count }, a),
            Progress::Finished(out) => Progress::Finished(out),
        }
    }

    pub fn resume(self, reply: Reply<P>) -> (r: Progress<UpdateMetadata<P>, EntryOutcome<P, ()>, P>)
        ensures
            self.next_is(reply, r),
    {
        match self {
            UpdateMetadata::UpdatingPrice { entry, new_count } => match reply {
                Reply::Done => Self::continue_after_price(entry.set_volume_count(new_count)),
                Reply::Failed(e) => Progress::Finished((entry, Err(e))),
                _ => Progress::Finished((entry, Err(DbError::UnexpectedReply))),
            },
            UpdateMetadata::SettingCount { count } => Self::continue_after_price(count.resume(reply)),
        }
    }
}


// ---------------------------------------------------------------- get_volume

impl<P: Copy> GetVolume<P> {
    /// Once the id is known, a volume already cached under the number is answered from
    /// the cache; otherwise its row is looked up. The answer is the number the volume is
    /// cached under, through which it is read and changed in the cache. A missing id is an
    /// error.
    pub open spec fn after_id(p: Progress<GetId<P>, EntryOutcome<P, Option<i64>>, P>, volume_number: i64) -> Progress<GetVolume<P>, EntryOutcome<P, i64>, P> {
        match p {
            Progress::Perform(lookup, a) => Progress::Perform(GetVolume::FindingId { lookup, volume_number }, a),
            Progress::Finished((entry, Ok(Some(manga_id)))) => if entry.volumes@.contains_key(volume_number) {
                Progress::Finished((entry, Ok(volume_number)))
            } else {
                Progress::Perform(
                    GetVolume::Loading { entry, manga_id, volume_number },
                    Action::LookupVolume { manga_id, volume_number },
                )
            },
            Progress::Finished((entry, Ok(None))) => Progress::Finished((entry, Err(DbError::QueryReturnedNoRows))),
            Progress::Finished((entry, Err(e))) => Progress::Finished((entry, Err(e))),
        }
    }

    /// A loaded volume (not yet known to be stored) is cached under its number and answered.
    pub open spec fn next_is(self, reply: Reply<P>, r: Progress<GetVolume<P>, EntryOutcome<P, i64>, P>) -> bool {
        match self {
            GetVolume::FindingId { lookup, volume_number } => r == Self::after_id(lookup.next(reply), volume_number),
            GetVolume::Loading { entry, manga_id, volume_number } => match reply {
                Reply::Volume { owned, bought_price } => {
                    let v = MangaVolume { owned, volume_number, manga_id, bought_price, stored_state: false };
                    r matches Progress::Finished((e, Ok(w)))
                        && e == MangaEntry { volumes: e.volumes, ..entry }
                        && e.volumes@ == entry.volumes@.insert(volume_number, v)
                        && w == volume_number
                },
                Reply::Failed(e) => r == Progress::<GetVolume<P>, EntryOutcome<P, i64>, P>::Finished((entry, Err(e))),
                _ => r == Progress::<GetVolume<P>, EntryOutcome<P, i64>, P>::Finished((entry, Err(DbError::UnexpectedReply))),
            },
        }
    }

    fn continue_after_id(p: Progress<GetId<P>, EntryOutcome<P, Option<i64>>, P>, volume_number: i64) -> (r: Progress<GetVolume<P>, EntryOutcome<P, i64>, P>)
        ensures
            r == Self::after_id(p, volume_number),
    {
        match p {
            Progress::Perform(lookup, a) => Progress::Perform(GetVolume::FindingId { lookup, volume_number }, a),
            Progress::Finished((entry, Ok(Some(manga_id)))) => {
                if entry.volumes.contains_key(&volume_number) {
                    Progress::Finished((entry, Ok(volume_number)))
                } else {
                    Progress::Perform(
                        GetVolume::Loading { entry, manga_id, volume_number },
                        Action::LookupVolume { manga_id, volume_number },
                    )
                }
            },
            Progress::Finished((entry, Ok(None))) => Progress::Finished((entry, Err(DbError::QueryReturnedNoRows))),
            Progress::Finished((entry, Err(e))) => Progress::Finished((entry, Err(e))),
        }
    }

    pub fn resume(self, reply: Reply<P>) -> (r: Progress<GetVolume<P>, EntryOutcome<P, i64>, P>)
        ensures
            self.next_is(reply, r),
    {
        match self {
            GetVolume::FindingId { lookup, volume_number } => Self::continue_after_id(lookup.resume(reply), volume_number),
            GetVolume::Loading { entry, manga_id, volume_number } => match reply {
                Reply::Volume { owned, bought_price } => {
                    let mut entry = entry;
                    let v = MangaVolume::new(owned, volume_number, manga_id, bought_price);
                    entry.volumes.insert(volume_number, v);
                    Progress::Finished((entry, Ok(volume_number)))
                },
                Reply::Failed(e) => Progress::Finished((entry, Err(e))),
                _ => Progress::Finished((entry, Err(DbError::UnexpectedReply))),
            },
        }
    }
}

impl<P: Copy> MangaEntry<P> {
    pub open spec fn get_volume_first(self, volume_number: i64) -> Progress<GetVolume<P>, EntryOutcome<P, i64>, P> {
        GetVolume::after_id(self.get_id_first(), volume_number)
    }

    pub fn get_volume(self, volume_number: i64) -> (r: Progress<GetVolume<P>, EntryOutcome<P, i64>, P>)
        ensures
            r == self.get_volume_first(volume_number),
    {
        GetVolume::continue_after_id(self.get_id(), volume_number)
    }
}

// ---------------------------------------------------------------- store / set_owned

/// The write of `volume`'s ownership and price: an update of its row, or an insert.
pub open spec fn volume_write<P>(volume: MangaVolume<P>, exists: bool) -> Action<P> {
    if exists {
        Action::UpdateVolume {
            manga_id: volume.manga_id,
            volume_number: volume.volume_number,
            owned: volume.owned,
            bought_price: volume.bought_price,
        }
    } else {
        Action::InsertVolume {
            manga_id: volume.manga_id,
            volume_number: volume.volume_number,
            owned: volume.owned,
            bought_price: volume.bought_price,
        }
    }
}

fn make_volume_write<P: Copy>(volume: &MangaVolume<P>, exists: bool) -> (r: Action<P>)
    ensures
        r == volume_write(*volume, exists),
{
    if exists {
        Action::UpdateVolume {
            manga_id: volume.manga_id,
            volume_number: volume.volume_number,
            owned: volume.owned,
            bought_price: volume.bought_price,
        }
    } else {
        Action::InsertVolume {
            manga_id: volume.manga_id,
            volume_number: volume.volume_number,
            owned: volume.owned,
            bought_price: volume.bought_price,
        }
    }
}

impl<P: Copy> MangaVolume<P> {
    /// A volume already known to be stored skips the existence check (and says so); otherwise its row is looked for.
    pub open spec fn store_first(self) -> Progress<Store<P>, VolumeOutcome<P, bool>, P> {
        if self.stored_state {
            Progress::Perform(Store::Reporting { volume: self }, Action::ReportSkippedCheck)
        } else {
            Progress::Perform(
                Store::Checking { volume: self },
                Action::CheckVolumeStored { manga_id: self.manga_id, volume_number: self.volume_number },
            )
        }
    }

    pub fn store(self) -> (r: Progress<Store<P>, VolumeOutcome<P, bool>, P>)
        ensures
            r == self.store_first(),
    {
        if self.known_stored() {
            Progress::Perform(Store::Reporting { volume: self }, Action::ReportSkippedCheck)
        } else {
            let manga_id = self.manga_id;
            let volume_number = self.volume_number;
            Progress::Perform(Store::Checking { volume: self }, Action::CheckVolumeStored { manga_id, volume_number })
        }
    }

    /// Setting the state the volume already has does nothing and succeeds; otherwise the
    /// new state is taken and stored.
    pub open spec fn set_owned_first(self, state: bool) -> Progress<SetOwned<P>, VolumeOutcome<P, ()>, P> {
        if self.owned == state {
            Progress::Finished((self, Ok(())))
        } else {
            SetOwned::after_store(self.with_owned(state).store_first())
        }
    }

    pub fn set_owned(self, state: bool) -> (r: Progress<SetOwned<P>, VolumeOutcome<P, ()>, P>)
        ensures
            r == self.set_owned_first(state),
    {
        if self.owned == state {
            Progress::Finished((self, Ok(())))
        } else {
            SetOwned::continue_after_store(self.set_owned_state(state).store())
        }
    }
}

impl<P: Copy> Store<P> {
    /// A row found is updated; no row means the volume is recorded as stored and inserted.
    pub open spec fn next(self, reply: Reply<P>) -> Progress<Store<P>, VolumeOutcome<P, bool>, P> {
        match self {
            Store::Reporting { volume } => Progress::Perform(Store::Writing { volume }, volume_write(volume, true)),
            Store::Checking { volume } => match reply {
                Reply::Found => Progress::Perform(
                    Store::Writing { volume: volume.marked_stored() },
                    volume_write(volume.marked_stored(), true),
                ),
                Reply::Failed(DbError::QueryReturnedNoRows) => Progress::Perform(
                    Store::Writing { volume: volume.marked_stored() },
                    volume_write(volume.marked_stored(), false),
                ),
                Reply::Failed(e) => Progress::Finished((volume, Err(e))),
                _ => Progress::Finished((volume, Err(DbError::UnexpectedReply))),
            },
            Store::Writing { volume } => match reply {
                Reply::Done => Progress::Finished((volume, Ok(true))),
                Reply::Failed(e) => Progress::Finished((volume, Err(e))),
                _ => Progress::Finished((volume, Err(DbError::UnexpectedReply))),
            },
        }
    }

    pub fn resume(self, reply: Reply<P>) -> (r: Progress<Store<P>, VolumeOutcome<P, bool>, P>)
        ensures
            r == self.next(reply),
    {
        match self {
            Store::Reporting { volume } => {
                let a = make_volume_write(&volume, true);
                Progress::Perform(Store::Writing { volume }, a)
            },
            Store::Checking { volume } => match reply {
                Reply::Found => {
                    let volume = volume.mark_stored();
                    let a = make_volume_write(&volume, true);
                    Progress::Perform(Store::Writing { volume }, a)
                },
                Reply::Failed(DbError::QueryReturnedNoRows) => {
                    let volume = volume.mark_stored();
                    let a = make_volume_write(&volume, false);
                    Progress::Perform(Store::Writing { volume }, a)
                },
                Reply::Failed(e) => Progress::Finished((volume, Err(e))),
                _ => Progress::Finished((volume, Err(DbError::UnexpectedReply))),
            },
            Store::Writing { volume } => match reply {
                Reply::Done => Progress::Finished((volume, Ok(true))),
                Reply::Failed(e) => Progress::Finished((volume, Err(e))),
                _ => Progress::Finished((volume, Err(DbError::UnexpectedReply))),
            },
        }
    }
}

impl<P: Copy> SetOwned<P> {
    pub open spec fn after_store(p: Progress<Store<P>, VolumeOutcome<P, bool>, P>) -> Progress<SetOwned<P>, VolumeOutcome<P, ()>, P> {
        match p {
            Progress::Perform(store, a) => Progress::Perform(SetOwned { store }, a),
            Progress::Finished((volume, Ok(_))) => Progress::Finished((volume, Ok(()))),
            Progress::Finished((volume, Err(e))) => Progress::Finished((volume, Err(e))),
        }
    }

    pub open spec fn next(self, reply: Reply<P>) -> Progress<SetOwned<P>, VolumeOutcome<P, ()>, P> {
        Self::after_store(self.store.next(reply))
    }

    fn continue_after_store(p: Progress<Store<P>, VolumeOutcome<P, bool>, P>) -> (r: Progress<SetOwned<P>, VolumeOutcome<P, ()>, P>)
        ensures
            r == Self::after_store(p),
    {
        match p {
            Progress::Perform(store, a) => Progress::Perform(SetOwned { store }, a),
            Progress::Finished((volume, Ok(_))) => Progress::Finished((volume, Ok(()))),
            Progress::Finished((volume, Err(e))) => Progress::Finished((volume, Err(e))),
        }
    }

    pub fn resume(self, reply: Reply<P>) -> (r: Progress<SetOwned<P>, VolumeOutcome<P, ()>, P>)
        ensures
            r == self.next(reply),
    {
        Self::continue_after_store(self.store.resume(reply))
    }
}

impl<P: Copy> MangaEntry<P> {
    /// `set_owned(state)` on the volume cached under `volume_number`; when it asks nothing
    /// of the database, the volume (already in `state`) and the cache stay as they are.
    pub open spec fn set_cached_owned_first(self, volume_number: i64, state: bool) -> Progress<SetCachedOwned<P>, EntryOutcome<P, ()>, P> {
        match self.volumes@[volume_number].set_owned_first(state) {
            Progress::Perform(owned, a) => Progress::Perform(SetCachedOwned { entry: self, volume_number, owned }, a),
            Progress::Finished((_, r)) => Progress::Finished((self, r)),
        }
    }

    pub fn set_cached_owned(self, volume_number: i64, state: bool) -> (r: Progress<SetCachedOwned<P>, EntryOutcome<P, ()>, P>)
        requires
            self.volumes@.contains_key(volume_number),
        ensures
            r == self.set_cached_owned_first(volume_number, state),
    {
        let volume: MangaVolume<P> = *self.volumes.get(&volume_number).unwrap();
        match volume.set_owned(state) {
            Progress::Perform(owned, a) => Progress::Perform(SetCachedOwned { entry: self, volume_number, owned }, a),
            Progress::Finished((_, r)) => Progress::Finished((self, r)),
        }
    }
}

impl<P: Copy> SetCachedOwned<P> {
    /// `set_owned` goes on; once it ends, the volume as it then is, new state and stored
    /// knowledge included, replaces the cached one, whatever the result.
    pub open spec fn next_is(self, reply: Reply<P>, r: Progress<SetCachedOwned<P>, EntryOutcome<P, ()>, P>) -> bool {
        match self.owned.next(reply) {
            Progress::Perform(owned, a) => r == Progress::<SetCachedOwned<P>, EntryOutcome<P, ()>, P>::Perform(
                SetCachedOwned { entry: self.entry, volume_number: self.volume_number, owned },
                a,
            ),
            Progress::Finished((v, res)) => r matches Progress::Finished((e, res2)) && res2 == res
                && e == MangaEntry { volumes: e.volumes, ..self.entry }
                && e.volumes@ == self.entry.volumes@.insert(self.volume_number, v),
        }
    }

    pub fn resume(self, reply: Reply<P>) -> (r: Progress<SetCachedOwned<P>, EntryOutcome<P, ()>, P>)
        ensures
            self.next_is(reply, r),
    {
        let SetCachedOwned { entry, volume_number, owned } = self;
        match owned.resume(reply) {
            Progress::Perform(owned, a) => Progress::Perform(SetCachedOwned { entry, volume_number, owned }, a),
            Progress::Finished((v, res)) => {
                let mut entry = entry;
                entry.volumes.insert(volume_number, v);
                Progress::Finished((entry, res))
            },
        }
    }
}

} // verus!
