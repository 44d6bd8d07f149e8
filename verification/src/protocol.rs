use crate::model::{MangaEntry, MangaVolume};
use vstd::prelude::*;

verus! {

/// What went wrong while talking to the database.
#[derive(Debug)]
pub enum DbError {
    /// A lookup that needed a row found none.
    QueryReturnedNoRows,
    /// A series that had just been stored could not be found again.
    UnwindingPanic,
    /// The answer handed back does not answer the request that was made.
    UnexpectedReply,
    /// Any other failure, with the database layer's own message.
    Failure(String),
}

/// One request to the database (or the cover folder) that an operation needs done next.
///
/// Prices are carried as the caller's price type and written as they are; cover paths
/// are written as `cover_path_text` gives them.
pub enum Action<P> {
    /// `SELECT id FROM Mangas WHERE name = ?`: answered by `MangaId` or `Failed`.
    LookupMangaId { name: String },
    /// `SELECT 1 FROM Mangas WHERE name = ?`: answered by `Found` or `Failed`.
    CheckMangaStored { name: String },
    /// Overwrite count, price and cover of the series with this name: `Done` or `Failed`.
    UpdateManga { name: String, volume_count: i64, last_price: P, cover_image_path: Option<String> },
    /// Add a series row: `Done` or `Failed`.
    InsertManga { name: String, volume_count: i64, last_price: P, cover_image_path: Option<String> },
    /// Set the cover path of the series with this id: `Done` or `Failed`.
    UpdateMangaCover { id: i64, new_path: String },
    /// Set the last price of the series with this name: `Done` or `Failed`.
    UpdateMangaPrice { name: String, last_price: P },
    /// `SELECT COUNT(*) FROM Volumes WHERE manga_id = ?`: `VolumeCount` or `Failed`.
    CountVolumes { manga_id: i64 },
    /// Open a transaction: `Done` or `Failed`.
    BeginTransaction,
    /// Prepare the statement that adds volume rows (`INSERT OR IGNORE` when `or_ignore`): `Done` or `Failed`.
    PrepareVolumeInsert { or_ignore: bool },
    /// Add a volume row, not owned and bought for a zero price, with the prepared statement.
    InsertEmptyVolume { manga_id: i64, volume_number: i64, or_ignore: bool },
    /// Remove the volume rows of a series whose number is above `volume_number`.
    DeleteVolumesAbove { manga_id: i64, volume_number: i64 },
    /// Set the volume count of the series with this id.
    UpdateVolumeCount { manga_id: i64, volume_count: i64 },
    /// Commit the open transaction: `Done` or `Failed`.
    CommitTransaction,
    /// Abandon the open transaction; whatever comes back is ignored.
    RollbackTransaction,
    /// Read `owned` and `bought_price` of one volume row: `Volume` or `Failed`.
    LookupVolume { manga_id: i64, volume_number: i64 },
    /// `SELECT 1 FROM Volumes WHERE volume_number = ? AND manga_id = ?`: `Found` or `Failed`.
    CheckVolumeStored { manga_id: i64, volume_number: i64 },
    /// Overwrite `owned` and `bought_price` of one volume row: `Done` or `Failed`.
    UpdateVolume { manga_id: i64, volume_number: i64, owned: bool, bought_price: P },
    /// Add a volume row: `Done` or `Failed`.
    InsertVolume { manga_id: i64, volume_number: i64, owned: bool, bought_price: P },
    /// Load the first series row with this id: `Manga` or `Failed`.
    LoadMangaById { id: i64 },
    /// Load the first series row with this name: `Manga` or `Failed`.
    LoadMangaByName { name: String },
    /// Load every series row: `Mangas` or `Failed`.
    LoadAllMangas,
    /// Load the owned volume rows of a series, in the database's order: `Volumes` or `Failed`.
    LoadOwnedVolumes { manga_id: i64 },
    /// Whether the cover folder holds a file named `file_name`: `Exists`. Any other
    /// answer counts as absent.
    CheckCoverFile { file_name: String },
    /// Print a database error; whatever comes back is ignored.
    ReportError { error: DbError },
    /// Print that a volume's stored check was skipped; whatever comes back is ignored.
    ReportSkippedCheck,
}

/// The text a series' cover path is written as: the path, or the empty text without one.
pub fn cover_path_text(cover: &Option<String>) -> (r: String)
    ensures
        r@ == match cover {
            Some(c) => c@,
            None => Seq::<char>::empty(),
        },
{
    match cover {
        Some(c) => c.clone(),
        None => String::new(),
    }
}

/// The answer to the last `Action`.
pub enum Reply<P> {
    Done,
    Failed(DbError),
    MangaId(Option<i64>),
    Found,
    VolumeCount(i64),
    Volume { owned: bool, bought_price: P },
    Manga(Option<MangaEntry<P>>),
    Mangas(Vec<MangaEntry<P>>),
    Volumes(Vec<MangaVolume<P>>),
    Exists(bool),
}

/// Where an operation stands: it needs `Action` performed and its answer handed to
/// the machine, or it has finished with its result.
pub enum Progress<M, R, P> {
    Perform(M, Action<P>),
    Finished(R),
}

/// The result an operation on a series hands back, with the series itself.
pub type EntryOutcome<P, T> = (MangaEntry<P>, Result<T, DbError>);

/// The result an operation on a volume hands back, with the volume itself.
pub type VolumeOutcome<P, T> = (MangaVolume<P>, Result<T, DbError>);

} // verus!
