use crate::protocol::{Action, DbError, Reply};
use vstd::prelude::*;

verus! {

/// A row of the series table.
pub struct SeriesRow<P> {
    pub name: Seq<char>,
    pub volume_count: i64,
    pub last_price: P,
    pub cover: Seq<char>,
}

/// A row of the volume table. A volume added empty, with its series, carries the zero
/// price rather than a price of the caller's: `bought_price` is then `None`.
pub struct VolumeRow<P> {
    pub manga_id: i64,
    pub volume_number: i64,
    pub owned: bool,
    pub bought_price: Option<P>,
}

/// The contents of the two tables: the series rows by their id, the volume rows by theirs.
pub struct Tables<P> {
    pub series: Map<i64, SeriesRow<P>>,
    pub volumes: Map<int, VolumeRow<P>>,
}

/// The database: its tables and, while a transaction is open, the tables as they were
/// when it began.
pub struct Db<P> {
    pub tables: Tables<P>,
    pub begun: Option<Tables<P>>,
}

/// The text a cover path is written as.
pub open spec fn cover_text(cover: Option<String>) -> Seq<char> {
    match cover {
        Some(c) => c@,
        None => Seq::empty(),
    }
}

/// Some series row is named `name`.
pub open spec fn has_series_named<P>(t: Tables<P>, name: Seq<char>) -> bool {
    exists|id: i64| t.series.dom().contains(id) && (#[trigger] t.series[id]).name == name
}

/// Some volume row of series `manga_id` has number `volume_number`.
pub open spec fn has_volume_row<P>(t: Tables<P>, manga_id: i64, volume_number: i64) -> bool {
    exists|r: int| t.volumes.dom().contains(r) && (#[trigger] t.volumes[r]).manga_id == manga_id
        && t.volumes[r].volume_number == volume_number
}

/// `t2` is `t` with volume row `row` added under row id `r`, not yet used.
pub open spec fn volume_row_added<P>(t: Tables<P>, t2: Tables<P>, r: int, row: VolumeRow<P>) -> bool {
    !t.volumes.dom().contains(r) && t2 == (Tables { series: t.series, volumes: t.volumes.insert(r, row) })
}

/// `t2` is `t` with a volume row added under a row id not yet used.
pub open spec fn with_volume_row<P>(t: Tables<P>, t2: Tables<P>, row: VolumeRow<P>) -> bool {
    exists|r: int| #[trigger] volume_row_added(t, t2, r, row)
}

/// `t2` is `t` with series row `row` added under id `id`, positive and not yet used.
pub open spec fn series_row_added<P>(t: Tables<P>, t2: Tables<P>, id: i64, row: SeriesRow<P>) -> bool {
    id > 0 && !t.series.dom().contains(id) && t2 == (Tables { series: t.series.insert(id, row), volumes: t.volumes })
}

/// The tables with every series row named `name` given `row`'s count, price and cover.
pub open spec fn series_rewritten<P>(t: Tables<P>, name: Seq<char>, count: i64, price: P, cover: Seq<char>) -> Tables<P> {
    Tables {
        series: Map::new(
            |id: i64| t.series.dom().contains(id),
            |id: i64| if t.series[id].name == name {
                SeriesRow { name, volume_count: count, last_price: price, cover }
            } else {
                t.series[id]
            },
        ),
        volumes: t.volumes,
    }
}

/// The tables with series row `id`, if there is one, changed by `f`.
pub open spec fn series_changed<P>(t: Tables<P>, id: i64, f: spec_fn(SeriesRow<P>) -> SeriesRow<P>) -> Tables<P> {
    if t.series.dom().contains(id) {
        Tables { series: t.series.insert(id, f(t.series[id])), volumes: t.volumes }
    } else {
        t
    }
}

/// What the database and the cover folder (holding the files `present` says) may do with
/// request `a` from state `db`: answer `reply` and move to `db2`.
///
/// Every statement either takes effect whole, as written below, or fails with no effect.
/// A rollback always takes effect. A read changes nothing; what it answers is given here
/// only for the requests whose answers the laws of this library speak of.
pub open spec fn answers<P>(present: spec_fn(Seq<char>) -> bool, db: Db<P>, a: Action<P>, reply: Reply<P>, db2: Db<P>) -> bool {
    ||| (reply is Failed && db2 == db && !(a is RollbackTransaction))
    ||| answers_in_full(present, db, a, reply, db2)
}

/// What request `a` does when it takes effect.
pub open spec fn answers_in_full<P>(present: spec_fn(Seq<char>) -> bool, db: Db<P>, a: Action<P>, reply: Reply<P>, db2: Db<P>) -> bool {
    let t = db.tables;
    let same = |t2: Tables<P>| db2 == (Db { tables: t2, begun: db.begun });
    match a {
        Action::LookupMangaId { name } => db2 == db && if has_series_named(t, name@) {
            reply matches Reply::MangaId(Some(id)) && t.series.dom().contains(id) && t.series[id].name == name@
        } else {
            reply == Reply::<P>::Failed(DbError::QueryReturnedNoRows)
        },
        Action::CheckMangaStored { name } => db2 == db && reply == if has_series_named(t, name@) {
            Reply::<P>::Found
        } else {
            Reply::<P>::Failed(DbError::QueryReturnedNoRows)
        },
        Action::UpdateManga { name, volume_count, last_price, cover_image_path } => reply is Done
            && same(series_rewritten(t, name@, volume_count, last_price, cover_text(cover_image_path))),
        Action::InsertManga { name, volume_count, last_price, cover_image_path } => reply is Done && db2.begun == db.begun
            && exists|id: i64| #[trigger] series_row_added(
                t,
                db2.tables,
                id,
                SeriesRow { name: name@, volume_count, last_price, cover: cover_text(cover_image_path) },
            ),
        Action::UpdateMangaCover { id, new_path } => reply is Done
            && same(series_changed(t, id, |row: SeriesRow<P>| SeriesRow { cover: new_path@, ..row })),
        Action::UpdateMangaPrice { name, last_price } => reply is Done && same(Tables {
            series: Map::new(
                |id: i64| t.series.dom().contains(id),
                |id: i64| if t.series[id].name == name@ { SeriesRow { last_price, ..t.series[id] } } else { t.series[id] },
            ),
            volumes: t.volumes,
        }),
        Action::CountVolumes { manga_id } => db2 == db
            && (reply matches Reply::VolumeCount(n) && n >= 0
            && (n > 0 <==> exists|r: int| t.volumes.dom().contains(r) && (#[trigger] t.volumes[r]).manga_id == manga_id)),
        Action::BeginTransaction => db.begun is None && reply is Done && db2 == (Db { tables: t, begun: Some(t) }),
        Action::PrepareVolumeInsert { or_ignore: _ } => reply is Done && db2 == db,
        Action::InsertEmptyVolume { manga_id, volume_number, or_ignore: _ } => reply is Done && db2.begun == db.begun
            && with_volume_row(t, db2.tables, VolumeRow { manga_id, volume_number, owned: false, bought_price: None }),
        Action::DeleteVolumesAbove { manga_id, volume_number } => reply is Done && same(Tables {
            series: t.series,
            volumes: Map::new(
                |r: int| t.volumes.dom().contains(r) && !(t.volumes[r].manga_id == manga_id && t.volumes[r].volume_number > volume_number),
                |r: int| t.volumes[r],
            ),
        }),
        Action::UpdateVolumeCount { manga_id, volume_count } => reply is Done
            && same(series_changed(t, manga_id, |row: SeriesRow<P>| SeriesRow { volume_count, ..row })),
        Action::CommitTransaction => db.begun is Some && reply is Done && db2 == (Db { tables: t, begun: None }),
        Action::RollbackTransaction => db2 == (Db {
            tables: match db.begun {
                Some(b) => b,
                None => t,
            },
            begun: None,
        }),
        Action::CheckVolumeStored { manga_id, volume_number } => db2 == db && reply == if has_volume_row(t, manga_id, volume_number) {
            Reply::<P>::Found
        } else {
            Reply::<P>::Failed(DbError::QueryReturnedNoRows)
        },
        Action::UpdateVolume { manga_id, volume_number, owned, bought_price } => reply is Done && same(Tables {
            series: t.series,
            volumes: Map::new(
                |r: int| t.volumes.dom().contains(r),
                |r: int| if t.volumes[r].manga_id == manga_id && t.volumes[r].volume_number == volume_number {
                    VolumeRow { owned, bought_price: Some(bought_price), ..t.volumes[r] }
                } else {
                    t.volumes[r]
                },
            ),
        }),
        Action::InsertVolume { manga_id, volume_number, owned, bought_price } => reply is Done && db2.begun == db.begun
            && with_volume_row(t, db2.tables, VolumeRow { manga_id, volume_number, owned, bought_price: Some(bought_price) }),
        Action::CheckCoverFile { file_name } => db2 == db && reply == Reply::<P>::Exists(present(file_name@)),
        Action::ReportError { error: _ } => db2 == db && reply is Done,
        Action::ReportSkippedCheck => db2 == db && reply is Done,
        _ => db2 == db,
    }
}

/// `dbs` is the history of the database while it answers `requests` with `replies`, one
/// after the other.
pub open spec fn db_history<P>(
    present: spec_fn(Seq<char>) -> bool,
    dbs: Seq<Db<P>>,
    requests: Seq<Action<P>>,
    replies: Seq<Reply<P>>,
) -> bool {
    &&& dbs.len() == requests.len() + 1
    &&& replies.len() == requests.len()
    &&& forall|u: int| 0 <= u < requests.len() ==> #[trigger] answers(present, dbs[u], requests[u], replies[u], dbs[u + 1])
}

/// The volume rows of series `manga_id` are exactly those numbered `1` to `n`, one each.
pub open spec fn volume_rows_exactly<P>(t: Tables<P>, manga_id: i64, n: int) -> bool {
    &&& forall|r: int| t.volumes.dom().contains(r) && (#[trigger] t.volumes[r]).manga_id == manga_id
        ==> 1 <= t.volumes[r].volume_number <= n
    &&& forall|m: i64| 1 <= m <= n ==> #[trigger] has_volume_row(t, manga_id, m)
    &&& forall|r1: int, r2: int| t.volumes.dom().contains(r1) && t.volumes.dom().contains(r2) && r1 != r2
        && (#[trigger] t.volumes[r1]).manga_id == manga_id && (#[trigger] t.volumes[r2]).manga_id == manga_id
        ==> t.volumes[r1].volume_number != t.volumes[r2].volume_number
}

/// Series `manga_id` has a row recording `n` volumes, and its volume rows are exactly
/// those numbered `1` to `n`.
pub open spec fn series_consistent<P>(t: Tables<P>, manga_id: i64, n: i64) -> bool {
    &&& t.series.dom().contains(manga_id)
    &&& t.series[manga_id].volume_count == n
    &&& volume_rows_exactly(t, manga_id, n as int)
}

/// Like `db_history`, with every statement taking effect: no request fails, but for a
/// lookup that finds no row.
pub open spec fn db_history_in_full<P>(
    present: spec_fn(Seq<char>) -> bool,
    dbs: Seq<Db<P>>,
    requests: Seq<Action<P>>,
    replies: Seq<Reply<P>>,
) -> bool {
    &&& dbs.len() == requests.len() + 1
    &&& replies.len() == requests.len()
    &&& forall|u: int| 0 <= u < requests.len() ==> #[trigger] answers_in_full(present, dbs[u], requests[u], replies[u], dbs[u + 1])
}

} // verus!
