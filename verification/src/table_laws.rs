use crate::api::{HttpStatus, UpdateManga};
use crate::cover::{cover_choice, FindCover};
use crate::laws::{
    cover_search_on_track, law_cover_search_step, law_save_run, law_store_run, lemma_cover_search_start, lemma_volumes_keep_entry, unchanged_entry,
    volumes_entry,
};
use crate::manga::{manga_write, volume_write, GetId, Init, InitializeVolumes, Save, SetOwned, SetVolumeCount, Store, UpdateMetadata};
use crate::query::CreateResponse;
use crate::model::{MangaEntry, MangaResponse, MangaVolume};
use crate::protocol::{Action, DbError, EntryOutcome, Progress, Reply, VolumeOutcome};
use crate::tables::{
    answers, answers_in_full, cover_text, db_history, db_history_in_full, has_series_named, has_volume_row, series_consistent,
    series_rewritten, series_row_added, volume_row_added, volume_rows_exactly, Db, SeriesRow, Tables, VolumeRow,
};
use vstd::prelude::*;

verus! {

proof fn lemma_rows_after_insert<P>(t: Tables<P>, t2: Tables<P>, k: i64, v: i64, r: int, row: VolumeRow<P>)
    requires
        v >= 1,
        volume_rows_exactly(t, k, v - 1),
        row.manga_id == k && row.volume_number == v,
        volume_row_added(t, t2, r, row),
    ensures
        volume_rows_exactly(t2, k, v as int),
{
    assert forall|m: i64| 1 <= m <= v implies #[trigger] has_volume_row(t2, k, m) by {
        if m == v {
            assert(t2.volumes.dom().contains(r) && t2.volumes[r] == row);
        } else {
            assert(has_volume_row(t, k, m));
            let q = choose|q: int| t.volumes.dom().contains(q) && (#[trigger] t.volumes[q]).manga_id == k && t.volumes[q].volume_number == m;
            assert(q != r);
            assert(t2.volumes.dom().contains(q) && t2.volumes[q] == t.volumes[q]);
        }
    }
    assert forall|r1: int, r2: int| t2.volumes.dom().contains(r1) && t2.volumes.dom().contains(r2) && r1 != r2
        && (#[trigger] t2.volumes[r1]).manga_id == k && (#[trigger] t2.volumes[r2]).manga_id == k
        implies t2.volumes[r1].volume_number != t2.volumes[r2].volume_number by {
        if r1 != r && r2 != r {
            assert(t2.volumes[r1] == t.volumes[r1] && t2.volumes[r2] == t.volumes[r2]);
            assert(t.volumes[r1].volume_number != t.volumes[r2].volume_number);
        } else if r1 == r {
            assert(t2.volumes[r2] == t.volumes[r2]);
            assert(t.volumes[r2].volume_number <= v - 1);
        } else {
            assert(t2.volumes[r1] == t.volumes[r1]);
            assert(t.volumes[r1].volume_number <= v - 1);
        }
    }
}

proof fn lemma_rows_after_delete<P>(t: Tables<P>, t2: Tables<P>, k: i64, c0: i64, c: i64)
    requires
        1 <= c <= c0,
        volume_rows_exactly(t, k, c0 as int),
        t2 == (Tables {
            series: t.series,
            volumes: Map::new(
                |r: int| t.volumes.dom().contains(r) && !(t.volumes[r].manga_id == k && t.volumes[r].volume_number > c),
                |r: int| t.volumes[r],
            ),
        }),
    ensures
        volume_rows_exactly(t2, k, c as int),
{
    assert forall|m: i64| 1 <= m <= c implies #[trigger] has_volume_row(t2, k, m) by {
        assert(has_volume_row(t, k, m));
        let q = choose|q: int| t.volumes.dom().contains(q) && (#[trigger] t.volumes[q]).manga_id == k && t.volumes[q].volume_number == m;
        assert(t2.volumes.dom().contains(q) && t2.volumes[q] == t.volumes[q]);
    }
    assert forall|r1: int, r2: int| t2.volumes.dom().contains(r1) && t2.volumes.dom().contains(r2) && r1 != r2
        && (#[trigger] t2.volumes[r1]).manga_id == k && (#[trigger] t2.volumes[r2]).manga_id == k
        implies t2.volumes[r1].volume_number != t2.volumes[r2].volume_number by {
        assert(t2.volumes[r1] == t.volumes[r1] && t2.volumes[r2] == t.volumes[r2]);
    }
    assert forall|r: int| t2.volumes.dom().contains(r) && (#[trigger] t2.volumes[r]).manga_id == k
        implies 1 <= t2.volumes[r].volume_number <= c by {
        assert(t2.volumes[r] == t.volumes[r]);
    }
}

/// A volume count change of `orig` to `new_count`, begun with the database at `db0`,
/// stands at `s` with request `a` pending and the database at `db`. It works on the
/// series whose id its entry has; if that series' row and volume rows were consistent in
/// `db0`, the rows written so far keep them on their way to the new count.
pub open spec fn rows_on_track<P>(
    orig: MangaEntry<P>,
    new_count: i64,
    db0: Db<P>,
    s: SetVolumeCount<P>,
    a: Action<P>,
    db: Db<P>,
) -> bool {
    let c0 = orig.volume_count;
    let t0 = db0.tables;
    match s {
        SetVolumeCount::FindingId { lookup, new_count: c } => c == new_count && lookup.entry == orig && orig.id <= 0
            && db == db0 && a == (Action::<P>::LookupMangaId { name: orig.name }),
        SetVolumeCount::Beginning { entry, manga_id, new_count: c } => manga_id == entry.id && c == new_count
            && entry.volume_count == c0 && db == db0 && a == Action::<P>::BeginTransaction,
        SetVolumeCount::Preparing { entry, manga_id, new_count: c } => manga_id == entry.id && c == new_count
            && entry.volume_count == c0 && c0 < c && db0.begun is None && db == (Db { tables: t0, begun: Some(t0) })
            && a == (Action::<P>::PrepareVolumeInsert { or_ignore: true }),
        SetVolumeCount::Inserting { entry, manga_id, new_count: c, volume_number: v } => manga_id == entry.id && c == new_count
            && entry.volume_count == c0 && c0 < v <= c && db0.begun is None && db.begun == Some(t0)
            && db.tables.series == t0.series
            && (series_consistent(t0, manga_id, c0) ==> volume_rows_exactly(db.tables, manga_id, v - 1))
            && a == (Action::<P>::InsertEmptyVolume { manga_id, volume_number: v, or_ignore: true }),
        SetVolumeCount::Deleting { entry, manga_id, new_count: c } => manga_id == entry.id && c == new_count
            && entry.volume_count == c0 && 1 <= c < c0 && db0.begun is None && db == (Db { tables: t0, begun: Some(t0) })
            && a == (Action::<P>::DeleteVolumesAbove { manga_id, volume_number: c }),
        SetVolumeCount::Recording { entry, manga_id, new_count: c } => manga_id == entry.id && c == new_count
            && entry.volume_count == c0 && db0.begun is None && db.begun == Some(t0) && db.tables.series == t0.series
            && (series_consistent(t0, manga_id, c0) ==> volume_rows_exactly(db.tables, manga_id, c as int))
            && a == (Action::<P>::UpdateVolumeCount { manga_id, volume_count: c }),
        SetVolumeCount::Committing { entry, new_count: c } => c == new_count && entry.volume_count == c0
            && db0.begun is None && db.begun == Some(t0)
            && (series_consistent(t0, entry.id, c0) ==> series_consistent(db.tables, entry.id, c))
            && a == Action::<P>::CommitTransaction,
        SetVolumeCount::RollingBack { entry, error: _ } => entry.volume_count == c0 && db0.begun is None
            && db.begun == Some(t0) && a == Action::<P>::RollbackTransaction,
    }
}

/// What holds once a volume count change of `orig`, begun with the database at `db0`, has
/// finished with `end` and left it at `db`: a transaction is open only if one was before;
/// the series whose id the entry has, if its row and volume rows were consistent before,
/// records the count the entry now has and has exactly the volume rows up to it; a failure
/// leaves the database as it was and the entry's count unchanged.
pub open spec fn rows_settled<P>(orig: MangaEntry<P>, db0: Db<P>, end: EntryOutcome<P, ()>, db: Db<P>) -> bool {
    &&& db.begun == db0.begun
    &&& series_consistent(db0.tables, end.0.id, orig.volume_count) ==> series_consistent(db.tables, end.0.id, end.0.volume_count)
    &&& end.1 is Err ==> db == db0 && end.0.volume_count == orig.volume_count
}

/// Each step of a volume count change, with the database answering as it may, keeps the
/// rows on track; a finished change leaves them settled.
pub proof fn law_count_change_rows_step<P: Copy>(
    orig: MangaEntry<P>,
    new_count: i64,
    db0: Db<P>,
    present: spec_fn(Seq<char>) -> bool,
    s: SetVolumeCount<P>,
    a: Action<P>,
    db: Db<P>,
    reply: Reply<P>,
    db2: Db<P>,
    r: Progress<SetVolumeCount<P>, EntryOutcome<P, ()>, P>,
)
    requires
        orig.volume_count >= 0,
        1 <= new_count,
        new_count != orig.volume_count,
        rows_on_track(orig, new_count, db0, s, a, db),
        answers(present, db, a, reply, db2),
        s.next_is(reply, r),
    ensures
        match r {
            Progress::Perform(s2, a2) => rows_on_track(orig, new_count, db0, s2, a2, db2),
            Progress::Finished(end) => rows_settled(orig, db0, end, db2),
        },
{
    let t0 = db0.tables;
    let c0 = orig.volume_count;
    match s {
        SetVolumeCount::Inserting { entry, manga_id, new_count: c, volume_number: v } => {
            if !(reply is Failed) && series_consistent(t0, manga_id, c0) {
                let row = VolumeRow { manga_id, volume_number: v, owned: false, bought_price: None::<P> };
                let q = choose|q: int| #[trigger] volume_row_added(db.tables, db2.tables, q, row);
                lemma_rows_after_insert(db.tables, db2.tables, manga_id, v, q, row);
            }
        },
        SetVolumeCount::Deleting { entry, manga_id, new_count: c } => {
            if !(reply is Failed) && series_consistent(t0, manga_id, c0) {
                lemma_rows_after_delete(db.tables, db2.tables, manga_id, c0, c);
            }
        },
        SetVolumeCount::Recording { entry, manga_id, new_count: c } => {
            if !(reply is Failed) && series_consistent(t0, manga_id, c0) {
                assert(db2.tables.volumes == db.tables.volumes);
                assert forall|m: i64| 1 <= m <= c implies #[trigger] has_volume_row(db2.tables, manga_id, m) by {
                    assert(has_volume_row(db.tables, manga_id, m));
                }
            }
        },
        _ => {},
    }
}

/// A change of the volume count of a series, run to its end with the database answering
/// as it may (any statement may fail), whatever the new count: afterwards a transaction is
/// open only if one was before; if the row of the series whose id the entry ends with
/// recorded the entry's old count and that series' volume rows were exactly those
/// numbered `1` to it, one each, then the row records the count the entry now has and the
/// volume rows are exactly those numbered `1` to it, one each. A change that fails, its
/// commit included, leaves the database as it was.
pub proof fn law_count_change_keeps_volume_rows<P: Copy>(
    entry: MangaEntry<P>,
    new_count: i64,
    present: spec_fn(Seq<char>) -> bool,
    states: Seq<SetVolumeCount<P>>,
    requests: Seq<Action<P>>,
    replies: Seq<Reply<P>>,
    dbs: Seq<Db<P>>,
    end: EntryOutcome<P, ()>,
)
    requires
        entry.volume_count >= 0,
        db_history(present, dbs, requests, replies),
        states.len() == requests.len(),
        states.len() == 0 ==> entry.set_volume_count_first(new_count) == Progress::<SetVolumeCount<P>, EntryOutcome<P, ()>, P>::Finished(end),
        states.len() > 0 ==> entry.set_volume_count_first(new_count) == Progress::<SetVolumeCount<P>, EntryOutcome<P, ()>, P>::Perform(states[0], requests[0]),
        forall|u: int| 0 <= u < states.len() - 1 ==> (#[trigger] states[u]).next_is(replies[u], Progress::Perform(states[u + 1], requests[u + 1])),
        states.len() > 0 ==> states.last().next_is(replies.last(), Progress::Finished(end)),
    ensures
        rows_settled(entry, dbs[0], end, dbs.last()),
{
    let n = states.len() as int;
    if n > 0 {
        lemma_rows_prefix(entry, new_count, present, states, requests, replies, dbs, n - 1);
        assert(answers(present, dbs[n - 1], requests[n - 1], replies[n - 1], dbs[n]));
        law_count_change_rows_step(entry, new_count, dbs[0], present, states[n - 1], requests[n - 1], dbs[n - 1], replies[n - 1], dbs[n], Progress::Finished(end));
    }
}

proof fn lemma_rows_prefix<P: Copy>(
    entry: MangaEntry<P>,
    new_count: i64,
    present: spec_fn(Seq<char>) -> bool,
    states: Seq<SetVolumeCount<P>>,
    requests: Seq<Action<P>>,
    replies: Seq<Reply<P>>,
    dbs: Seq<Db<P>>,
    t: int,
)
    requires
        entry.volume_count >= 0,
        db_history(present, dbs, requests, replies),
        states.len() == requests.len(),
        0 <= t < states.len(),
        entry.set_volume_count_first(new_count) == Progress::<SetVolumeCount<P>, EntryOutcome<P, ()>, P>::Perform(states[0], requests[0]),
        forall|u: int| 0 <= u < states.len() - 1 ==> (#[trigger] states[u]).next_is(replies[u], Progress::Perform(states[u + 1], requests[u + 1])),
    ensures
        1 <= new_count && new_count != entry.volume_count,
        rows_on_track(entry, new_count, dbs[0], states[t], requests[t], dbs[t]),
    decreases t,
{
    if t > 0 {
        lemma_rows_prefix(entry, new_count, present, states, requests, replies, dbs, t - 1);
        assert(answers(present, dbs[t - 1], requests[t - 1], replies[t - 1], dbs[t]));
        assert(states[t - 1].next_is(replies[t - 1], Progress::Perform(states[t], requests[t])));
        law_count_change_rows_step(
            entry,
            new_count,
            dbs[0],
            present,
            states[t - 1],
            requests[t - 1],
            dbs[t - 1],
            replies[t - 1],
            dbs[t],
            Progress::Perform(states[t], requests[t]),
        );
    }
}

/// The series rows named after `entry` carry its count, price and cover, and there is one.
pub open spec fn saved_as<P>(t: Tables<P>, entry: MangaEntry<P>) -> bool {
    &&& has_series_named(t, entry.name@)
    &&& forall|id: i64| t.series.dom().contains(id) && (#[trigger] t.series[id]).name == entry.name@
        ==> t.series[id] == (SeriesRow {
            name: entry.name@,
            volume_count: entry.volume_count,
            last_price: entry.last_price,
            cover: cover_text(entry.cover_path),
        })
}

/// A `save` of `entry` run to its end with every statement taking effect succeeds and
/// leaves the rows named after the series carrying its count, price and cover; nothing
/// else changes.
pub proof fn law_save_in_full<P: Copy>(
    entry: MangaEntry<P>,
    present: spec_fn(Seq<char>) -> bool,
    states: Seq<Save<P>>,
    requests: Seq<Action<P>>,
    replies: Seq<Reply<P>>,
    dbs: Seq<Db<P>>,
    end: EntryOutcome<P, ()>,
)
    requires
        states.len() == requests.len(),
        states.len() > 0,
        db_history_in_full(present, dbs, requests, replies),
        entry.save_first() == Progress::<Save<P>, EntryOutcome<P, ()>, P>::Perform(states[0], requests[0]),
        forall|u: int| 0 <= u < states.len() - 1 ==> (#[trigger] states[u]).next(replies[u]) == Progress::<Save<P>, EntryOutcome<P, ()>, P>::Perform(states[u + 1], requests[u + 1]),
        states.last().next(replies.last()) == Progress::<Save<P>, EntryOutcome<P, ()>, P>::Finished(end),
    ensures
        end.1 is Ok,
        end.0 == entry,
        saved_as(dbs.last().tables, entry),
        dbs.last().begun == dbs[0].begun,
        dbs.last().tables.volumes == dbs[0].tables.volumes,
        forall|id: i64| #[trigger] dbs[0].tables.series.dom().contains(id) ==> dbs.last().tables.series.dom().contains(id)
            && (dbs[0].tables.series[id].name != entry.name@ ==> dbs.last().tables.series[id] == dbs[0].tables.series[id]),
        forall|id: i64| #[trigger] dbs.last().tables.series.dom().contains(id) && !dbs[0].tables.series.dom().contains(id)
            ==> dbs.last().tables.series[id].name == entry.name@,
        saved_as(dbs[0].tables, entry) ==> dbs.last() == dbs[0],
{
    law_save_run(entry, states, requests, replies, end);
    assert(answers_in_full(present, dbs[0], requests[0], replies[0], dbs[1]));
    assert(answers_in_full(present, dbs[1], requests[1], replies[1], dbs[2]));
    let t0 = dbs[0].tables;
    let t2 = dbs[2].tables;
    let row = SeriesRow {
        name: entry.name@,
        volume_count: entry.volume_count,
        last_price: entry.last_price,
        cover: cover_text(entry.cover_path),
    };
    if has_series_named(t0, entry.name@) {
        assert(t2 == series_rewritten(t0, entry.name@, entry.volume_count, entry.last_price, cover_text(entry.cover_path)));
        let id0 = choose|id: i64| t0.series.dom().contains(id) && (#[trigger] t0.series[id]).name == entry.name@;
        assert(t2.series.dom().contains(id0) && t2.series[id0].name == entry.name@);
        if saved_as(t0, entry) {
            assert(t2.series =~= t0.series);
            assert(dbs[2] == dbs[0]);
        }
    } else {
        let id = choose|id: i64| #[trigger] series_row_added(t0, t2, id, row);
        assert(t2.series.dom().contains(id) && t2.series[id].name == entry.name@);
    }
    assert(dbs.last() == dbs[2]);
}

/// Saving a series a second time, every statement taking effect, succeeds and leaves the
/// database as the first save left it.
pub proof fn law_save_twice<P: Copy>(
    entry: MangaEntry<P>,
    present: spec_fn(Seq<char>) -> bool,
    states1: Seq<Save<P>>,
    requests1: Seq<Action<P>>,
    replies1: Seq<Reply<P>>,
    dbs1: Seq<Db<P>>,
    end1: EntryOutcome<P, ()>,
    states2: Seq<Save<P>>,
    requests2: Seq<Action<P>>,
    replies2: Seq<Reply<P>>,
    dbs2: Seq<Db<P>>,
    end2: EntryOutcome<P, ()>,
)
    requires
        states1.len() == requests1.len(),
        states1.len() > 0,
        db_history_in_full(present, dbs1, requests1, replies1),
        entry.save_first() == Progress::<Save<P>, EntryOutcome<P, ()>, P>::Perform(states1[0], requests1[0]),
        forall|u: int| 0 <= u < states1.len() - 1 ==> (#[trigger] states1[u]).next(replies1[u]) == Progress::<Save<P>, EntryOutcome<P, ()>, P>::Perform(states1[u + 1], requests1[u + 1]),
        states1.last().next(replies1.last()) == Progress::<Save<P>, EntryOutcome<P, ()>, P>::Finished(end1),
        states2.len() == requests2.len(),
        states2.len() > 0,
        db_history_in_full(present, dbs2, requests2, replies2),
        dbs2[0] == dbs1.last(),
        end1.0.save_first() == Progress::<Save<P>, EntryOutcome<P, ()>, P>::Perform(states2[0], requests2[0]),
        forall|u: int| 0 <= u < states2.len() - 1 ==> (#[trigger] states2[u]).next(replies2[u]) == Progress::<Save<P>, EntryOutcome<P, ()>, P>::Perform(states2[u + 1], requests2[u + 1]),
        states2.last().next(replies2.last()) == Progress::<Save<P>, EntryOutcome<P, ()>, P>::Finished(end2),
    ensures
        end1.1 is Ok,
        end2.1 is Ok,
        dbs2.last() == dbs1.last(),
{
    law_save_in_full(entry, present, states1, requests1, replies1, dbs1, end1);
    law_save_in_full(entry, present, states2, requests2, replies2, dbs2, end2);
}

/// Every series row has a positive id, as the table's ids are.
pub open spec fn ids_positive<P>(t: Tables<P>) -> bool {
    forall|id: i64| #[trigger] t.series.dom().contains(id) ==> id > 0
}

/// Some volume row belongs to series `manga_id`.
pub open spec fn has_volume_of<P>(t: Tables<P>, manga_id: i64) -> bool {
    exists|r: int| t.volumes.dom().contains(r) && (#[trigger] t.volumes[r]).manga_id == manga_id
}

/// The row `save` writes for `entry`.
pub open spec fn saved_row<P>(entry: MangaEntry<P>) -> SeriesRow<P> {
    SeriesRow { name: entry.name@, volume_count: entry.volume_count, last_price: entry.last_price, cover: cover_text(entry.cover_path) }
}

/// The cover text `init` of `entry` leaves on the row it learned the id of.
pub open spec fn settled_cover<P>(entry: MangaEntry<P>, present: spec_fn(Seq<char>) -> bool) -> Seq<char> {
    match cover_choice(entry.name@, present) {
        Some(c) => c,
        None => cover_text(entry.cover_path),
    }
}

/// What a successful `init` of `entry`, which learned the id `k`, leaves in the tables `t`
/// while the cover folder holds the files `present` says: a row named after the series;
/// every such row carrying what `save` writes, but row `k`, which carries the cover picked
/// when one was; and some volume row of series `k`, unless the series has no volumes.
pub open spec fn initialized_as<P>(t: Tables<P>, entry: MangaEntry<P>, k: i64, present: spec_fn(Seq<char>) -> bool) -> bool {
    &&& has_series_named(t, entry.name@)
    &&& forall|id: i64| t.series.dom().contains(id) && (#[trigger] t.series[id]).name == entry.name@ && id != k
        ==> t.series[id] == saved_row(entry)
    &&& t.series.dom().contains(k) && t.series[k].name == entry.name@
        ==> t.series[k] == (SeriesRow { cover: settled_cover(entry, present), ..saved_row(entry) })
    &&& t.series.dom().contains(k) && cover_choice(entry.name@, present) is Some ==> t.series[k].cover == settled_cover(entry, present)
    &&& has_volume_of(t, k) || entry.volume_count < 1
}

/// A first `init` of `orig`, every statement taking effect, stands at `s` with request
/// `a` pending and the database at `db`.
pub open spec fn first_init_on_track<P>(
    orig: MangaEntry<P>,
    present: spec_fn(Seq<char>) -> bool,
    db0: Db<P>,
    s: Init<P>,
    a: Action<P>,
    db: Db<P>,
) -> bool {
    &&& ids_positive(db.tables)
    &&& match s {
        Init::Saving { save } => db.begun == db0.begun && db.tables.volumes == db0.tables.volumes && match save {
            Save::Checking { entry } => entry == orig && a == (Action::<P>::CheckMangaStored { name: orig.name }),
            Save::Writing { entry } => entry == orig && a == manga_write(orig, has_series_named(db.tables, orig.name@)),
            Save::Reporting { entry: _ } => false,
        },
        Init::InitializingVolumes { volumes } => unchanged_entry(volumes_entry(volumes), orig) && saved_as(db.tables, orig)
            && first_volumes_on_track(orig, db0, volumes, a, db),
        Init::FindingId { lookup: _ } => false,
        Init::FindingCover { entry, find } => unchanged_entry(entry, orig) && entry.id > 0 && db.begun == db0.begun
            && saved_as(db.tables, orig) && (has_volume_of(db.tables, entry.id) || orig.volume_count < 1)
            && volumes_settled(db0, db.tables, entry.id, orig.volume_count)
            && cover_search_on_track(orig.name@, present, Progress::Perform(find, a)),
        Init::SettingCover { cover } => unchanged_entry(cover.entry, orig) && cover.entry.id > 0 && db.begun == db0.begun
            && saved_as(db.tables, orig) && (has_volume_of(db.tables, cover.entry.id) || orig.volume_count < 1)
            && volumes_settled(db0, db.tables, cover.entry.id, orig.volume_count)
            && (a matches Action::UpdateMangaCover { id, new_path } && id == cover.entry.id
            && cover_choice(orig.name@, present) == Some(new_path@)),
    }
}

/// The addition of the first volumes within a first `init` of `orig` stands at `s`.
pub open spec fn first_volumes_on_track<P>(orig: MangaEntry<P>, db0: Db<P>, s: InitializeVolumes<P>, a: Action<P>, db: Db<P>) -> bool {
    match s {
        InitializeVolumes::FindingId { lookup } => lookup.entry == orig && orig.id <= 0 && db.begun == db0.begun
            && db.tables.volumes == db0.tables.volumes && a == (Action::<P>::LookupMangaId { name: orig.name }),
        InitializeVolumes::Counting { check, manga_id } => manga_id > 0 && check.entry.id == manga_id && db.begun == db0.begun
            && db.tables.volumes == db0.tables.volumes && a == (Action::<P>::CountVolumes { manga_id }),
        InitializeVolumes::Beginning { entry, manga_id } => manga_id > 0 && entry.id == manga_id && db.begun == db0.begun
            && db.tables.volumes == db0.tables.volumes && !has_volume_of(db0.tables, manga_id) && a == Action::<P>::BeginTransaction,
        InitializeVolumes::Preparing { entry, manga_id } => manga_id > 0 && entry.id == manga_id && db.begun is Some && db0.begun is None
            && db.tables.volumes == db0.tables.volumes && !has_volume_of(db0.tables, manga_id) && a == (Action::<P>::PrepareVolumeInsert { or_ignore: false }),
        InitializeVolumes::Inserting { entry, manga_id, volume_number } => manga_id > 0 && entry.id == manga_id && db.begun is Some && db0.begun is None
            && 1 <= volume_number <= orig.volume_count && (volume_number == 1 || has_volume_of(db.tables, manga_id))
            && !has_volume_of(db0.tables, manga_id) && volume_rows_exactly(db.tables, manga_id, volume_number - 1)
            && a == (Action::<P>::InsertEmptyVolume { manga_id, volume_number, or_ignore: false }),
        InitializeVolumes::Committing { entry } => entry.id > 0 && db.begun is Some && db0.begun is None
            && (has_volume_of(db.tables, entry.id) || orig.volume_count < 1)
            && !has_volume_of(db0.tables, entry.id) && volume_rows_exactly(db.tables, entry.id, orig.volume_count as int)
            && a == Action::<P>::CommitTransaction,
        InitializeVolumes::RollingBack { entry: _, error: _ } => false,
    }
}

/// What a first `init` of `orig` has done once finished with `end`, the database at `db`.
pub open spec fn first_init_done<P>(
    orig: MangaEntry<P>,
    present: spec_fn(Seq<char>) -> bool,
    db0: Db<P>,
    end: EntryOutcome<P, ()>,
    db: Db<P>,
) -> bool {
    &&& end.1 is Ok
    &&& unchanged_entry(end.0, orig)
    &&& end.0.id > 0
    &&& db.begun == db0.begun
    &&& initialized_as(db.tables, orig, end.0.id, present)
    &&& volumes_settled(db0, db.tables, end.0.id, orig.volume_count)
}

/// The volume rows a first `init` of a series with `count` volumes, begun with the
/// database at `db0`, leaves in `t`, `k` being the id it learned: those of `db0`, untouched,
/// when series `k` had volume rows; else exactly those numbered `1` to `count`, one each.
pub open spec fn volumes_settled<P>(db0: Db<P>, t: Tables<P>, k: i64, count: i64) -> bool {
    if has_volume_of(db0.tables, k) {
        t.volumes == db0.tables.volumes
    } else {
        volume_rows_exactly(t, k, count as int)
    }
}

proof fn lemma_saved_as_after_write<P>(present: spec_fn(Seq<char>) -> bool, orig: MangaEntry<P>, db: Db<P>, reply: Reply<P>, db2: Db<P>)
    requires
        ids_positive(db.tables),
        answers_in_full(present, db, manga_write(orig, has_series_named(db.tables, orig.name@)), reply, db2),
    ensures
        saved_as(db2.tables, orig),
        ids_positive(db2.tables),
        db2.begun == db.begun,
        reply is Done,
{
    let t0 = db.tables;
    let t2 = db2.tables;
    if has_series_named(t0, orig.name@) {
        let id0 = choose|id: i64| t0.series.dom().contains(id) && (#[trigger] t0.series[id]).name == orig.name@;
        assert(t2.series.dom().contains(id0) && t2.series[id0].name == orig.name@);
    } else {
        let id = choose|id: i64| #[trigger] series_row_added(t0, t2, id, saved_row(orig));
        assert(t2.series.dom().contains(id) && t2.series[id].name == orig.name@);
    }
}

#[verifier::spinoff_prover]
proof fn lemma_first_init_step_saving<P: Copy>(
    orig: MangaEntry<P>,
    present: spec_fn(Seq<char>) -> bool,
    db0: Db<P>,
    save: Save<P>,
    a: Action<P>,
    db: Db<P>,
    reply: Reply<P>,
    db2: Db<P>,
    r: Progress<Init<P>, EntryOutcome<P, ()>, P>,
)
    requires
        first_init_on_track(orig, present, db0, Init::Saving { save }, a, db),
        answers_in_full(present, db, a, reply, db2),
        (Init::Saving { save }).next_is(reply, r),
    ensures
        r matches Progress::Perform(s2, a2) && first_init_on_track(orig, present, db0, s2, a2, db2),
{
    if let Save::Writing { entry } = save {
        lemma_saved_as_after_write(present, orig, db, reply, db2);
    }
}

#[verifier::spinoff_prover]
proof fn lemma_first_init_step_volumes<P: Copy>(
    orig: MangaEntry<P>,
    present: spec_fn(Seq<char>) -> bool,
    db0: Db<P>,
    volumes: InitializeVolumes<P>,
    a: Action<P>,
    db: Db<P>,
    reply: Reply<P>,
    db2: Db<P>,
    r: Progress<Init<P>, EntryOutcome<P, ()>, P>,
)
    requires
        first_init_on_track(orig, present, db0, Init::InitializingVolumes { volumes }, a, db),
        answers_in_full(present, db, a, reply, db2),
        (Init::InitializingVolumes { volumes }).next_is(reply, r),
    ensures
        r matches Progress::Perform(s2, a2) && first_init_on_track(orig, present, db0, s2, a2, db2),
{
    lemma_volumes_keep_entry(volumes, reply);
    if let Progress::Perform(Init::FindingCover { entry: _, find }, a2) = r {
        lemma_cover_search_start(orig.name@, present, find, a2);
    }
    match volumes {
        InitializeVolumes::FindingId { lookup } => {
            if let Reply::MangaId(Some(id)) = reply {
                assert(db.tables.series.dom().contains(id));
            }
        },
        InitializeVolumes::Counting { check, manga_id } => {
            if let Reply::VolumeCount(n) = reply {
                if n > 0 {
                    let q = choose|q: int| db.tables.volumes.dom().contains(q) && (#[trigger] db.tables.volumes[q]).manga_id == manga_id;
                    assert(has_volume_of(db2.tables, manga_id));
                    assert(db0.tables.volumes.dom().contains(q) && db0.tables.volumes[q].manga_id == manga_id);
                } else {
                    if has_volume_of(db0.tables, manga_id) {
                        let q = choose|q: int| db0.tables.volumes.dom().contains(q) && (#[trigger] db0.tables.volumes[q]).manga_id == manga_id;
                        assert(db.tables.volumes.dom().contains(q) && db.tables.volumes[q].manga_id == manga_id);
                    }
                }
            }
        },
        InitializeVolumes::Preparing { entry, manga_id } => {
            assert forall|q: int| db.tables.volumes.dom().contains(q) implies (#[trigger] db.tables.volumes[q]).manga_id != manga_id by {
                if db.tables.volumes[q].manga_id == manga_id {
                    assert(db0.tables.volumes.dom().contains(q) && db0.tables.volumes[q].manga_id == manga_id);
                }
            }
        },
        InitializeVolumes::Inserting { entry, manga_id, volume_number } => {
            let row = VolumeRow { manga_id, volume_number, owned: false, bought_price: None::<P> };
            let q = choose|q: int| #[trigger] volume_row_added(db.tables, db2.tables, q, row);
            assert(db2.tables.volumes.dom().contains(q) && db2.tables.volumes[q].manga_id == manga_id);
            assert(db2.tables.series == db.tables.series);
            assert(has_volume_of(db2.tables, manga_id));
            assert(ids_positive(db2.tables));
            assert(saved_as(db2.tables, orig));
            lemma_rows_after_insert(db.tables, db2.tables, manga_id, volume_number, q, row);
        },
        _ => {},
    }
}

#[verifier::spinoff_prover]
proof fn lemma_first_init_step_cover<P: Copy>(
    orig: MangaEntry<P>,
    present: spec_fn(Seq<char>) -> bool,
    db0: Db<P>,
    s: Init<P>,
    a: Action<P>,
    db: Db<P>,
    reply: Reply<P>,
    db2: Db<P>,
    r: Progress<Init<P>, EntryOutcome<P, ()>, P>,
)
    requires
        s is FindingCover || s is SettingCover,
        first_init_on_track(orig, present, db0, s, a, db),
        answers_in_full(present, db, a, reply, db2),
        s.next_is(reply, r),
    ensures
        match r {
            Progress::Perform(s2, a2) => first_init_on_track(orig, present, db0, s2, a2, db2),
            Progress::Finished(end) => first_init_done(orig, present, db0, end, db2),
        },
{
    match s {
        Init::FindingCover { entry, find } => {
            match r {
                Progress::Perform(Init::FindingCover { entry: e, find: f }, a2) => {
                    assert(db2 == db);
                    law_cover_search_step(orig.name@, present, find, a, Progress::Perform(f, a2));
                },
                Progress::Perform(Init::SettingCover { cover }, Action::UpdateMangaCover { id, new_path }) => {
                    assert(db2 == db);
                    law_cover_search_step(orig.name@, present, find, a, Progress::<FindCover, Option<String>, P>::Finished(Some(new_path)));
                },
                Progress::Finished(out) => {
                    assert(db2 == db);
                    law_cover_search_step(orig.name@, present, find, a, Progress::<FindCover, Option<String>, P>::Finished(None));
                },
                _ => {},
            }
        },
        Init::SettingCover { cover } => {
            let t = db.tables;
            let id0 = choose|id: i64| t.series.dom().contains(id) && (#[trigger] t.series[id]).name == orig.name@;
            assert(db2.tables.series.dom().contains(id0) && db2.tables.series[id0].name == orig.name@);
            assert(db2.tables.volumes == t.volumes);
            if !has_volume_of(db0.tables, cover.entry.id) {
                let k = cover.entry.id;
                assert forall|m: i64| 1 <= m <= orig.volume_count implies #[trigger] has_volume_row(db2.tables, k, m) by {
                    assert(has_volume_row(t, k, m));
                    let q = choose|q: int| t.volumes.dom().contains(q) && (#[trigger] t.volumes[q]).manga_id == k
                        && t.volumes[q].volume_number == m;
                    assert(db2.tables.volumes.dom().contains(q) && db2.tables.volumes[q] == t.volumes[q]);
                }
            }
            if has_volume_of(t, cover.entry.id) {
                let q = choose|q: int| t.volumes.dom().contains(q) && (#[trigger] t.volumes[q]).manga_id == cover.entry.id;
                assert(db2.tables.volumes.dom().contains(q) && db2.tables.volumes[q].manga_id == cover.entry.id);
            }
        },
        _ => {},
    }
}

/// The tables once a second `save` of `e1` has rewritten its rows in `t1`.
pub open spec fn resaved<P>(t1: Tables<P>, e1: MangaEntry<P>) -> Tables<P> {
    series_rewritten(t1, e1.name@, e1.volume_count, e1.last_price, cover_text(e1.cover_path))
}

/// A second `init`, of the entry `e1` a first one left (its id learned), on the tables `t1`
/// the first one left, every statement taking effect, stands at `s` with request `a`
/// pending and the database at `db`.
pub open spec fn second_init_on_track<P>(
    e1: MangaEntry<P>,
    t1: Tables<P>,
    b1: Option<Tables<P>>,
    present: spec_fn(Seq<char>) -> bool,
    s: Init<P>,
    a: Action<P>,
    db: Db<P>,
) -> bool {
    let ts = resaved(t1, e1);
    match s {
        Init::Saving { save } => db == (Db { tables: t1, begun: b1 }) && match save {
            Save::Checking { entry } => entry == e1 && a == (Action::<P>::CheckMangaStored { name: e1.name }),
            Save::Writing { entry } => entry == e1 && a == manga_write(e1, true),
            Save::Reporting { entry: _ } => false,
        },
        Init::InitializingVolumes { volumes } => match volumes {
            InitializeVolumes::Counting { check, manga_id } => check.entry == e1 && manga_id == e1.id
                && db == (Db { tables: ts, begun: b1 }) && a == (Action::<P>::CountVolumes { manga_id }),
            InitializeVolumes::Beginning { entry, manga_id } => entry == e1 && manga_id == e1.id && e1.volume_count < 1
                && db == (Db { tables: ts, begun: b1 }) && a == Action::<P>::BeginTransaction,
            InitializeVolumes::Preparing { entry, manga_id } => entry == e1 && manga_id == e1.id && e1.volume_count < 1
                && b1 is None && db == (Db { tables: ts, begun: Some(ts) }) && a == (Action::<P>::PrepareVolumeInsert { or_ignore: false }),
            InitializeVolumes::Committing { entry } => entry == e1 && b1 is None && db == (Db { tables: ts, begun: Some(ts) })
                && a == Action::<P>::CommitTransaction,
            _ => false,
        },
        Init::FindingId { lookup: _ } => false,
        Init::FindingCover { entry, find } => entry == e1 && db == (Db { tables: ts, begun: b1 })
            && cover_search_on_track(e1.name@, present, Progress::Perform(find, a)),
        Init::SettingCover { cover } => cover.entry == e1 && db == (Db { tables: ts, begun: b1 })
            && (a matches Action::UpdateMangaCover { id, new_path } && id == e1.id
            && cover_choice(e1.name@, present) == Some(new_path@)),
    }
}

#[verifier::spinoff_prover]
proof fn lemma_second_init_step<P: Copy>(
    e1: MangaEntry<P>,
    t1: Tables<P>,
    b1: Option<Tables<P>>,
    present: spec_fn(Seq<char>) -> bool,
    s: Init<P>,
    a: Action<P>,
    db: Db<P>,
    reply: Reply<P>,
    db2: Db<P>,
    r: Progress<Init<P>, EntryOutcome<P, ()>, P>,
)
    requires
        e1.id > 0,
        initialized_as(t1, e1, e1.id, present),
        second_init_on_track(e1, t1, b1, present, s, a, db),
        answers_in_full(present, db, a, reply, db2),
        s.next_is(reply, r),
    ensures
        match r {
            Progress::Perform(s2, a2) => second_init_on_track(e1, t1, b1, present, s2, a2, db2),
            Progress::Finished(end) => end == (e1, Ok::<(), DbError>(())) && db2 == (Db { tables: t1, begun: b1 }),
        },
{
    let ts = resaved(t1, e1);
    let k = e1.id;
    if let Progress::Perform(Init::FindingCover { entry: _, find }, a2) = r {
        if !(s is FindingCover) {
            lemma_cover_search_start(e1.name@, present, find, a2);
        }
    }
    match s {
        Init::Saving { save } => {
            if let Save::Checking { entry } = save {
                let id0 = choose|id: i64| t1.series.dom().contains(id) && (#[trigger] t1.series[id]).name == e1.name@;
                assert(has_series_named(t1, e1.name@));
            }
        },
        Init::InitializingVolumes { volumes } => {
            if let InitializeVolumes::Counting { check, manga_id } = volumes {
                if has_volume_of(t1, k) {
                    let q = choose|q: int| t1.volumes.dom().contains(q) && (#[trigger] t1.volumes[q]).manga_id == k;
                    assert(ts.volumes.dom().contains(q) && ts.volumes[q].manga_id == k);
                }
            }
        },
        Init::FindingCover { entry, find } => {
            match r {
                Progress::Perform(Init::FindingCover { entry: e, find: f }, a2) => {
                    law_cover_search_step(e1.name@, present, find, a, Progress::Perform(f, a2));
                },
                Progress::Perform(Init::SettingCover { cover }, Action::UpdateMangaCover { id, new_path }) => {
                    law_cover_search_step(e1.name@, present, find, a, Progress::<FindCover, Option<String>, P>::Finished(Some(new_path)));
                },
                Progress::Finished(out) => {
                    law_cover_search_step(e1.name@, present, find, a, Progress::<FindCover, Option<String>, P>::Finished(None));
                    assert(ts.series =~= t1.series);
                },
                _ => {},
            }
        },
        Init::SettingCover { cover } => {
            assert(db2.tables.series =~= t1.series);
        },
        _ => {},
    }
}

proof fn lemma_first_init_step<P: Copy>(
    orig: MangaEntry<P>,
    present: spec_fn(Seq<char>) -> bool,
    db0: Db<P>,
    s: Init<P>,
    a: Action<P>,
    db: Db<P>,
    reply: Reply<P>,
    db2: Db<P>,
    r: Progress<Init<P>, EntryOutcome<P, ()>, P>,
)
    requires
        first_init_on_track(orig, present, db0, s, a, db),
        answers_in_full(present, db, a, reply, db2),
        s.next_is(reply, r),
    ensures
        match r {
            Progress::Perform(s2, a2) => first_init_on_track(orig, present, db0, s2, a2, db2),
            Progress::Finished(end) => first_init_done(orig, present, db0, end, db2),
        },
{
    match s {
        Init::Saving { save } => lemma_first_init_step_saving(orig, present, db0, save, a, db, reply, db2, r),
        Init::InitializingVolumes { volumes } => lemma_first_init_step_volumes(orig, present, db0, volumes, a, db, reply, db2, r),
        Init::FindingId { lookup: _ } => {},
        _ => lemma_first_init_step_cover(orig, present, db0, s, a, db, reply, db2, r),
    }
}

proof fn lemma_first_init_prefix<P: Copy>(
    entry: MangaEntry<P>,
    present: spec_fn(Seq<char>) -> bool,
    states: Seq<Init<P>>,
    requests: Seq<Action<P>>,
    replies: Seq<Reply<P>>,
    dbs: Seq<Db<P>>,
    t: int,
)
    requires
        ids_positive(dbs[0].tables),
        states.len() == requests.len(),
        db_history_in_full(present, dbs, requests, replies),
        0 <= t < states.len(),
        entry.init_first() == Progress::<Init<P>, EntryOutcome<P, ()>, P>::Perform(states[0], requests[0]),
        forall|u: int| 0 <= u < states.len() - 1 ==> (#[trigger] states[u]).next_is(replies[u], Progress::Perform(states[u + 1], requests[u + 1])),
    ensures
        first_init_on_track(entry, present, dbs[0], states[t], requests[t], dbs[t]),
    decreases t,
{
    if t > 0 {
        lemma_first_init_prefix(entry, present, states, requests, replies, dbs, t - 1);
        assert(answers_in_full(present, dbs[t - 1], requests[t - 1], replies[t - 1], dbs[t]));
        assert(states[t - 1].next_is(replies[t - 1], Progress::Perform(states[t], requests[t])));
        lemma_first_init_step(entry, present, dbs[0], states[t - 1], requests[t - 1], dbs[t - 1], replies[t - 1], dbs[t], Progress::Perform(states[t], requests[t]));
    }
}

proof fn lemma_second_init_prefix<P: Copy>(
    e1: MangaEntry<P>,
    t1: Tables<P>,
    b1: Option<Tables<P>>,
    present: spec_fn(Seq<char>) -> bool,
    states: Seq<Init<P>>,
    requests: Seq<Action<P>>,
    replies: Seq<Reply<P>>,
    dbs: Seq<Db<P>>,
    t: int,
)
    requires
        e1.id > 0,
        initialized_as(t1, e1, e1.id, present),
        dbs[0] == (Db { tables: t1, begun: b1 }),
        states.len() == requests.len(),
        db_history_in_full(present, dbs, requests, replies),
        0 <= t < states.len(),
        e1.init_first() == Progress::<Init<P>, EntryOutcome<P, ()>, P>::Perform(states[0], requests[0]),
        forall|u: int| 0 <= u < states.len() - 1 ==> (#[trigger] states[u]).next_is(replies[u], Progress::Perform(states[u + 1], requests[u + 1])),
    ensures
        second_init_on_track(e1, t1, b1, present, states[t], requests[t], dbs[t]),
    decreases t,
{
    if t > 0 {
        lemma_second_init_prefix(e1, t1, b1, present, states, requests, replies, dbs, t - 1);
        assert(answers_in_full(present, dbs[t - 1], requests[t - 1], replies[t - 1], dbs[t]));
        assert(states[t - 1].next_is(replies[t - 1], Progress::Perform(states[t], requests[t])));
        lemma_second_init_step(e1, t1, b1, present, states[t - 1], requests[t - 1], dbs[t - 1], replies[t - 1], dbs[t], Progress::Perform(states[t], requests[t]));
    }
}

/// Initializing a series a second time — with the entry the first `init` left, every
/// statement taking effect and the cover folder unchanged — succeeds and leaves the
/// database as the first initialization left it: no row is added or changed. The first
/// `init`, every statement taking effect, succeeds too, and leaves the series whose id it
/// learned with its volume rows as they were when it had some, else with exactly those
/// numbered `1` to its count. (Series row ids are positive, as
/// the table gives them: with a row of id zero named like the series, the first `init`
/// could learn that id and then look the name up again.)
pub proof fn law_init_twice<P: Copy>(
    entry: MangaEntry<P>,
    present: spec_fn(Seq<char>) -> bool,
    states1: Seq<Init<P>>,
    requests1: Seq<Action<P>>,
    replies1: Seq<Reply<P>>,
    dbs1: Seq<Db<P>>,
    end1: EntryOutcome<P, ()>,
    states2: Seq<Init<P>>,
    requests2: Seq<Action<P>>,
    replies2: Seq<Reply<P>>,
    dbs2: Seq<Db<P>>,
    end2: EntryOutcome<P, ()>,
)
    requires
        ids_positive(dbs1[0].tables),
        states1.len() == requests1.len(),
        states1.len() > 0,
        db_history_in_full(present, dbs1, requests1, replies1),
        entry.init_first() == Progress::<Init<P>, EntryOutcome<P, ()>, P>::Perform(states1[0], requests1[0]),
        forall|u: int| 0 <= u < states1.len() - 1 ==> (#[trigger] states1[u]).next_is(replies1[u], Progress::Perform(states1[u + 1], requests1[u + 1])),
        states1.last().next_is(replies1.last(), Progress::Finished(end1)),
        states2.len() == requests2.len(),
        states2.len() > 0,
        db_history_in_full(present, dbs2, requests2, replies2),
        dbs2[0] == dbs1.last(),
        end1.0.init_first() == Progress::<Init<P>, EntryOutcome<P, ()>, P>::Perform(states2[0], requests2[0]),
        forall|u: int| 0 <= u < states2.len() - 1 ==> (#[trigger] states2[u]).next_is(replies2[u], Progress::Perform(states2[u + 1], requests2[u + 1])),
        states2.last().next_is(replies2.last(), Progress::Finished(end2)),
    ensures
        end1.1 is Ok,
        end2.1 is Ok,
        end2.0 == end1.0,
        dbs2.last() == dbs1.last(),
        volumes_settled(dbs1[0], dbs1.last().tables, end1.0.id, entry.volume_count),
{
    let n1 = states1.len() - 1;
    lemma_first_init_prefix(entry, present, states1, requests1, replies1, dbs1, n1);
    assert(answers_in_full(present, dbs1[n1], requests1[n1], replies1[n1], dbs1[n1 + 1]));
    lemma_first_init_step(entry, present, dbs1[0], states1[n1], requests1[n1], dbs1[n1], replies1[n1], dbs1[n1 + 1], Progress::Finished(end1));
    let e1 = end1.0;
    let t1 = dbs1.last().tables;
    let b1 = dbs1.last().begun;
    assert(dbs1.last() == dbs1[n1 + 1]);
    assert(initialized_as(t1, e1, e1.id, present));
    let n2 = states2.len() - 1;
    lemma_second_init_prefix(e1, t1, b1, present, states2, requests2, replies2, dbs2, n2);
    assert(answers_in_full(present, dbs2[n2], requests2[n2], replies2[n2], dbs2[n2 + 1]));
    lemma_second_init_step(e1, t1, b1, present, states2[n2], requests2[n2], dbs2[n2], replies2[n2], dbs2[n2 + 1], Progress::Finished(end2));
    assert(dbs2.last() == dbs2[n2 + 1]);
}

/// A volume count change begun with the database at `db0` stands at `s` with the
/// database at `db`: before its transaction nothing has changed; inside it, the
/// transaction begun on the tables of `db0`, which had none open, is still open.
pub open spec fn count_change_atomic<P>(db0: Db<P>, s: SetVolumeCount<P>, db: Db<P>) -> bool {
    match s {
        SetVolumeCount::FindingId { lookup: _, new_count: _ } => db == db0,
        SetVolumeCount::Beginning { entry: _, manga_id: _, new_count: _ } => db == db0,
        _ => db0.begun is None && db.begun == Some(db0.tables),
    }
}

/// Each step of a volume count change keeps it atomic: a change that fails, its commit
/// included, ends with the database as it began.
pub proof fn law_count_change_atomic_step<P: Copy>(
    db0: Db<P>,
    present: spec_fn(Seq<char>) -> bool,
    s: SetVolumeCount<P>,
    a: Action<P>,
    db: Db<P>,
    reply: Reply<P>,
    db2: Db<P>,
    r: Progress<SetVolumeCount<P>, EntryOutcome<P, ()>, P>,
)
    requires
        count_change_atomic(db0, s, db),
        s.next_is(reply, r),
        answers(present, db, a, reply, db2),
        count_request_fits(s, a),
    ensures
        match r {
            Progress::Perform(s2, _) => count_change_atomic(db0, s2, db2),
            Progress::Finished(end) => end.1 is Err ==> db2 == db0,
        },
{
}

/// The request a volume count change makes from state `s` is of the kind that state makes.
pub open spec fn count_request_fits<P>(s: SetVolumeCount<P>, a: Action<P>) -> bool {
    &&& s is FindingId ==> a is LookupMangaId
    &&& s is Beginning ==> a is BeginTransaction
    &&& s is RollingBack ==> a is RollbackTransaction
    &&& s is Committing ==> a is CommitTransaction
    &&& !(s is FindingId || s is Beginning || s is RollingBack || s is Committing) ==> !(a is BeginTransaction
        || a is CommitTransaction || a is RollbackTransaction)
}

proof fn lemma_count_requests_fit<P: Copy>(s: SetVolumeCount<P>, reply: Reply<P>, s2: SetVolumeCount<P>, a2: Action<P>)
    requires
        s.next_is(reply, Progress::Perform(s2, a2)),
    ensures
        count_request_fits(s2, a2),
{
}

/// `update_manga` of series `id`, run with the database answering as it may (any statement
/// may fail), when it ends before saving the series — the series is unknown or cannot be
/// loaded, or its volume count change fails, the commit included — answers with an error
/// and leaves the database as it was: a new price, in particular, is not written.
pub proof fn law_update_manga_unsaved_leaves_tables<P: Copy>(
    id: i64,
    new_price: Option<P>,
    new_count: Option<i64>,
    present: spec_fn(Seq<char>) -> bool,
    states: Seq<UpdateManga<P>>,
    requests: Seq<Action<P>>,
    replies: Seq<Reply<P>>,
    dbs: Seq<Db<P>>,
    end: Result<MangaResponse, HttpStatus>,
)
    requires
        states.len() > 0,
        states.len() == requests.len(),
        db_history(present, dbs, requests, replies),
        states[0] == (UpdateManga::Loading { id, new_price, new_count }),
        requests[0] == (Action::<P>::LoadMangaById { id }),
        forall|u: int| 0 <= u < states.len() - 1 ==> (#[trigger] states[u]).next_is(replies[u], Progress::Perform(states[u + 1], requests[u + 1])),
        states.last().next_is(replies.last(), Progress::Finished(end)),
        states.last() is Loading || states.last() is SettingCount,
    ensures
        end is Err,
        dbs.last() == dbs[0],
{
    let n = states.len() - 1;
    lemma_update_unsaved_prefix(present, states, requests, replies, dbs, n);
    assert(answers(present, dbs[n], requests[n], replies[n], dbs[n + 1]));
    lemma_update_unsaved_step(dbs[0], present, states[n], requests[n], dbs[n], replies[n], dbs[n + 1], Progress::Finished(end));
    assert(dbs.last() == dbs[n + 1]);
}

/// `update_manga` stands at `s` with request `a` pending and the database at `db`, having
/// begun with it at `db0`: before its save, the database is untouched but for an open
/// count change transaction.
pub open spec fn update_unsaved_on_track<P>(db0: Db<P>, s: UpdateManga<P>, a: Action<P>, db: Db<P>) -> bool {
    match s {
        UpdateManga::Loading { id, new_price: _, new_count: _ } => db == db0 && a == (Action::<P>::LoadMangaById { id }),
        UpdateManga::SettingCount { count } => count_change_atomic(db0, count, db) && count_request_fits(count, a),
        _ => true,
    }
}

proof fn lemma_update_unsaved_step<P: Copy>(
    db0: Db<P>,
    present: spec_fn(Seq<char>) -> bool,
    s: UpdateManga<P>,
    a: Action<P>,
    db: Db<P>,
    reply: Reply<P>,
    db2: Db<P>,
    r: Progress<UpdateManga<P>, Result<MangaResponse, HttpStatus>, P>,
)
    requires
        update_unsaved_on_track(db0, s, a, db),
        answers(present, db, a, reply, db2),
        s.next_is(reply, r),
    ensures
        match r {
            Progress::Perform(s2, a2) => update_unsaved_on_track(db0, s2, a2, db2),
            Progress::Finished(end) => (s is Loading || s is SettingCount) ==> end is Err && db2 == db0,
        },
{
    match s {
        UpdateManga::Loading { id, new_price, new_count } => {
            if let Reply::Manga(Some(manga)) = reply {
                let m = match new_price {
                    Some(p) => MangaEntry { last_price: p, ..manga },
                    None => manga,
                };
                if let Some(c) = new_count {
                    if let Progress::Perform(count, a2) = m.set_volume_count_first(c) {
                        assert(count_request_fits(count, a2));
                    }
                }
            }
        },
        UpdateManga::SettingCount { count } => {
            let c = choose|c: Progress<SetVolumeCount<P>, EntryOutcome<P, ()>, P>| #[trigger] count.next_is(reply, c) && r == UpdateManga::after_count(c);
            law_count_change_atomic_step(db0, present, count, a, db, reply, db2, c);
            if let Progress::Perform(s2, a2) = c {
                lemma_count_requests_fit(count, reply, s2, a2);
            }
        },
        _ => {},
    }
}

proof fn lemma_update_unsaved_prefix<P: Copy>(
    present: spec_fn(Seq<char>) -> bool,
    states: Seq<UpdateManga<P>>,
    requests: Seq<Action<P>>,
    replies: Seq<Reply<P>>,
    dbs: Seq<Db<P>>,
    t: int,
)
    requires
        states.len() == requests.len(),
        db_history(present, dbs, requests, replies),
        0 <= t < states.len(),
        states[0] is Loading,
        requests[0] == (Action::<P>::LoadMangaById { id: states[0]->Loading_id }),
        forall|u: int| 0 <= u < states.len() - 1 ==> (#[trigger] states[u]).next_is(replies[u], Progress::Perform(states[u + 1], requests[u + 1])),
    ensures
        update_unsaved_on_track(dbs[0], states[t], requests[t], dbs[t]),
    decreases t,
{
    if t > 0 {
        lemma_update_unsaved_prefix(present, states, requests, replies, dbs, t - 1);
        assert(answers(present, dbs[t - 1], requests[t - 1], replies[t - 1], dbs[t]));
        assert(states[t - 1].next_is(replies[t - 1], Progress::Perform(states[t], requests[t])));
        lemma_update_unsaved_step(dbs[0], present, states[t - 1], requests[t - 1], dbs[t - 1], replies[t - 1], dbs[t], Progress::Perform(states[t], requests[t]));
    }
}

/// Every series row named `name` carries the price `price`, and there is one.
pub open spec fn priced_rows<P>(t: Tables<P>, name: Seq<char>, price: P) -> bool {
    &&& has_series_named(t, name)
    &&& forall|id: i64| t.series.dom().contains(id) && (#[trigger] t.series[id]).name == name ==> t.series[id].last_price == price
}

/// Every series row named `name` records `count` volumes.
pub open spec fn counted_rows<P>(t: Tables<P>, name: Seq<char>, count: i64) -> bool {
    forall|id: i64| t.series.dom().contains(id) && (#[trigger] t.series[id]).name == name ==> t.series[id].volume_count == count
}

/// The volume count `update_manga` of `manga` leaves: the one asked for when it is at
/// least one, else the count the series had.
pub open spec fn recounted<P>(manga: MangaEntry<P>, new_count: Option<i64>) -> i64 {
    match new_count {
        Some(c) => if c >= 1 { c } else { manga.volume_count },
        None => manga.volume_count,
    }
}

/// The entry `update_manga` works on once `manga` is loaded: with the new price, if any.
pub open spec fn repriced<P>(manga: MangaEntry<P>, new_price: Option<P>) -> MangaEntry<P> {
    match new_price {
        Some(p) => MangaEntry { last_price: p, ..manga },
        None => manga,
    }
}

/// `update_manga` of the loaded series `manga`, every statement taking effect, stands at
/// `s` with request `a` pending and the database at `db`: the entry it changes carries the
/// series' name, the price and the volume count it is to have; once saved, the series' rows
/// carry that price and count and only reads follow.
pub open spec fn update_price_on_track<P>(
    manga: MangaEntry<P>,
    new_price: Option<P>,
    new_count: Option<i64>,
    s: UpdateManga<P>,
    a: Action<P>,
    db: Db<P>,
) -> bool {
    let e0 = repriced(manga, new_price);
    match s {
        UpdateManga::Loading { id: _, new_price: _, new_count: _ } => false,
        UpdateManga::SettingCount { count } => new_count matches Some(c) && crate::laws::count_change_on_track(e0, c, count),
        UpdateManga::Saving { save } => match save {
            Save::Checking { entry } => entry.name == e0.name && entry.last_price == e0.last_price
                && entry.volume_count == recounted(manga, new_count)
                && a == (Action::<P>::CheckMangaStored { name: entry.name }),
            Save::Writing { entry } => entry.name == e0.name && entry.last_price == e0.last_price
                && entry.volume_count == recounted(manga, new_count)
                && a == manga_write(entry, has_series_named(db.tables, entry.name@)),
            Save::Reporting { entry: _ } => false,
        },
        UpdateManga::Responding { response: _ } => priced_rows(db.tables, manga.name@, e0.last_price)
            && counted_rows(db.tables, manga.name@, recounted(manga, new_count))
            && (a is LookupMangaId || a is LoadOwnedVolumes),
    }
}

proof fn lemma_priced_after_write<P>(present: spec_fn(Seq<char>) -> bool, e: MangaEntry<P>, db: Db<P>, reply: Reply<P>, db2: Db<P>)
    requires
        answers_in_full(present, db, manga_write(e, has_series_named(db.tables, e.name@)), reply, db2),
    ensures
        priced_rows(db2.tables, e.name@, e.last_price),
        counted_rows(db2.tables, e.name@, e.volume_count),
        reply is Done,
{
    let t0 = db.tables;
    let t2 = db2.tables;
    if has_series_named(t0, e.name@) {
        let id0 = choose|id: i64| t0.series.dom().contains(id) && (#[trigger] t0.series[id]).name == e.name@;
        assert(t2.series.dom().contains(id0) && t2.series[id0].name == e.name@);
    } else {
        let id = choose|id: i64| #[trigger] series_row_added(t0, t2, id, saved_row(e));
        assert(t2.series.dom().contains(id) && t2.series[id].name == e.name@);
    }
}

proof fn lemma_response_reads<P: Copy>(e: MangaEntry<P>, c: CreateResponse<P>, reply: Reply<P>)
    ensures
        CreateResponse::first(e) matches Progress::Perform(_, a) ==> (a is LookupMangaId || a is LoadOwnedVolumes),
        forall|r: Progress<CreateResponse<P>, EntryOutcome<P, Option<MangaResponse>>, P>| #[trigger] c.next_is(reply, r)
            ==> (r matches Progress::Perform(_, a) ==> (a is LookupMangaId || a is LoadOwnedVolumes)),
{
}

proof fn lemma_update_price_step<P: Copy>(
    manga: MangaEntry<P>,
    new_price: Option<P>,
    new_count: Option<i64>,
    present: spec_fn(Seq<char>) -> bool,
    s: UpdateManga<P>,
    a: Action<P>,
    db: Db<P>,
    reply: Reply<P>,
    db2: Db<P>,
    r: Progress<UpdateManga<P>, Result<MangaResponse, HttpStatus>, P>,
)
    requires
        update_price_on_track(manga, new_price, new_count, s, a, db),
        answers_in_full(present, db, a, reply, db2),
        s.next_is(reply, r),
    ensures
        match r {
            Progress::Perform(s2, a2) => update_price_on_track(manga, new_price, new_count, s2, a2, db2),
            Progress::Finished(end) => end is Ok ==> s is Responding && priced_rows(db2.tables, manga.name@, repriced(manga, new_price).last_price)
                && counted_rows(db2.tables, manga.name@, recounted(manga, new_count)),
        },
{
    let e0 = repriced(manga, new_price);
    match s {
        UpdateManga::SettingCount { count } => {
            let c = choose|c: Progress<SetVolumeCount<P>, EntryOutcome<P, ()>, P>| #[trigger] count.next_is(reply, c) && r == UpdateManga::after_count(c);
            let nc = new_count->0;
            crate::laws::law_count_change_step(e0, nc, count, reply, c);
        },
        UpdateManga::Saving { save } => {
            if let Save::Writing { entry } = save {
                lemma_priced_after_write(present, entry, db, reply, db2);
                lemma_response_reads(entry, CreateResponse::FindingId { lookup: GetId { entry } }, reply);
            }
        },
        UpdateManga::Responding { response } => {
            let c = choose|c: Progress<CreateResponse<P>, EntryOutcome<P, Option<MangaResponse>>, P>| #[trigger] response.next_is(reply, c)
                && r == UpdateManga::after_response(c);
            lemma_response_reads(manga, response, reply);
            let id0 = choose|id: i64| db.tables.series.dom().contains(id) && (#[trigger] db.tables.series[id]).name == manga.name@;
            assert(db2.tables.series.dom().contains(id0) && db2.tables.series[id0].name == manga.name@);
        },
        _ => {},
    }
}

/// `update_manga` of a series, run to success with every statement taking effect, leaves
/// the rows with the loaded series' name carrying the price asked for when one was given,
/// else the price it had — whether or not a volume count was given too — and the volume
/// count asked for when one of at least one was given, else the count it had.
pub proof fn law_update_manga_writes_price_and_count<P: Copy>(
    id: i64,
    new_price: Option<P>,
    new_count: Option<i64>,
    manga: MangaEntry<P>,
    present: spec_fn(Seq<char>) -> bool,
    states: Seq<UpdateManga<P>>,
    requests: Seq<Action<P>>,
    replies: Seq<Reply<P>>,
    dbs: Seq<Db<P>>,
    end: Result<MangaResponse, HttpStatus>,
)
    requires
        states.len() == requests.len(),
        states.len() > 0,
        db_history_in_full(present, dbs, requests, replies),
        states[0] == (UpdateManga::Loading { id, new_price, new_count }),
        replies[0] == Reply::<P>::Manga(Some(manga)),
        forall|u: int| 0 <= u < states.len() - 1 ==> (#[trigger] states[u]).next_is(replies[u], Progress::Perform(states[u + 1], requests[u + 1])),
        states.last().next_is(replies.last(), Progress::Finished(end)),
        end is Ok,
    ensures
        has_series_named(dbs.last().tables, manga.name@),
        forall|k: i64| dbs.last().tables.series.dom().contains(k) && (#[trigger] dbs.last().tables.series[k]).name == manga.name@
            ==> dbs.last().tables.series[k].last_price == match new_price {
                Some(p) => p,
                None => manga.last_price,
            },
        forall|k: i64| dbs.last().tables.series.dom().contains(k) && (#[trigger] dbs.last().tables.series[k]).name == manga.name@
            ==> dbs.last().tables.series[k].volume_count == match new_count {
                Some(c) => if c >= 1 { c } else { manga.volume_count },
                None => manga.volume_count,
            },
{
    let n = states.len() - 1;
    assert(n > 0) by {
        if n == 0 {
            lemma_update_load_step(manga, new_price, new_count, id, Progress::Finished(end));
        }
    }
    lemma_update_price_prefix(id, new_price, new_count, manga, present, states, requests, replies, dbs, n);
    assert(answers_in_full(present, dbs[n], requests[n], replies[n], dbs[n + 1]));
    lemma_update_price_step(manga, new_price, new_count, present, states[n], requests[n], dbs[n], replies[n], dbs[n + 1], Progress::Finished(end));
    assert(dbs.last() == dbs[n + 1]);
}

proof fn lemma_update_load_step<P: Copy>(
    manga: MangaEntry<P>,
    new_price: Option<P>,
    new_count: Option<i64>,
    id: i64,
    r: Progress<UpdateManga<P>, Result<MangaResponse, HttpStatus>, P>,
)
    requires
        (UpdateManga::Loading { id, new_price, new_count }).next_is(Reply::Manga(Some(manga)), r),
    ensures
        match r {
            Progress::Perform(s2, _) => s2 matches UpdateManga::SettingCount { count } ==> (new_count matches Some(c)
                && crate::laws::count_change_on_track(repriced(manga, new_price), c, count)),
            Progress::Finished(end) => end is Err,
        },
        r matches Progress::Perform(s2, a2) ==> s2 is SettingCount || (s2 matches UpdateManga::Saving { save: Save::Checking { entry } }
            && entry == repriced(manga, new_price) && entry.volume_count == recounted(manga, new_count)
            && a2 == (Action::<P>::CheckMangaStored { name: entry.name })),
{
    if let Some(c) = new_count {
        crate::laws::lemma_count_change_start(repriced(manga, new_price), c);
    }
}

proof fn lemma_update_price_prefix<P: Copy>(
    id: i64,
    new_price: Option<P>,
    new_count: Option<i64>,
    manga: MangaEntry<P>,
    present: spec_fn(Seq<char>) -> bool,
    states: Seq<UpdateManga<P>>,
    requests: Seq<Action<P>>,
    replies: Seq<Reply<P>>,
    dbs: Seq<Db<P>>,
    t: int,
)
    requires
        states.len() == requests.len(),
        db_history_in_full(present, dbs, requests, replies),
        states[0] == (UpdateManga::Loading { id, new_price, new_count }),
        replies[0] == Reply::<P>::Manga(Some(manga)),
        forall|u: int| 0 <= u < states.len() - 1 ==> (#[trigger] states[u]).next_is(replies[u], Progress::Perform(states[u + 1], requests[u + 1])),
        1 <= t < states.len(),
    ensures
        update_price_on_track(manga, new_price, new_count, states[t], requests[t], dbs[t]),
    decreases t,
{
    assert(states[t - 1].next_is(replies[t - 1], Progress::Perform(states[t], requests[t])));
    if t == 1 {
        lemma_update_load_step(manga, new_price, new_count, id, Progress::Perform(states[1], requests[1]));
    } else {
        lemma_update_price_prefix(id, new_price, new_count, manga, present, states, requests, replies, dbs, t - 1);
        assert(answers_in_full(present, dbs[t - 1], requests[t - 1], replies[t - 1], dbs[t]));
        lemma_update_price_step(manga, new_price, new_count, present, states[t - 1], requests[t - 1], dbs[t - 1], replies[t - 1], dbs[t], Progress::Perform(states[t], requests[t]));
    }
}

/// `t1` keeps every series row of `t0`, with its volume count, and all volume rows.
pub open spec fn counts_kept<P>(t0: Tables<P>, t1: Tables<P>) -> bool {
    &&& t1.volumes == t0.volumes
    &&& t1.series.dom() == t0.series.dom()
    &&& forall|id: i64| t0.series.dom().contains(id) ==> (#[trigger] t1.series[id]).volume_count == t0.series[id].volume_count
}

proof fn lemma_counts_kept_consistent<P>(t0: Tables<P>, t1: Tables<P>, id: i64, n: i64)
    requires
        counts_kept(t0, t1),
        series_consistent(t0, id, n),
    ensures
        series_consistent(t1, id, n),
{
    assert forall|m: i64| 1 <= m <= n implies #[trigger] has_volume_row(t1, id, m) by {
        assert(has_volume_row(t0, id, m));
    }
}

proof fn lemma_rows_start<P: Copy>(orig: MangaEntry<P>, new_count: i64, db: Db<P>)
    requires
        orig.volume_count >= 0,
    ensures
        match orig.set_volume_count_first(new_count) {
            Progress::Perform(s, a) => 1 <= new_count && new_count != orig.volume_count && rows_on_track(orig, new_count, db, s, a, db),
            Progress::Finished(end) => end == (orig, Ok::<(), DbError>(())),
        },
{
}

/// `update_metadata(new_count, price)` of `orig`, begun with the database at `db0`, stands
/// at `s` with request `a` pending and the database at `db`: first the price is written,
/// keeping every count and volume row; then, from the database `db1` that the price write
/// left, the volume count of the priced entry is changed with its rows on track.
pub open spec fn metadata_rows_on_track<P>(
    orig: MangaEntry<P>,
    new_count: i64,
    price: P,
    db0: Db<P>,
    db1: Db<P>,
    s: UpdateMetadata<P>,
    a: Action<P>,
    db: Db<P>,
) -> bool {
    let priced = MangaEntry { last_price: price, ..orig };
    match s {
        UpdateMetadata::UpdatingPrice { entry, new_count: c } => entry == priced && c == new_count && db == db0
            && a == (Action::<P>::UpdateMangaPrice { name: orig.name, last_price: price }),
        UpdateMetadata::SettingCount { count } => 1 <= new_count && new_count != orig.volume_count
            && db1.begun == db0.begun && counts_kept(db0.tables, db1.tables)
            && rows_on_track(priced, new_count, db1, count, a, db),
    }
}

/// What holds once `update_metadata` of `orig`, begun with the database at `db0`, has
/// finished with `end` and left it at `db`: a transaction is open only if one was before,
/// and if the series whose id the entry has recorded the old count with exactly the volume
/// rows up to it, it now records the count the entry has, with exactly the rows up to it.
pub open spec fn metadata_rows_settled<P>(orig: MangaEntry<P>, db0: Db<P>, end: EntryOutcome<P, ()>, db: Db<P>) -> bool {
    &&& db.begun == db0.begun
    &&& series_consistent(db0.tables, end.0.id, orig.volume_count) ==> series_consistent(db.tables, end.0.id, end.0.volume_count)
}

/// Each step of `update_metadata`, with the database answering as it may, keeps its rows on
/// track; a finished one leaves them settled.
pub proof fn law_metadata_rows_step<P: Copy>(
    orig: MangaEntry<P>,
    new_count: i64,
    price: P,
    db0: Db<P>,
    db1: Db<P>,
    present: spec_fn(Seq<char>) -> bool,
    s: UpdateMetadata<P>,
    a: Action<P>,
    db: Db<P>,
    reply: Reply<P>,
    db2: Db<P>,
    r: Progress<UpdateMetadata<P>, EntryOutcome<P, ()>, P>,
)
    requires
        orig.volume_count >= 0,
        metadata_rows_on_track(orig, new_count, price, db0, db1, s, a, db),
        answers(present, db, a, reply, db2),
        s.next_is(reply, r),
    ensures
        match r {
            Progress::Perform(s2, a2) => metadata_rows_on_track(
                orig,
                new_count,
                price,
                db0,
                if s is UpdatingPrice { db2 } else { db1 },
                s2,
                a2,
                db2,
            ),
            Progress::Finished(end) => metadata_rows_settled(orig, db0, end, db2),
        },
{
    let priced = MangaEntry { last_price: price, ..orig };
    match s {
        UpdateMetadata::UpdatingPrice { entry, new_count: c } => {
            if reply is Done {
                assert(answers_in_full(present, db, a, reply, db2));
                assert(db2.tables.series.dom() =~= db0.tables.series.dom());
                assert(counts_kept(db0.tables, db2.tables));
                lemma_rows_start(priced, new_count, db2);
                if series_consistent(db0.tables, orig.id, orig.volume_count) {
                    lemma_counts_kept_consistent(db0.tables, db2.tables, orig.id, orig.volume_count);
                }
            }
        },
        UpdateMetadata::SettingCount { count } => {
            match r {
                Progress::Perform(UpdateMetadata::SettingCount { count: c2 }, a2) => {
                    law_count_change_rows_step(priced, new_count, db1, present, count, a, db, reply, db2, Progress::Perform(c2, a2));
                },
                Progress::Finished(end) => {
                    law_count_change_rows_step(priced, new_count, db1, present, count, a, db, reply, db2, Progress::Finished(end));
                    if series_consistent(db0.tables, end.0.id, orig.volume_count) {
                        lemma_counts_kept_consistent(db0.tables, db1.tables, end.0.id, orig.volume_count);
                    }
                },
                _ => {},
            }
        },
    }
}

/// `update_metadata(new_count, price)`, run to its end with the database answering as it
/// may (any statement may fail): afterwards a transaction is open only if one was before,
/// and if the row of the series whose id the entry ends with recorded the entry's old
/// count with exactly the volume rows numbered `1` to it, then the row records the count
/// the entry now has, with exactly the volume rows up to it. So when it succeeds with a
/// count of at least one, lower or higher than before, that series' row records that count
/// and its volume rows are exactly those numbered `1` to it.
pub proof fn law_update_metadata_keeps_volume_rows<P: Copy>(
    entry: MangaEntry<P>,
    new_count: i64,
    price: P,
    present: spec_fn(Seq<char>) -> bool,
    states: Seq<UpdateMetadata<P>>,
    requests: Seq<Action<P>>,
    replies: Seq<Reply<P>>,
    dbs: Seq<Db<P>>,
    end: EntryOutcome<P, ()>,
)
    requires
        entry.volume_count >= 0,
        db_history(present, dbs, requests, replies),
        states.len() == requests.len(),
        states.len() > 0,
        entry.update_metadata_first(new_count, price) == Progress::<UpdateMetadata<P>, EntryOutcome<P, ()>, P>::Perform(states[0], requests[0]),
        forall|u: int| 0 <= u < states.len() - 1 ==> (#[trigger] states[u]).next_is(replies[u], Progress::Perform(states[u + 1], requests[u + 1])),
        states.last().next_is(replies.last(), Progress::Finished(end)),
    ensures
        metadata_rows_settled(entry, dbs[0], end, dbs.last()),
        end.1 is Ok && 1 <= new_count && series_consistent(dbs[0].tables, end.0.id, entry.volume_count)
            ==> series_consistent(dbs.last().tables, end.0.id, new_count),
{
    let n = states.len() - 1;
    crate::laws::law_update_metadata_run(entry, new_count, price, states, requests, replies, end);
    lemma_metadata_rows_prefix(entry, new_count, price, present, states, requests, replies, dbs, n);
    assert(answers(present, dbs[n], requests[n], replies[n], dbs[n + 1]));
    law_metadata_rows_step(entry, new_count, price, dbs[0], dbs[1], present, states[n], requests[n], dbs[n], replies[n], dbs[n + 1], Progress::Finished(end));
    assert(dbs.last() == dbs[n + 1]);
}

proof fn lemma_metadata_rows_prefix<P: Copy>(
    entry: MangaEntry<P>,
    new_count: i64,
    price: P,
    present: spec_fn(Seq<char>) -> bool,
    states: Seq<UpdateMetadata<P>>,
    requests: Seq<Action<P>>,
    replies: Seq<Reply<P>>,
    dbs: Seq<Db<P>>,
    t: int,
)
    requires
        entry.volume_count >= 0,
        db_history(present, dbs, requests, replies),
        states.len() == requests.len(),
        0 <= t < states.len(),
        entry.update_metadata_first(new_count, price) == Progress::<UpdateMetadata<P>, EntryOutcome<P, ()>, P>::Perform(states[0], requests[0]),
        forall|u: int| 0 <= u < states.len() - 1 ==> (#[trigger] states[u]).next_is(replies[u], Progress::Perform(states[u + 1], requests[u + 1])),
    ensures
        metadata_rows_on_track(entry, new_count, price, dbs[0], dbs[1], states[t], requests[t], dbs[t]),
        t == 0 <==> states[t] is UpdatingPrice,
    decreases t,
{
    if t > 0 {
        lemma_metadata_rows_prefix(entry, new_count, price, present, states, requests, replies, dbs, t - 1);
        assert(answers(present, dbs[t - 1], requests[t - 1], replies[t - 1], dbs[t]));
        assert(states[t - 1].next_is(replies[t - 1], Progress::Perform(states[t], requests[t])));
        law_metadata_rows_step(
            entry,
            new_count,
            price,
            dbs[0],
            dbs[1],
            present,
            states[t - 1],
            requests[t - 1],
            dbs[t - 1],
            replies[t - 1],
            dbs[t],
            Progress::Perform(states[t], requests[t]),
        );
    }
}

/// Series `v.manga_id` has a volume row numbered `v.volume_number`, and every such row
/// records `v`'s ownership and price.
pub open spec fn volume_row_holds<P>(t: Tables<P>, v: MangaVolume<P>) -> bool {
    &&& has_volume_row(t, v.manga_id, v.volume_number)
    &&& forall|r: int| t.volumes.dom().contains(r) && (#[trigger] t.volumes[r]).manga_id == v.manga_id
        && t.volumes[r].volume_number == v.volume_number
        ==> t.volumes[r].owned == v.owned && t.volumes[r].bought_price == Some(v.bought_price)
}

proof fn lemma_volume_write_holds<P>(
    present: spec_fn(Seq<char>) -> bool,
    db: Db<P>,
    w: MangaVolume<P>,
    exists: bool,
    reply: Reply<P>,
    db2: Db<P>,
)
    requires
        answers_in_full(present, db, volume_write(w, exists), reply, db2),
        exists == has_volume_row(db.tables, w.manga_id, w.volume_number),
    ensures
        volume_row_holds(db2.tables, w),
        reply is Done,
{
    let t = db.tables;
    let t2 = db2.tables;
    if exists {
        let q = choose|q: int| t.volumes.dom().contains(q) && (#[trigger] t.volumes[q]).manga_id == w.manga_id
            && t.volumes[q].volume_number == w.volume_number;
        assert(t2.volumes.dom().contains(q) && t2.volumes[q].manga_id == w.manga_id && t2.volumes[q].volume_number == w.volume_number);
        assert forall|r: int| t2.volumes.dom().contains(r) && (#[trigger] t2.volumes[r]).manga_id == w.manga_id
            && t2.volumes[r].volume_number == w.volume_number
            implies t2.volumes[r].owned == w.owned && t2.volumes[r].bought_price == Some(w.bought_price) by {
            assert(t.volumes.dom().contains(r));
        }
    } else {
        let row = VolumeRow { manga_id: w.manga_id, volume_number: w.volume_number, owned: w.owned, bought_price: Some(w.bought_price) };
        let q = choose|q: int| #[trigger] volume_row_added(t, t2, q, row);
        assert(t2.volumes.dom().contains(q) && t2.volumes[q] == row);
        assert forall|r: int| t2.volumes.dom().contains(r) && (#[trigger] t2.volumes[r]).manga_id == w.manga_id
            && t2.volumes[r].volume_number == w.volume_number
            implies t2.volumes[r].owned == w.owned && t2.volumes[r].bought_price == Some(w.bought_price) by {
            if r != q {
                assert(t.volumes.dom().contains(r) && t.volumes[r] == t2.volumes[r]);
                assert(has_volume_row(t, w.manga_id, w.volume_number));
            }
        }
    }
}

/// `store` of a volume, run to its end with every statement taking effect, succeeds; the
/// volume's series then has a row with the volume's number, and every such row records
/// the volume's own ownership and price. (A volume already known to be stored is taken to
/// have its row.)
pub proof fn law_store_in_full_leaves_row<P: Copy>(
    volume: MangaVolume<P>,
    present: spec_fn(Seq<char>) -> bool,
    states: Seq<Store<P>>,
    requests: Seq<Action<P>>,
    replies: Seq<Reply<P>>,
    dbs: Seq<Db<P>>,
    end: VolumeOutcome<P, bool>,
)
    requires
        states.len() == requests.len(),
        states.len() > 0,
        db_history_in_full(present, dbs, requests, replies),
        volume.stored_state ==> has_volume_row(dbs[0].tables, volume.manga_id, volume.volume_number),
        volume.store_first() == Progress::<Store<P>, VolumeOutcome<P, bool>, P>::Perform(states[0], requests[0]),
        forall|u: int| 0 <= u < states.len() - 1 ==> (#[trigger] states[u]).next(replies[u]) == Progress::<Store<P>, VolumeOutcome<P, bool>, P>::Perform(states[u + 1], requests[u + 1]),
        states.last().next(replies.last()) == Progress::<Store<P>, VolumeOutcome<P, bool>, P>::Finished(end),
    ensures
        end.1 is Ok,
        volume_row_holds(dbs.last().tables, volume),
{
    law_store_run(volume, states, requests, replies, end);
    assert(answers_in_full(present, dbs[0], requests[0], replies[0], dbs[1]));
    assert(states.len() == 2);
    assert(dbs[1] == dbs[0]);
    assert(answers_in_full(present, dbs[1], requests[1], replies[1], dbs[2]));
    let found = has_volume_row(dbs[0].tables, volume.manga_id, volume.volume_number);
    if volume.stored_state {
        lemma_volume_write_holds(present, dbs[1], volume, true, replies[1], dbs[2]);
    } else {
        lemma_volume_write_holds(present, dbs[1], volume.marked_stored(), found, replies[1], dbs[2]);
    }
    assert(dbs.last() == dbs[2]);
}

/// `set_owned(state)` of a volume in the other state, run to its end with every statement
/// taking effect, succeeds; the volume's series then has a row with the volume's number,
/// and every such row records ownership `state` and the volume's price. (A volume already
/// known to be stored is taken to have its row.)
pub proof fn law_set_owned_in_full_leaves_row<P: Copy>(
    volume: MangaVolume<P>,
    state: bool,
    present: spec_fn(Seq<char>) -> bool,
    states: Seq<SetOwned<P>>,
    requests: Seq<Action<P>>,
    replies: Seq<Reply<P>>,
    dbs: Seq<Db<P>>,
    end: VolumeOutcome<P, ()>,
)
    requires
        volume.owned != state,
        states.len() == requests.len(),
        states.len() > 0,
        db_history_in_full(present, dbs, requests, replies),
        volume.stored_state ==> has_volume_row(dbs[0].tables, volume.manga_id, volume.volume_number),
        volume.set_owned_first(state) == Progress::<SetOwned<P>, VolumeOutcome<P, ()>, P>::Perform(states[0], requests[0]),
        forall|u: int| 0 <= u < states.len() - 1 ==> (#[trigger] states[u]).next(replies[u]) == Progress::<SetOwned<P>, VolumeOutcome<P, ()>, P>::Perform(states[u + 1], requests[u + 1]),
        states.last().next(replies.last()) == Progress::<SetOwned<P>, VolumeOutcome<P, ()>, P>::Finished(end),
    ensures
        end.1 is Ok,
        volume_row_holds(dbs.last().tables, MangaVolume { owned: state, ..volume }),
{
    let w = volume.with_owned(state);
    let stores = states.map_values(|s: SetOwned<P>| s.store);
    assert forall|u: int| 0 <= u < stores.len() - 1 implies (#[trigger] stores[u]).next(replies[u])
        == Progress::<Store<P>, VolumeOutcome<P, bool>, P>::Perform(stores[u + 1], requests[u + 1]) by {
        assert(states[u].next(replies[u]) == Progress::<SetOwned<P>, VolumeOutcome<P, ()>, P>::Perform(states[u + 1], requests[u + 1]));
    }
    let last = states.last().store.next(replies.last());
    assert(last is Finished);
    let se = match last {
        Progress::Finished(x) => x,
        Progress::Perform(..) => (volume, Ok::<bool, DbError>(true)),
    };
    assert(stores.last() == states.last().store);
    law_store_in_full_leaves_row(w, present, stores, requests, replies, dbs, se);
}

} // verus!
