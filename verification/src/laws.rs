use crate::cover::{cover_candidate, cover_choice, cover_choice_from, cover_slug, FindCover};
use crate::manga::{
    manga_write, volume_write, GetId, GetVolume, Init, InitializeVolumes, Save, SetCachedOwned, SetOwned, SetVolumeCount, Store,
    UpdateMetadata,
};
use crate::mangadex::{
    chosen_manga, cover_file, cover_url, has_exact_title, has_title_word, matches_by_word, matches_exactly, MangaData, Relationship,
};
use crate::query::{describes, AllResponses, BuildMangaData, CreateResponse};
use crate::text::{ascii_folded, has_word, is_piece, same_ignoring_ascii_case, trimmed};
use crate::model::{keyed_by_number, volumes_up_to, MangaEntry, MangaResponse, MangaVolume};
use crate::protocol::{Action, DbError, EntryOutcome, Progress, Reply, VolumeOutcome};
use vstd::prelude::*;

verus! {

/// A positive id, once learned from the database, is answered again by `get_id` without
/// asking the database.
pub proof fn law_learned_id_is_reused<P: Copy>(entry: MangaEntry<P>, id: i64)
    requires
        id > 0,
    ensures
        (GetId { entry }).next(Reply::MangaId(Some(id))) matches Progress::Finished((e, Ok(Some(x))))
            && x == id
            && e.get_id_first() == Progress::<GetId<P>, EntryOutcome<P, Option<i64>>, P>::Finished((e, Ok(Some(id)))),
{
}

/// The volume a `store` is working on.
pub open spec fn stored_volume<P>(s: Store<P>) -> MangaVolume<P> {
    match s {
        Store::Reporting { volume } => volume,
        Store::Checking { volume } => volume,
        Store::Writing { volume } => volume,
    }
}

/// `a` and `b` are the same volume with the same ownership and price.
pub open spec fn same_volume<P>(a: MangaVolume<P>, b: MangaVolume<P>) -> bool {
    &&& a.owned == b.owned
    &&& a.volume_number == b.volume_number
    &&& a.manga_id == b.manga_id
    &&& a.bought_price == b.bought_price
}

/// Storing a volume never changes its ownership, number, series or price.
pub proof fn law_store_keeps_volume<P: Copy>(s: Store<P>, reply: Reply<P>)
    ensures
        match s.next(reply) {
            Progress::Perform(s2, _) => same_volume(stored_volume(s2), stored_volume(s)),
            Progress::Finished((v, _)) => same_volume(v, stored_volume(s)),
        },
{
}

/// `set_owned(state)` on a volume in another state stores the volume with `state`.
pub proof fn law_set_owned_stores_new_state<P: Copy>(v: MangaVolume<P>, state: bool)
    requires
        v.owned != state,
    ensures
        v.set_owned_first(state) matches Progress::Perform(s, _) && stored_volume(s.store).owned == state,
{
}

/// Once `set_owned(state)` has succeeded, the volume is in `state`, and asking for
/// `state` again does nothing and asks the database nothing.
pub proof fn law_set_owned_settles<P: Copy>(s: SetOwned<P>, state: bool, reply: Reply<P>)
    requires
        stored_volume(s.store).owned == state,
    ensures
        match s.next(reply) {
            Progress::Perform(s2, _) => stored_volume(s2.store).owned == state,
            Progress::Finished((v, Ok(()))) => v.owned == state
                && v.set_owned_first(state) == Progress::<SetOwned<P>, VolumeOutcome<P, ()>, P>::Finished((v, Ok(()))),
            Progress::Finished((v, Err(_))) => v.owned == state,
        },
{
    law_store_keeps_volume(s.store, reply);
}

/// A volume whose row had to be inserted is known to be stored afterwards: storing it
/// again skips the existence check and overwrites its row.
pub proof fn law_inserted_volume_is_known<P: Copy>(v: MangaVolume<P>, any: Reply<P>)
    requires
        !v.stored_state,
    ensures
        (Store::Checking { volume: v }).next(Reply::Failed(DbError::QueryReturnedNoRows)) matches Progress::Perform(
            Store::Writing { volume: w },
            a,
        ) && a == volume_write(w, false) && same_volume(w, v)
            && (Store::Writing { volume: w }).next(Reply::Done) == Progress::<Store<P>, VolumeOutcome<P, bool>, P>::Finished((w, Ok(true)))
            && w.store_first() == Progress::<Store<P>, VolumeOutcome<P, bool>, P>::Perform((Store::Reporting { volume: w }), Action::ReportSkippedCheck)
            && (Store::Reporting { volume: w }).next(any) == Progress::<Store<P>, VolumeOutcome<P, bool>, P>::Perform((Store::Writing { volume: w }), volume_write(w, true)),
{
}

/// After the count of a series is lowered and committed, the entry has the new count and
/// its cache holds exactly the volumes it held under a number at most the new count.
pub proof fn law_shrink_drops_volumes_above<P: Copy>(
    entry: MangaEntry<P>,
    new_count: i64,
    r: Progress<SetVolumeCount<P>, EntryOutcome<P, ()>, P>,
)
    requires
        new_count < entry.volume_count,
        (SetVolumeCount::Committing { entry, new_count }).next_is(Reply::Done, r),
    ensures
        r matches Progress::Finished((e, Ok(()))) && e.volume_count == new_count
            && (forall|n: i64| #[trigger] e.volumes@.contains_key(n) ==> n <= new_count && entry.volumes@.contains_key(n)
                && e.volumes@[n] == entry.volumes@[n])
            && (forall|n: i64| #[trigger] entry.volumes@.contains_key(n) && n <= new_count ==> e.volumes@.contains_key(n)),
{
}

/// The file a cover check asks about.
pub open spec fn checked_file<P>(a: Action<P>) -> Seq<char> {
    match a {
        Action::CheckCoverFile { file_name } => file_name@,
        _ => Seq::empty(),
    }
}

/// The cover search for series `name` stands at `r` while the cover folder holds the
/// files `present` says: a check of the next candidate, from which the first present one
/// is still the overall choice, or the choice itself.
pub open spec fn cover_search_on_track<P>(
    name: Seq<char>,
    present: spec_fn(Seq<char>) -> bool,
    r: Progress<FindCover, Option<String>, P>,
) -> bool {
    match r {
        Progress::Perform(f, a) => a is CheckCoverFile && f.slug@ == cover_slug(name) && f.extension < 4
            && checked_file(a) == cover_candidate(name, f.extension as int)
            && cover_choice_from(name, present, f.extension as int) == cover_choice(name, present),
        Progress::Finished(Some(c)) => cover_choice(name, present) == Some(c@),
        Progress::Finished(None) => cover_choice(name, present) is None,
    }
}

/// Each answer about a file that matches the cover folder keeps the search on track.
#[verifier::spinoff_prover]
pub proof fn law_cover_search_step<P>(
    name: Seq<char>,
    present: spec_fn(Seq<char>) -> bool,
    f: FindCover,
    a: Action<P>,
    r: Progress<FindCover, Option<String>, P>,
)
    requires
        cover_search_on_track(name, present, Progress::Perform(f, a)),
        f.next_is(Reply::<P>::Exists(present(checked_file(a))), r),
    ensures
        cover_search_on_track(name, present, r),
        r matches Progress::Perform(g, _) ==> g.extension == f.extension + 1,
{
    reveal_with_fuel(cover_choice_from, 2);
}

/// The cover search of a series checks `<slug>.jpg`, `<slug>.jpeg`, `<slug>.png`,
/// `<slug>.webp` in that order, stops at the first file the cover folder holds, and
/// answers it; with none of them present it answers none.
pub proof fn law_cover_search<P>(
    name: Seq<char>,
    present: spec_fn(Seq<char>) -> bool,
    states: Seq<FindCover>,
    requests: Seq<Action<P>>,
    end: Option<String>,
)
    requires
        states.len() == requests.len(),
        states.len() >= 1,
        FindCover::tries_is(cover_slug(name), 0, Progress::Perform(states[0], requests[0])),
        forall|u: int| 0 <= u < states.len() - 1 ==> (#[trigger] states[u]).next_is(
            Reply::<P>::Exists(present(checked_file(requests[u]))),
            Progress::Perform(states[u + 1], requests[u + 1]),
        ),
        states.last().next_is(Reply::<P>::Exists(present(checked_file(requests.last()))), Progress::Finished(end)),
    ensures
        states.len() <= 4,
        forall|u: int| 0 <= u < requests.len() ==> #[trigger] checked_file(requests[u]) == cover_candidate(name, u)
            && (u < requests.len() - 1 ==> !present(cover_candidate(name, u))),
        match end {
            Some(c) => cover_choice(name, present) == Some(c@),
            None => cover_choice(name, present) is None,
        },
{
    lemma_cover_search_prefix(name, present, states, requests, states.len() - 1);
    let n = states.len() - 1;
    law_cover_search_step(name, present, states[n], requests[n], Progress::Finished(end));
    assert forall|u: int| 0 <= u < requests.len() implies #[trigger] checked_file(requests[u]) == cover_candidate(name, u)
        && (u < requests.len() - 1 ==> !present(cover_candidate(name, u))) by {
        lemma_cover_search_prefix(name, present, states, requests, u);
        if u < requests.len() - 1 {
            assert(states[u].next_is(Reply::<P>::Exists(present(checked_file(requests[u]))), Progress::Perform(states[u + 1], requests[u + 1])));
        }
    }
}

proof fn lemma_cover_search_prefix<P>(
    name: Seq<char>,
    present: spec_fn(Seq<char>) -> bool,
    states: Seq<FindCover>,
    requests: Seq<Action<P>>,
    t: int,
)
    requires
        states.len() == requests.len(),
        0 <= t < states.len(),
        FindCover::tries_is(cover_slug(name), 0, Progress::Perform(states[0], requests[0])),
        forall|u: int| 0 <= u < states.len() - 1 ==> (#[trigger] states[u]).next_is(
            Reply::<P>::Exists(present(checked_file(requests[u]))),
            Progress::Perform(states[u + 1], requests[u + 1]),
        ),
    ensures
        cover_search_on_track(name, present, Progress::Perform(states[t], requests[t])),
        states[t].extension == t,
    decreases t,
{
    if t > 0 {
        lemma_cover_search_prefix(name, present, states, requests, t - 1);
        assert(states[t - 1].next_is(Reply::<P>::Exists(present(checked_file(requests[t - 1]))), Progress::Perform(states[t], requests[t])));
        law_cover_search_step(name, present, states[t - 1], requests[t - 1], Progress::Perform(states[t], requests[t]));
    }
}

proof fn lemma_first_exact(data: Seq<MangaData>, target: Seq<char>, i: int)
    requires
        0 <= i < data.len(),
        matches_exactly(data[i], target),
    ensures
        exists|k: int| 0 <= k <= i && matches_exactly(#[trigger] data[k], target)
            && forall|m: int| 0 <= m < k ==> !matches_exactly(#[trigger] data[m], target),
    decreases i,
{
    if exists|m: int| 0 <= m < i && matches_exactly(#[trigger] data[m], target) {
        let m = choose|m: int| 0 <= m < i && matches_exactly(#[trigger] data[m], target);
        lemma_first_exact(data, target, m);
    } else {
        assert(forall|m: int| 0 <= m < i ==> !matches_exactly(#[trigger] data[m], target));
    }
}

/// When some search result has the wanted title exactly, the result picked is the first
/// such one, whatever matches by word come before it.
pub proof fn law_exact_title_wins(data: Seq<MangaData>, target: Seq<char>, i: int)
    requires
        0 <= i < data.len(),
        matches_exactly(data[i], target),
    ensures
        chosen_manga(data, target) matches Some(k) && 0 <= k <= i && matches_exactly(data[k], target)
            && forall|m: int| 0 <= m < k ==> !matches_exactly(#[trigger] data[m], target),
{
    lemma_first_exact(data, target, i);
    let k = choose|k: int| 0 <= k < data.len() && matches_exactly(#[trigger] data[k], target)
        && forall|m: int| 0 <= m < k ==> !matches_exactly(#[trigger] data[m], target);
    assert(0 <= k < data.len() && matches_exactly(data[k], target));
    if k > i {
        assert(!matches_exactly(data[i], target));
    }
}

/// The requests that raise a series' volume count from `old` to `new`, once its
/// transaction is open, when all of them succeed.
pub open spec fn growth_requests<P>(manga_id: i64, old: i64, new: i64) -> Seq<Action<P>> {
    seq![Action::PrepareVolumeInsert { or_ignore: true }]
        + Seq::new(
            (new - old) as nat,
            |k: int| Action::InsertEmptyVolume { manga_id, volume_number: (old + 1 + k) as i64, or_ignore: true },
        )
        + seq![Action::UpdateVolumeCount { manga_id, volume_count: new }, Action::CommitTransaction]
}

/// Where a growth stands after `t` of its requests have succeeded.
#[verifier::opaque]
pub open spec fn growth_state<P>(entry: MangaEntry<P>, manga_id: i64, new_count: i64, t: int) -> SetVolumeCount<P> {
    let d = new_count - entry.volume_count;
    if t == 0 {
        SetVolumeCount::Beginning { entry, manga_id, new_count }
    } else if t == 1 {
        SetVolumeCount::Preparing { entry, manga_id, new_count }
    } else if t <= d + 1 {
        SetVolumeCount::Inserting { entry, manga_id, new_count, volume_number: (entry.volume_count + t - 1) as i64 }
    } else if t == d + 2 {
        SetVolumeCount::Recording { entry, manga_id, new_count }
    } else {
        SetVolumeCount::Committing { entry, new_count }
    }
}

proof fn lemma_growth_step<P: Copy>(entry: MangaEntry<P>, manga_id: i64, new_count: i64, t: int, r: Progress<SetVolumeCount<P>, EntryOutcome<P, ()>, P>)
    requires
        entry.volume_count < new_count,
        0 <= t,
        growth_state(entry, manga_id, new_count, t).next_is(Reply::Done, r),
    ensures
        t <= new_count - entry.volume_count + 2 ==> r == Progress::<SetVolumeCount<P>, EntryOutcome<P, ()>, P>::Perform(
            growth_state(entry, manga_id, new_count, t + 1),
            growth_requests::<P>(manga_id, entry.volume_count, new_count)[t],
        ),
        t > new_count - entry.volume_count + 2 ==> (r matches Progress::Finished((e, Ok(())))
            && e == entry.with_volumes(new_count, e.volumes) && e.volumes@ == entry.volumes@),
{
    reveal(growth_state);
    let d = new_count - entry.volume_count;
    let g = growth_requests::<P>(manga_id, entry.volume_count, new_count);
    if t == 0 {
        assert(g[0] == Action::<P>::PrepareVolumeInsert { or_ignore: true });
    } else if t <= d {
        assert(g[t] == Action::<P>::InsertEmptyVolume { manga_id, volume_number: (entry.volume_count + t) as i64, or_ignore: true });
    } else if t == d + 1 {
        assert(g[t] == Action::<P>::UpdateVolumeCount { manga_id, volume_count: new_count });
    } else if t == d + 2 {
        assert(g[t] == Action::<P>::CommitTransaction);
    }
}

#[verifier::spinoff_prover]
proof fn lemma_growth_prefix<P: Copy>(
    entry: MangaEntry<P>,
    manga_id: i64,
    new_count: i64,
    states: Seq<SetVolumeCount<P>>,
    requests: Seq<Action<P>>,
    t: int,
)
    requires
        entry.volume_count < new_count,
        states.len() == requests.len() + 1,
        states[0] == (SetVolumeCount::Beginning { entry, manga_id, new_count }),
        forall|u: int| 0 <= u < requests.len() ==> (#[trigger] states[u]).next_is(Reply::Done, Progress::Perform(states[u + 1], requests[u])),
        0 <= t <= requests.len(),
    ensures
        t <= new_count - entry.volume_count + 3,
        states[t] == growth_state(entry, manga_id, new_count, t),
        forall|u: int| 0 <= u < t ==> requests[u] == growth_requests::<P>(manga_id, entry.volume_count, new_count)[u],
    decreases t,
{
    if t == 0 {
        reveal(growth_state);
    } else {
        lemma_growth_prefix(entry, manga_id, new_count, states, requests, t - 1);
        assert(states[t - 1].next_is(Reply::Done, Progress::Perform(states[t], requests[t - 1])));
        lemma_growth_step(entry, manga_id, new_count, t - 1, Progress::Perform(states[t], requests[t - 1]));
    }
}

/// Raising the volume count of a series from `old` to `new`, once the transaction is open,
/// asks — when every request succeeds — for exactly: prepare the insert, insert volumes
/// `old + 1` to `new` in order, record `new`, commit. The entry then has `new` volumes and
/// its cache unchanged.
#[verifier::spinoff_prover]
#[verifier::rlimit(40)]
pub proof fn law_growth_requests<P: Copy>(
    entry: MangaEntry<P>,
    manga_id: i64,
    new_count: i64,
    states: Seq<SetVolumeCount<P>>,
    requests: Seq<Action<P>>,
    end: EntryOutcome<P, ()>,
)
    requires
        entry.volume_count < new_count,
        states.len() == requests.len() + 1,
        states[0] == (SetVolumeCount::Beginning { entry, manga_id, new_count }),
        forall|u: int| 0 <= u < requests.len() ==> (#[trigger] states[u]).next_is(Reply::Done, Progress::Perform(states[u + 1], requests[u])),
        states.last().next_is(Reply::Done, Progress::Finished(end)),
    ensures
        requests == growth_requests::<P>(manga_id, entry.volume_count, new_count),
        end.1 is Ok,
        end.0 == entry.with_volumes(new_count, end.0.volumes),
        end.0.volumes@ == entry.volumes@,
{
    let n = requests.len() as int;
    lemma_growth_prefix(entry, manga_id, new_count, states, requests, n);
    assert(states.last() == states[n]);
    lemma_growth_step(entry, manga_id, new_count, n, Progress::Finished(end));
    assert(n == new_count - entry.volume_count + 3);
    assert(requests =~= growth_requests::<P>(manga_id, entry.volume_count, new_count));
}

/// The requests that lower a series' volume count to `new`, once its transaction is open,
/// when all of them succeed.
pub open spec fn shrink_requests<P>(manga_id: i64, new: i64) -> Seq<Action<P>> {
    seq![
        Action::DeleteVolumesAbove { manga_id, volume_number: new },
        Action::UpdateVolumeCount { manga_id, volume_count: new },
        Action::CommitTransaction,
    ]
}

/// Lowering the volume count of a series to `new`, once the transaction is open, asks —
/// when every request succeeds — for exactly: delete the volume rows above `new`, record
/// `new`, commit. The entry then has `new` volumes and keeps the cached ones up to `new`.
#[verifier::spinoff_prover]
pub proof fn law_shrink_requests<P: Copy>(
    entry: MangaEntry<P>,
    manga_id: i64,
    new_count: i64,
    states: Seq<SetVolumeCount<P>>,
    requests: Seq<Action<P>>,
    end: EntryOutcome<P, ()>,
)
    requires
        new_count < entry.volume_count,
        states.len() == requests.len() + 1,
        states[0] == (SetVolumeCount::Beginning { entry, manga_id, new_count }),
        forall|u: int| 0 <= u < requests.len() ==> (#[trigger] states[u]).next_is(Reply::Done, Progress::Perform(states[u + 1], requests[u])),
        states.last().next_is(Reply::Done, Progress::Finished(end)),
    ensures
        requests == shrink_requests::<P>(manga_id, new_count),
        end.1 is Ok,
        end.0 == entry.with_volumes(new_count, end.0.volumes),
        end.0.volumes@ == volumes_up_to(entry.volumes@, new_count),
{
    let n = requests.len() as int;
    if n >= 1 {
        assert(states[0].next_is(Reply::Done, Progress::Perform(states[1], requests[0])));
        assert(states[1] == (SetVolumeCount::Deleting { entry, manga_id, new_count }));
    }
    if n >= 2 {
        assert(states[1].next_is(Reply::Done, Progress::Perform(states[2], requests[1])));
        assert(states[2] == (SetVolumeCount::Recording { entry, manga_id, new_count }));
    }
    if n >= 3 {
        assert(states[2].next_is(Reply::Done, Progress::Perform(states[3], requests[2])));
        assert(states[3] == (SetVolumeCount::Committing { entry, new_count }));
    }
    if n >= 4 {
        assert(states[3].next_is(Reply::Done, Progress::Perform(states[4], requests[3])));
    }
    assert(n == 3);
    assert(requests =~= shrink_requests::<P>(manga_id, new_count));
}

/// The requests that add the first volumes of a series, `1` to `count`, once the
/// transaction is open, when all of them succeed.
pub open spec fn first_volume_requests<P>(manga_id: i64, count: i64) -> Seq<Action<P>> {
    let d = if count > 0 { count } else { 0 };
    seq![Action::PrepareVolumeInsert { or_ignore: false }]
        + Seq::new(d as nat, |k: int| Action::InsertEmptyVolume { manga_id, volume_number: (1 + k) as i64, or_ignore: false })
        + seq![Action::CommitTransaction]
}

/// Where the addition of the first volumes stands after `t` of its requests have succeeded.
#[verifier::opaque]
pub open spec fn first_volumes_state<P>(entry: MangaEntry<P>, manga_id: i64, t: int) -> InitializeVolumes<P> {
    let d = if entry.volume_count > 0 { entry.volume_count as int } else { 0 };
    if t == 0 {
        InitializeVolumes::Beginning { entry, manga_id }
    } else if t == 1 {
        InitializeVolumes::Preparing { entry, manga_id }
    } else if t <= d + 1 {
        InitializeVolumes::Inserting { entry, manga_id, volume_number: (t - 1) as i64 }
    } else {
        InitializeVolumes::Committing { entry }
    }
}

proof fn lemma_first_volumes_step<P: Copy>(entry: MangaEntry<P>, manga_id: i64, t: int)
    requires
        0 <= t,
    ensures
        ({
            let d = if entry.volume_count > 0 { entry.volume_count as int } else { 0 };
            if t <= d + 1 {
                first_volumes_state(entry, manga_id, t).next(Reply::Done) == Progress::<InitializeVolumes<P>, EntryOutcome<P, ()>, P>::Perform(
                    first_volumes_state(entry, manga_id, t + 1),
                    first_volume_requests::<P>(manga_id, entry.volume_count)[t],
                )
            } else {
                first_volumes_state(entry, manga_id, t).next(Reply::Done) == Progress::<InitializeVolumes<P>, EntryOutcome<P, ()>, P>::Finished((entry, Ok(())))
            }
        }),
{
    reveal(first_volumes_state);
    let d = if entry.volume_count > 0 { entry.volume_count as int } else { 0 };
    let g = first_volume_requests::<P>(manga_id, entry.volume_count);
    if t == 0 {
        assert(g[0] == Action::<P>::PrepareVolumeInsert { or_ignore: false });
    } else if t <= d {
        assert(g[t] == Action::<P>::InsertEmptyVolume { manga_id, volume_number: t as i64, or_ignore: false });
    } else if t == d + 1 {
        assert(g[t] == Action::<P>::CommitTransaction);
    }
}

#[verifier::spinoff_prover]
proof fn lemma_first_volumes_prefix<P: Copy>(
    entry: MangaEntry<P>,
    manga_id: i64,
    states: Seq<InitializeVolumes<P>>,
    requests: Seq<Action<P>>,
    t: int,
)
    requires
        states.len() == requests.len() + 1,
        states[0] == (InitializeVolumes::Beginning { entry, manga_id }),
        forall|u: int| 0 <= u < requests.len() ==> (#[trigger] states[u]).next(Reply::Done) == Progress::<InitializeVolumes<P>, EntryOutcome<P, ()>, P>::Perform(states[u + 1], requests[u]),
        0 <= t <= requests.len(),
    ensures
        t <= (if entry.volume_count > 0 { entry.volume_count as int } else { 0 }) + 2,
        states[t] == first_volumes_state(entry, manga_id, t),
        forall|u: int| 0 <= u < t ==> requests[u] == first_volume_requests::<P>(manga_id, entry.volume_count)[u],
    decreases t,
{
    if t == 0 {
        reveal(first_volumes_state);
    } else {
        lemma_first_volumes_prefix(entry, manga_id, states, requests, t - 1);
        lemma_first_volumes_step(entry, manga_id, t - 1);
        assert(states[t - 1].next(Reply::Done) == Progress::<InitializeVolumes<P>, EntryOutcome<P, ()>, P>::Perform(states[t], requests[t - 1]));
    }
}

/// Adding the first volumes of a series with `count` volumes, once the transaction is open,
/// asks — when every request succeeds — for exactly: prepare the insert, insert volumes `1`
/// to `count` (none when `count` is below one), not owned, in order, commit; and then
/// succeeds with the entry unchanged.
#[verifier::spinoff_prover]
pub proof fn law_first_volume_requests<P: Copy>(
    entry: MangaEntry<P>,
    manga_id: i64,
    states: Seq<InitializeVolumes<P>>,
    requests: Seq<Action<P>>,
    end: EntryOutcome<P, ()>,
)
    requires
        states.len() == requests.len() + 1,
        states[0] == (InitializeVolumes::Beginning { entry, manga_id }),
        forall|u: int| 0 <= u < requests.len() ==> (#[trigger] states[u]).next(Reply::Done) == Progress::<InitializeVolumes<P>, EntryOutcome<P, ()>, P>::Perform(states[u + 1], requests[u]),
        states.last().next(Reply::Done) == Progress::<InitializeVolumes<P>, EntryOutcome<P, ()>, P>::Finished(end),
    ensures
        requests == first_volume_requests::<P>(manga_id, entry.volume_count),
        end.0 == entry,
        end.1 is Ok,
{
    let n = requests.len() as int;
    lemma_first_volumes_prefix(entry, manga_id, states, requests, n);
    lemma_first_volumes_step(entry, manga_id, n);
    let d = if entry.volume_count > 0 { entry.volume_count as int } else { 0 };
    assert(n == d + 2);
    assert(requests =~= first_volume_requests::<P>(manga_id, entry.volume_count));
}

/// The entry `e` is `orig` with its volume cache replaced, and perhaps an id learned.
pub open spec fn same_series<P>(e: MangaEntry<P>, orig: MangaEntry<P>) -> bool {
    &&& e.name == orig.name
    &&& e.volume_count == orig.volume_count
    &&& e.last_price == orig.last_price
    &&& e.cover_path == orig.cover_path
}

/// A `get_volume` for volume `volume_number` of `orig` stands at `s`: the cache is still
/// that of `orig`, and a volume is loaded only when none is cached under that number.
pub open spec fn get_volume_on_track<P>(orig: MangaEntry<P>, volume_number: i64, s: GetVolume<P>) -> bool {
    match s {
        GetVolume::FindingId { lookup, volume_number: n } => n == volume_number && lookup.entry == orig,
        GetVolume::Loading { entry, manga_id: _, volume_number: n } => n == volume_number && same_series(entry, orig)
            && entry.volumes@ == orig.volumes@ && !orig.volumes@.contains_key(volume_number),
    }
}

/// What a finished `get_volume` for volume `volume_number` of `orig` has done: the answer
/// is that number, under which a volume with that number is cached; the cache is the old
/// one, or the old one with that volume added under its number.
pub open spec fn get_volume_done<P>(orig: MangaEntry<P>, volume_number: i64, end: EntryOutcome<P, i64>) -> bool {
    let e = end.0;
    &&& same_series(e, orig)
    &&& keyed_by_number(e.volumes@)
    &&& (e.volumes@ == orig.volumes@ || (!orig.volumes@.contains_key(volume_number)
        && e.volumes@ == orig.volumes@.insert(volume_number, e.volumes@[volume_number])))
    &&& (end.1 matches Ok(n) ==> n == volume_number && e.volumes@.contains_key(n)
        && e.volumes@[n].volume_number == volume_number)
}

/// Each step of `get_volume` keeps it on track, and when it finishes it has done what
/// `get_volume_done` says: in particular every cached volume stays under its own number.
pub proof fn law_get_volume_step<P: Copy>(
    orig: MangaEntry<P>,
    volume_number: i64,
    s: GetVolume<P>,
    reply: Reply<P>,
    r: Progress<GetVolume<P>, EntryOutcome<P, i64>, P>,
)
    requires
        keyed_by_number(orig.volumes@),
        get_volume_on_track(orig, volume_number, s),
        s.next_is(reply, r),
    ensures
        match r {
            Progress::Perform(s2, _) => get_volume_on_track(orig, volume_number, s2),
            Progress::Finished(end) => get_volume_done(orig, volume_number, end),
        },
{
    if let GetVolume::Loading { entry, manga_id, volume_number: n } = s {
        if let Progress::Finished((e, Ok(_))) = r {
            assert forall|k: i64| #[trigger] e.volumes@.contains_key(k) implies e.volumes@[k].volume_number == k by {
                if k != volume_number {
                    assert(orig.volumes@.contains_key(k));
                }
            }
        }
    }
}

/// `get_volume` of volume `volume_number`, run to its end whatever the answers, answers
/// that number when it succeeds, and a volume with that number is cached under it;
/// the cache, whose volumes were each under their own number, still is so, and it is the
/// old cache, or the old cache with that one volume added. It asks the database at most
/// twice.
pub proof fn law_get_volume_run<P: Copy>(
    entry: MangaEntry<P>,
    volume_number: i64,
    states: Seq<GetVolume<P>>,
    requests: Seq<Action<P>>,
    replies: Seq<Reply<P>>,
    end: EntryOutcome<P, i64>,
)
    requires
        keyed_by_number(entry.volumes@),
        states.len() == requests.len(),
        states.len() == replies.len(),
        states.len() == 0 ==> entry.get_volume_first(volume_number) == Progress::<GetVolume<P>, EntryOutcome<P, i64>, P>::Finished(end),
        states.len() > 0 ==> entry.get_volume_first(volume_number) == Progress::<GetVolume<P>, EntryOutcome<P, i64>, P>::Perform(states[0], requests[0]),
        forall|u: int| 0 <= u < states.len() - 1 ==> (#[trigger] states[u]).next_is(replies[u], Progress::Perform(states[u + 1], requests[u + 1])),
        states.len() > 0 ==> states.last().next_is(replies.last(), Progress::Finished(end)),
    ensures
        get_volume_done(entry, volume_number, end),
        states.len() <= 2,
{
    let n = states.len();
    if n > 0 {
        lemma_get_volume_prefix(entry, volume_number, states, requests, replies, n - 1);
        law_get_volume_step(entry, volume_number, states[n - 1], replies[n - 1], Progress::Finished(end));
    }
}

proof fn lemma_get_volume_prefix<P: Copy>(
    entry: MangaEntry<P>,
    volume_number: i64,
    states: Seq<GetVolume<P>>,
    requests: Seq<Action<P>>,
    replies: Seq<Reply<P>>,
    t: int,
)
    requires
        keyed_by_number(entry.volumes@),
        states.len() == requests.len(),
        states.len() == replies.len(),
        0 <= t < states.len(),
        entry.get_volume_first(volume_number) == Progress::<GetVolume<P>, EntryOutcome<P, i64>, P>::Perform(states[0], requests[0]),
        forall|u: int| 0 <= u < states.len() - 1 ==> (#[trigger] states[u]).next_is(replies[u], Progress::Perform(states[u + 1], requests[u + 1])),
    ensures
        get_volume_on_track(entry, volume_number, states[t]),
        t <= 1,
        t == 1 ==> states[t] is Loading,
    decreases t,
{
    if t > 0 {
        lemma_get_volume_prefix(entry, volume_number, states, requests, replies, t - 1);
        assert(states[t - 1].next_is(replies[t - 1], Progress::Perform(states[t], requests[t])));
        law_get_volume_step(entry, volume_number, states[t - 1], replies[t - 1], Progress::Perform(states[t], requests[t]));
    }
}

/// `e` is `orig`, an id perhaps learned, with the same count and volume cache.
pub open spec fn unchanged_entry<P>(e: MangaEntry<P>, orig: MangaEntry<P>) -> bool {
    same_series(e, orig) && e.volumes@ == orig.volumes@
}

/// A change of the volume count of `orig` to `new_count` (a count it does not have, at
/// least one) stands at `s`: the entry it carries is still `orig`.
pub open spec fn count_change_on_track<P>(orig: MangaEntry<P>, new_count: i64, s: SetVolumeCount<P>) -> bool {
    &&& new_count >= 1 && new_count != orig.volume_count
    &&& match s {
        SetVolumeCount::FindingId { lookup, new_count: c } => c == new_count && lookup.entry == orig,
        SetVolumeCount::Beginning { entry, manga_id: _, new_count: c } => c == new_count && unchanged_entry(entry, orig),
        SetVolumeCount::Preparing { entry, manga_id: _, new_count: c } => c == new_count && unchanged_entry(entry, orig),
        SetVolumeCount::Inserting { entry, manga_id: _, new_count: c, volume_number: _ } => c == new_count && unchanged_entry(entry, orig),
        SetVolumeCount::Deleting { entry, manga_id: _, new_count: c } => c == new_count && unchanged_entry(entry, orig),
        SetVolumeCount::Recording { entry, manga_id: _, new_count: c } => c == new_count && unchanged_entry(entry, orig),
        SetVolumeCount::Committing { entry, new_count: c } => c == new_count && unchanged_entry(entry, orig),
        SetVolumeCount::RollingBack { entry, error: _ } => unchanged_entry(entry, orig),
    }
}

/// What a finished `set_volume_count(new_count)` on `orig` has done to the entry: on
/// failure nothing (but perhaps learn the id); on success, a count it does not have and at
/// least one is taken, and when lowered the cached volumes above it are dropped. A cache
/// whose volumes are each under their own number stays so.
pub open spec fn count_change_done<P>(orig: MangaEntry<P>, new_count: i64, end: EntryOutcome<P, ()>) -> bool {
    let e = end.0;
    &&& e.name == orig.name && e.last_price == orig.last_price && e.cover_path == orig.cover_path
    &&& keyed_by_number(orig.volumes@) ==> keyed_by_number(e.volumes@)
    &&& end.1 is Err ==> unchanged_entry(e, orig)
    &&& end.1 is Ok ==> if new_count == orig.volume_count || new_count < 1 {
        unchanged_entry(e, orig)
    } else {
        e.volume_count == new_count && e.volumes@ == if new_count < orig.volume_count {
            volumes_up_to(orig.volumes@, new_count)
        } else {
            orig.volumes@
        }
    }
}

/// Each step of a volume count change keeps it on track, and when it finishes it has
/// done what `count_change_done` says; a failed commit, in particular, leaves the entry as
/// it was and asks for the transaction to be rolled back.
pub proof fn law_count_change_step<P: Copy>(
    orig: MangaEntry<P>,
    new_count: i64,
    s: SetVolumeCount<P>,
    reply: Reply<P>,
    r: Progress<SetVolumeCount<P>, EntryOutcome<P, ()>, P>,
)
    requires
        count_change_on_track(orig, new_count, s),
        s.next_is(reply, r),
    ensures
        match r {
            Progress::Perform(s2, _) => count_change_on_track(orig, new_count, s2),
            Progress::Finished(end) => count_change_done(orig, new_count, end),
        },
        s is Committing && !(reply is Done) ==> r matches Progress::Perform(SetVolumeCount::RollingBack { .. }, Action::RollbackTransaction),
{
}

/// `set_volume_count(new_count)`, run to its end whatever the answers: on failure the entry
/// keeps its count and its cache (a failed commit included, which is rolled back); on
/// success it has the new count (when that is at least one and differs) and, when lowered,
/// has dropped the cached volumes above it. A cache whose volumes are each under their own
/// number stays so.
pub proof fn law_count_change_run<P: Copy>(
    entry: MangaEntry<P>,
    new_count: i64,
    states: Seq<SetVolumeCount<P>>,
    requests: Seq<Action<P>>,
    replies: Seq<Reply<P>>,
    end: EntryOutcome<P, ()>,
)
    requires
        states.len() == requests.len(),
        states.len() == replies.len(),
        states.len() == 0 ==> entry.set_volume_count_first(new_count) == Progress::<SetVolumeCount<P>, EntryOutcome<P, ()>, P>::Finished(end),
        states.len() > 0 ==> entry.set_volume_count_first(new_count) == Progress::<SetVolumeCount<P>, EntryOutcome<P, ()>, P>::Perform(states[0], requests[0]),
        forall|u: int| 0 <= u < states.len() - 1 ==> (#[trigger] states[u]).next_is(replies[u], Progress::Perform(states[u + 1], requests[u + 1])),
        states.len() > 0 ==> states.last().next_is(replies.last(), Progress::Finished(end)),
    ensures
        count_change_done(entry, new_count, end),
{
    let n = states.len();
    if n > 0 {
        lemma_count_change_prefix(entry, new_count, states, requests, replies, n - 1);
        law_count_change_step(entry, new_count, states[n - 1], replies[n - 1], Progress::Finished(end));
    }
}

proof fn lemma_count_change_prefix<P: Copy>(
    entry: MangaEntry<P>,
    new_count: i64,
    states: Seq<SetVolumeCount<P>>,
    requests: Seq<Action<P>>,
    replies: Seq<Reply<P>>,
    t: int,
)
    requires
        states.len() == requests.len(),
        states.len() == replies.len(),
        0 <= t < states.len(),
        entry.set_volume_count_first(new_count) == Progress::<SetVolumeCount<P>, EntryOutcome<P, ()>, P>::Perform(states[0], requests[0]),
        forall|u: int| 0 <= u < states.len() - 1 ==> (#[trigger] states[u]).next_is(replies[u], Progress::Perform(states[u + 1], requests[u + 1])),
    ensures
        count_change_on_track(entry, new_count, states[t]),
    decreases t,
{
    if t > 0 {
        lemma_count_change_prefix(entry, new_count, states, requests, replies, t - 1);
        assert(states[t - 1].next_is(replies[t - 1], Progress::Perform(states[t], requests[t])));
        law_count_change_step(entry, new_count, states[t - 1], replies[t - 1], Progress::Perform(states[t], requests[t]));
    }
}

/// `save`, run to its end whatever the answers, asks first whether a row with the series'
/// name exists; then it overwrites that row when one was found, adds one when none was,
/// and reports a failed check without writing (and succeeds). It asks at most twice,
/// never changes the entry, and succeeds after a write exactly when the write succeeded.
pub proof fn law_save_run<P: Copy>(
    entry: MangaEntry<P>,
    states: Seq<Save<P>>,
    requests: Seq<Action<P>>,
    replies: Seq<Reply<P>>,
    end: EntryOutcome<P, ()>,
)
    requires
        states.len() == requests.len(),
        states.len() == replies.len(),
        states.len() > 0,
        entry.save_first() == Progress::<Save<P>, EntryOutcome<P, ()>, P>::Perform(states[0], requests[0]),
        forall|u: int| 0 <= u < states.len() - 1 ==> (#[trigger] states[u]).next(replies[u]) == Progress::<Save<P>, EntryOutcome<P, ()>, P>::Perform(states[u + 1], requests[u + 1]),
        states.last().next(replies.last()) == Progress::<Save<P>, EntryOutcome<P, ()>, P>::Finished(end),
    ensures
        requests[0] == (Action::<P>::CheckMangaStored { name: entry.name }),
        end.0 == entry,
        match replies[0] {
            Reply::Found => states.len() == 2 && requests[1] == manga_write(entry, true) && (end.1 is Ok <==> replies[1] is Done),
            Reply::Failed(DbError::QueryReturnedNoRows) => states.len() == 2 && requests[1] == manga_write(entry, false)
                && (end.1 is Ok <==> replies[1] is Done),
            Reply::Failed(e) => states.len() == 2 && requests[1] == (Action::<P>::ReportError { error: e }) && end.1 is Ok,
            _ => states.len() == 1 && end.1 == Err::<(), DbError>(DbError::UnexpectedReply),
        },
{
    let n = states.len();
    if n >= 2 {
        assert(states[0].next(replies[0]) == Progress::<Save<P>, EntryOutcome<P, ()>, P>::Perform(states[1], requests[1]));
    }
    if n >= 3 {
        assert(states[1].next(replies[1]) == Progress::<Save<P>, EntryOutcome<P, ()>, P>::Perform(states[2], requests[2]));
    }
}

/// `store`, run to its end whatever the answers: a volume known to be stored skips the
/// existence check and overwrites its row; otherwise its row is looked for, then
/// overwritten when found and added when not, and from then on the volume is known to be
/// stored. A failed check ends it without writing. It asks at most twice, never changes the
/// volume's ownership, number, series or price, and succeeds, with `true`, exactly when
/// the write succeeded.
pub proof fn law_store_run<P: Copy>(
    volume: MangaVolume<P>,
    states: Seq<Store<P>>,
    requests: Seq<Action<P>>,
    replies: Seq<Reply<P>>,
    end: VolumeOutcome<P, bool>,
)
    requires
        states.len() == requests.len(),
        states.len() == replies.len(),
        states.len() > 0,
        volume.store_first() == Progress::<Store<P>, VolumeOutcome<P, bool>, P>::Perform(states[0], requests[0]),
        forall|u: int| 0 <= u < states.len() - 1 ==> (#[trigger] states[u]).next(replies[u]) == Progress::<Store<P>, VolumeOutcome<P, bool>, P>::Perform(states[u + 1], requests[u + 1]),
        states.last().next(replies.last()) == Progress::<Store<P>, VolumeOutcome<P, bool>, P>::Finished(end),
    ensures
        same_volume(end.0, volume),
        end.1 is Ok ==> end.1 == Ok::<bool, DbError>(true),
        if volume.stored_state {
            requests[0] == Action::<P>::ReportSkippedCheck && states.len() == 2 && requests[1] == volume_write(volume, true)
                && end.0 == volume && (end.1 is Ok <==> replies[1] is Done)
        } else {
            requests[0] == (Action::<P>::CheckVolumeStored { manga_id: volume.manga_id, volume_number: volume.volume_number })
            && match replies[0] {
                Reply::Found => states.len() == 2 && requests[1] == volume_write(volume.marked_stored(), true)
                    && end.0 == volume.marked_stored() && (end.1 is Ok <==> replies[1] is Done),
                Reply::Failed(DbError::QueryReturnedNoRows) => states.len() == 2 && requests[1] == volume_write(volume.marked_stored(), false)
                    && end.0 == volume.marked_stored() && (end.1 is Ok <==> replies[1] is Done),
                _ => states.len() == 1 && end.0 == volume && end.1 is Err,
            }
        },
{
    let n = states.len();
    if n >= 2 {
        assert(states[0].next(replies[0]) == Progress::<Store<P>, VolumeOutcome<P, bool>, P>::Perform(states[1], requests[1]));
    }
    if n >= 3 {
        assert(states[1].next(replies[1]) == Progress::<Store<P>, VolumeOutcome<P, bool>, P>::Perform(states[2], requests[2]));
    }
}

/// The entry the addition of the first volumes is working on.
pub open spec fn volumes_entry<P>(s: InitializeVolumes<P>) -> MangaEntry<P> {
    match s {
        InitializeVolumes::FindingId { lookup } => lookup.entry,
        InitializeVolumes::Counting { check, manga_id: _ } => check.entry,
        InitializeVolumes::Beginning { entry, manga_id: _ } => entry,
        InitializeVolumes::Preparing { entry, manga_id: _ } => entry,
        InitializeVolumes::Inserting { entry, manga_id: _, volume_number: _ } => entry,
        InitializeVolumes::Committing { entry } => entry,
        InitializeVolumes::RollingBack { entry, error: _ } => entry,
    }
}

/// The entry `save` is working on.
pub open spec fn save_entry<P>(s: Save<P>) -> MangaEntry<P> {
    match s {
        Save::Checking { entry } => entry,
        Save::Writing { entry } => entry,
        Save::Reporting { entry } => entry,
    }
}

pub proof fn lemma_volumes_keep_entry<P: Copy>(s: InitializeVolumes<P>, reply: Reply<P>)
    ensures
        match s.next(reply) {
            Progress::Perform(s2, _) => unchanged_entry(volumes_entry(s2), volumes_entry(s)),
            Progress::Finished(end) => unchanged_entry(end.0, volumes_entry(s)),
        },
{
}

/// `init` of `orig`, while the cover folder holds the files `present` says, stands at `s`
/// with request `a` pending: the entry is still `orig`, a cover search is on track, and a
/// cover is written only once picked, and it is the one the search picks.
pub open spec fn init_on_track<P>(orig: MangaEntry<P>, present: spec_fn(Seq<char>) -> bool, s: Init<P>, a: Action<P>) -> bool {
    match s {
        Init::Saving { save } => save_entry(save) == orig && !(a is UpdateMangaCover),
        Init::InitializingVolumes { volumes } => unchanged_entry(volumes_entry(volumes), orig) && !(a is UpdateMangaCover),
        Init::FindingId { lookup } => unchanged_entry(lookup.entry, orig) && !(a is UpdateMangaCover),
        Init::FindingCover { entry, find } => unchanged_entry(entry, orig)
            && cover_search_on_track(orig.name@, present, Progress::Perform(find, a)),
        Init::SettingCover { cover } => unchanged_entry(cover.entry, orig)
            && (a matches Action::UpdateMangaCover { id, new_path } && id == cover.entry.id
            && cover_choice(orig.name@, present) == Some(new_path@)),
    }
}

/// The answer to request `a` is faithful to the cover folder `present` when `a` asks
/// about a cover file.
pub open spec fn faithful_answer<P>(present: spec_fn(Seq<char>) -> bool, a: Action<P>, reply: Reply<P>) -> bool {
    a is CheckCoverFile ==> reply == Reply::<P>::Exists(present(checked_file(a)))
}

/// Each step of `init` keeps it on track; it succeeds only after writing the cover the
/// search picked, or after a search that found none.
pub proof fn law_init_step<P: Copy>(
    orig: MangaEntry<P>,
    present: spec_fn(Seq<char>) -> bool,
    s: Init<P>,
    a: Action<P>,
    reply: Reply<P>,
    r: Progress<Init<P>, EntryOutcome<P, ()>, P>,
)
    requires
        init_on_track(orig, present, s, a),
        faithful_answer(present, a, reply),
        s.next_is(reply, r),
    ensures
        match r {
            Progress::Perform(s2, a2) => init_on_track(orig, present, s2, a2),
            Progress::Finished(end) => unchanged_entry(end.0, orig) && (end.1 is Ok ==> match cover_choice(orig.name@, present) {
                Some(c) => a matches Action::UpdateMangaCover { id, new_path } && new_path@ == c && id == end.0.id,
                None => a is CheckCoverFile,
            }),
        },
{
    match s {
        Init::Saving { save } => {
            if let Progress::Perform(Init::FindingCover { entry: _, find }, a2) = r {
                lemma_cover_search_start(orig.name@, present, find, a2);
            }
        },
        Init::InitializingVolumes { volumes } => {
            lemma_volumes_keep_entry(volumes, reply);
            if let Progress::Perform(Init::FindingCover { entry: _, find }, a2) = r {
                lemma_cover_search_start(orig.name@, present, find, a2);
            }
        },
        Init::FindingId { lookup } => {
            if let Progress::Perform(Init::FindingCover { entry: _, find }, a2) = r {
                lemma_cover_search_start(orig.name@, present, find, a2);
            }
        },
        Init::FindingCover { entry, find } => {
            match r {
                Progress::Perform(Init::FindingCover { entry: e, find: f }, a2) => {
                    law_cover_search_step(orig.name@, present, find, a, Progress::Perform(f, a2));
                },
                Progress::Perform(Init::SettingCover { cover }, Action::UpdateMangaCover { id, new_path }) => {
                    law_cover_search_step(orig.name@, present, find, a, Progress::<FindCover, Option<String>, P>::Finished(Some(new_path)));
                },
                Progress::Finished(out) => {
                    law_cover_search_step(orig.name@, present, find, a, Progress::<FindCover, Option<String>, P>::Finished(None));
                },
                _ => {},
            }
        },
        Init::SettingCover { cover } => {},
    }
}

pub proof fn lemma_cover_search_start<P>(name: Seq<char>, present: spec_fn(Seq<char>) -> bool, find: FindCover, a: Action<P>)
    requires
        FindCover::tries_is(cover_slug(name), 0, Progress::Perform(find, a)),
    ensures
        cover_search_on_track(name, present, Progress::Perform(find, a)),
{
}

/// `init` of a series, run to its end while the cover folder holds the files `present`
/// says (whatever the database answers), never changes the entry but to learn its id; when
/// it succeeds, its last request wrote the cover the search picks — the first of the
/// series' candidate file names that is present — to the series' row, or, with no
/// candidate present, was the check of the last candidate, and no cover was written.
pub proof fn law_init_run<P: Copy>(
    entry: MangaEntry<P>,
    present: spec_fn(Seq<char>) -> bool,
    states: Seq<Init<P>>,
    requests: Seq<Action<P>>,
    replies: Seq<Reply<P>>,
    end: EntryOutcome<P, ()>,
)
    requires
        states.len() == requests.len(),
        states.len() == replies.len(),
        states.len() > 0,
        entry.init_first() == Progress::<Init<P>, EntryOutcome<P, ()>, P>::Perform(states[0], requests[0]),
        forall|u: int| 0 <= u < states.len() ==> #[trigger] faithful_answer(present, requests[u], replies[u]),
        forall|u: int| 0 <= u < states.len() - 1 ==> (#[trigger] states[u]).next_is(replies[u], Progress::Perform(states[u + 1], requests[u + 1])),
        states.last().next_is(replies.last(), Progress::Finished(end)),
    ensures
        unchanged_entry(end.0, entry),
        end.1 is Ok ==> match cover_choice(entry.name@, present) {
            Some(c) => requests.last() matches Action::UpdateMangaCover { id, new_path } && new_path@ == c && id == end.0.id,
            None => requests.last() is CheckCoverFile,
        },
        forall|u: int| 0 <= u < requests.len() && (#[trigger] requests[u]) is UpdateMangaCover ==> (requests[u] matches Action::UpdateMangaCover { id: _, new_path }
            && cover_choice(entry.name@, present) == Some(new_path@)),
{
    let n = states.len();
    assert forall|u: int| 0 <= u < requests.len() && (#[trigger] requests[u]) is UpdateMangaCover implies (requests[u] matches Action::UpdateMangaCover { id: _, new_path }
        && cover_choice(entry.name@, present) == Some(new_path@)) by {
        lemma_init_prefix(entry, present, states, requests, replies, u);
    }
    lemma_init_prefix(entry, present, states, requests, replies, n - 1);
    assert(faithful_answer(present, requests[n - 1], replies[n - 1]));
    law_init_step(entry, present, states[n - 1], requests[n - 1], replies[n - 1], Progress::Finished(end));
}

proof fn lemma_init_prefix<P: Copy>(
    entry: MangaEntry<P>,
    present: spec_fn(Seq<char>) -> bool,
    states: Seq<Init<P>>,
    requests: Seq<Action<P>>,
    replies: Seq<Reply<P>>,
    t: int,
)
    requires
        states.len() == requests.len(),
        states.len() == replies.len(),
        0 <= t < states.len(),
        entry.init_first() == Progress::<Init<P>, EntryOutcome<P, ()>, P>::Perform(states[0], requests[0]),
        forall|u: int| 0 <= u < states.len() ==> #[trigger] faithful_answer(present, requests[u], replies[u]),
        forall|u: int| 0 <= u < states.len() - 1 ==> (#[trigger] states[u]).next_is(replies[u], Progress::Perform(states[u + 1], requests[u + 1])),
    ensures
        init_on_track(entry, present, states[t], requests[t]),
        requests[t] is UpdateMangaCover ==> states[t] is SettingCover,
    decreases t,
{
    if t > 0 {
        lemma_init_prefix(entry, present, states, requests, replies, t - 1);
        assert(faithful_answer(present, requests[t - 1], replies[t - 1]));
        assert(states[t - 1].next_is(replies[t - 1], Progress::Perform(states[t], requests[t])));
        law_init_step(entry, present, states[t - 1], requests[t - 1], replies[t - 1], Progress::Perform(states[t], requests[t]));
    }
}

proof fn lemma_same_case_swap(x: Seq<char>, a: Seq<char>, b: Seq<char>)
    requires
        same_ignoring_ascii_case(a, b),
    ensures
        same_ignoring_ascii_case(x, a) == same_ignoring_ascii_case(x, b),
{
    if same_ignoring_ascii_case(x, a) {
        assert forall|i: int| 0 <= i < x.len() implies #[trigger] ascii_folded(x[i]) == ascii_folded(b[i]) by {
            assert(ascii_folded(x[i]) == ascii_folded(a[i]));
            assert(ascii_folded(a[i]) == ascii_folded(b[i]));
        }
    }
    if same_ignoring_ascii_case(x, b) {
        assert forall|i: int| 0 <= i < x.len() implies #[trigger] ascii_folded(x[i]) == ascii_folded(a[i]) by {
            assert(ascii_folded(x[i]) == ascii_folded(b[i]));
            assert(ascii_folded(a[i]) == ascii_folded(b[i]));
        }
    }
}

proof fn lemma_titles_same_for_equal_names(titles: Seq<(Seq<char>, Seq<char>)>, a: Seq<char>, b: Seq<char>)
    requires
        same_ignoring_ascii_case(a, b),
    ensures
        has_exact_title(titles, a) == has_exact_title(titles, b),
        has_title_word(titles, a) == has_title_word(titles, b),
{
    assert forall|i: int| 0 <= i < titles.len() implies
        same_ignoring_ascii_case(trimmed(#[trigger] titles[i].1), a) == same_ignoring_ascii_case(trimmed(titles[i].1), b) by {
        lemma_same_case_swap(trimmed(titles[i].1), a, b);
    }
    assert forall|i: int| 0 <= i < titles.len() implies has_word(#[trigger] titles[i].1, a) == has_word(titles[i].1, b) by {
        let s = titles[i].1;
        assert forall|p: int, q: int| #[trigger] is_piece(s, p, q) implies
            same_ignoring_ascii_case(s.subrange(p, q), a) == same_ignoring_ascii_case(s.subrange(p, q), b) by {
            lemma_same_case_swap(s.subrange(p, q), a, b);
        }
    }
}

proof fn lemma_matches_same_for_equal_names(m: MangaData, a: Seq<char>, b: Seq<char>)
    requires
        same_ignoring_ascii_case(a, b),
    ensures
        matches_exactly(m, a) == matches_exactly(m, b),
        matches_by_word(m, a) == matches_by_word(m, b),
{
    reveal(matches_exactly);
    reveal(matches_by_word);
    lemma_titles_same_for_equal_names(m.attributes.title.deep_view(), a, b);
    assert forall|j: int| 0 <= j < m.attributes.alt_titles@.len() implies
        has_exact_title(#[trigger] m.attributes.alt_titles.deep_view()[j], a) == has_exact_title(m.attributes.alt_titles.deep_view()[j], b)
        && has_title_word(m.attributes.alt_titles.deep_view()[j], a) == has_title_word(m.attributes.alt_titles.deep_view()[j], b) by {
        lemma_titles_same_for_equal_names(m.attributes.alt_titles.deep_view()[j], a, b);
    }
}

/// Two names that are equal once trimmed, up to the case of ASCII letters, get the same
/// cover URL from the same search results.
pub proof fn law_equal_names_same_cover_url(data: Seq<MangaData>, a: Seq<char>, b: Seq<char>)
    requires
        same_ignoring_ascii_case(trimmed(a), trimmed(b)),
    ensures
        cover_url(data, trimmed(a)) == cover_url(data, trimmed(b)),
{
    let ta = trimmed(a);
    let tb = trimmed(b);
    assert forall|i: int| 0 <= i < data.len() implies matches_exactly(#[trigger] data[i], ta) == matches_exactly(data[i], tb)
        && matches_by_word(data[i], ta) == matches_by_word(data[i], tb) by {
        lemma_matches_same_for_equal_names(data[i], ta, tb);
    }
    if let (Some(i), Some(j)) = (chosen_manga(data, ta), chosen_manga(data, tb)) {
        if exists|k: int| 0 <= k < data.len() && matches_exactly(#[trigger] data[k], ta) {
            let k = choose|k: int| 0 <= k < data.len() && matches_exactly(#[trigger] data[k], ta);
            lemma_first_exact(data, ta, k);
            assert(matches_exactly(data[k], tb));
            lemma_first_exact(data, tb, k);
            if i < j {
                assert(matches_exactly(data[i], tb));
            } else if j < i {
                assert(matches_exactly(data[j], ta));
            }
        } else {
            assert(!exists|k: int| 0 <= k < data.len() && matches_exactly(#[trigger] data[k], tb)) by {
                if exists|k: int| 0 <= k < data.len() && matches_exactly(#[trigger] data[k], tb) {
                    let k = choose|k: int| 0 <= k < data.len() && matches_exactly(#[trigger] data[k], tb);
                    assert(matches_exactly(data[k], ta));
                }
            }
            let k = choose|k: int| 0 <= k < data.len() && matches_by_word(#[trigger] data[k], ta);
            lemma_first_word(data, ta, k);
            assert(matches_by_word(data[k], tb));
            lemma_first_word(data, tb, k);
            if i < j {
                assert(matches_by_word(data[i], tb));
            } else if j < i {
                assert(matches_by_word(data[j], ta));
            }
        }
    } else {
        if exists|k: int| 0 <= k < data.len() && matches_exactly(#[trigger] data[k], ta) {
            let k = choose|k: int| 0 <= k < data.len() && matches_exactly(#[trigger] data[k], ta);
            lemma_first_exact(data, ta, k);
            assert(matches_exactly(data[k], tb));
            lemma_first_exact(data, tb, k);
        }
        if exists|k: int| 0 <= k < data.len() && matches_exactly(#[trigger] data[k], tb) {
            let k = choose|k: int| 0 <= k < data.len() && matches_exactly(#[trigger] data[k], tb);
            lemma_first_exact(data, tb, k);
            assert(matches_exactly(data[k], ta));
            lemma_first_exact(data, ta, k);
        }
        if exists|k: int| 0 <= k < data.len() && matches_by_word(#[trigger] data[k], ta) {
            let k = choose|k: int| 0 <= k < data.len() && matches_by_word(#[trigger] data[k], ta);
            lemma_first_word(data, ta, k);
            assert(matches_by_word(data[k], tb));
            lemma_first_word(data, tb, k);
        }
        if exists|k: int| 0 <= k < data.len() && matches_by_word(#[trigger] data[k], tb) {
            let k = choose|k: int| 0 <= k < data.len() && matches_by_word(#[trigger] data[k], tb);
            lemma_first_word(data, tb, k);
            assert(matches_by_word(data[k], ta));
            lemma_first_word(data, ta, k);
        }
    }
}

proof fn lemma_first_word(data: Seq<MangaData>, target: Seq<char>, i: int)
    requires
        0 <= i < data.len(),
        matches_by_word(data[i], target),
    ensures
        exists|k: int| 0 <= k <= i && matches_by_word(#[trigger] data[k], target)
            && forall|m: int| 0 <= m < k ==> !matches_by_word(#[trigger] data[m], target),
    decreases i,
{
    if exists|m: int| 0 <= m < i && matches_by_word(#[trigger] data[m], target) {
        let m = choose|m: int| 0 <= m < i && matches_by_word(#[trigger] data[m], target);
        lemma_first_word(data, target, m);
    } else {
        assert(forall|m: int| 0 <= m < i ==> !matches_by_word(#[trigger] data[m], target));
    }
}

/// Once `set_owned(state)` on a cached volume has succeeded, the cache holds that volume
/// in `state`, and a later `get_volume` of its number (the id known) answers it from the
/// cache without asking the database.
pub proof fn law_owned_state_seen_again<P: Copy>(
    s: SetCachedOwned<P>,
    state: bool,
    reply: Reply<P>,
    r: Progress<SetCachedOwned<P>, EntryOutcome<P, ()>, P>,
)
    requires
        stored_volume(s.owned.store).owned == state,
        s.entry.id > 0,
        s.next_is(reply, r),
    ensures
        r matches Progress::Finished((e, Ok(()))) ==> e.volumes@[s.volume_number].owned == state
            && e.get_volume_first(s.volume_number) == Progress::<GetVolume<P>, EntryOutcome<P, i64>, P>::Finished((e, Ok(s.volume_number))),
{
    law_set_owned_settles(s.owned, state, reply);
}

/// `update_metadata(new_count, price)` of `orig` stands at `s` with request `a` pending: first
/// the new price is written to the rows with the series' name, then the volume count of
/// the entry, which already carries the new price, is changed.
pub open spec fn metadata_on_track<P>(orig: MangaEntry<P>, new_count: i64, price: P, s: UpdateMetadata<P>, a: Action<P>) -> bool {
    let priced = MangaEntry { last_price: price, ..orig };
    match s {
        UpdateMetadata::UpdatingPrice { entry, new_count: c } => entry == priced && c == new_count
            && a == (Action::<P>::UpdateMangaPrice { name: orig.name, last_price: price }),
        UpdateMetadata::SettingCount { count } => count_change_on_track(priced, new_count, count),
    }
}

/// What a finished `update_metadata(new_count, price)` of `orig` has done to the entry: it
/// carries the new price (written first); on success it has the new count when that is at
/// least one, and a lowered count has dropped the cached volumes above it; on failure its
/// count and cache are as they were.
pub open spec fn metadata_done<P>(orig: MangaEntry<P>, new_count: i64, price: P, end: EntryOutcome<P, ()>) -> bool {
    let e = end.0;
    &&& e.name == orig.name && e.cover_path == orig.cover_path && e.last_price == price
    &&& end.1 is Err ==> e.volume_count == orig.volume_count && e.volumes@ == orig.volumes@
    &&& end.1 is Ok ==> e.volume_count == (if new_count >= 1 { new_count } else { orig.volume_count })
        && e.volumes@ == (if 1 <= new_count < orig.volume_count { volumes_up_to(orig.volumes@, new_count) } else { orig.volumes@ })
}

pub proof fn lemma_count_change_start<P: Copy>(orig: MangaEntry<P>, new_count: i64)
    ensures
        match orig.set_volume_count_first(new_count) {
            Progress::Perform(s, _) => count_change_on_track(orig, new_count, s),
            Progress::Finished(end) => end == (orig, Ok::<(), DbError>(())),
        },
{
}

/// Each step of `update_metadata` keeps it on track, and when it finishes it has done what
/// `metadata_done` says.
pub proof fn law_metadata_step<P: Copy>(
    orig: MangaEntry<P>,
    new_count: i64,
    price: P,
    s: UpdateMetadata<P>,
    a: Action<P>,
    reply: Reply<P>,
    r: Progress<UpdateMetadata<P>, EntryOutcome<P, ()>, P>,
)
    requires
        metadata_on_track(orig, new_count, price, s, a),
        s.next_is(reply, r),
    ensures
        match r {
            Progress::Perform(s2, a2) => metadata_on_track(orig, new_count, price, s2, a2),
            Progress::Finished(end) => metadata_done(orig, new_count, price, end),
        },
{
    let priced = MangaEntry { last_price: price, ..orig };
    match s {
        UpdateMetadata::UpdatingPrice { entry, new_count: c } => {
            lemma_count_change_start(priced, new_count);
        },
        UpdateMetadata::SettingCount { count } => {
            match r {
                Progress::Perform(UpdateMetadata::SettingCount { count: c2 }, a2) => {
                    law_count_change_step(priced, new_count, count, reply, Progress::Perform(c2, a2));
                },
                Progress::Finished(out) => {
                    law_count_change_step(priced, new_count, count, reply, Progress::Finished(out));
                },
                _ => {},
            }
        },
    }
}

/// `update_metadata(new_count, price)`, run to its end whatever the answers, first writes
/// the new price to the rows with the series' name, and the entry then carries the new
/// price. When it succeeds the entry has the new count — any count of at least one, lower
/// ones included — and a lowered count has dropped the cached volumes above it; a count
/// below one leaves the count as it was. When it fails the count and cache are as they were.
pub proof fn law_update_metadata_run<P: Copy>(
    entry: MangaEntry<P>,
    new_count: i64,
    price: P,
    states: Seq<UpdateMetadata<P>>,
    requests: Seq<Action<P>>,
    replies: Seq<Reply<P>>,
    end: EntryOutcome<P, ()>,
)
    requires
        states.len() == requests.len(),
        states.len() == replies.len(),
        states.len() > 0,
        entry.update_metadata_first(new_count, price) == Progress::<UpdateMetadata<P>, EntryOutcome<P, ()>, P>::Perform(states[0], requests[0]),
        forall|u: int| 0 <= u < states.len() - 1 ==> (#[trigger] states[u]).next_is(replies[u], Progress::Perform(states[u + 1], requests[u + 1])),
        states.last().next_is(replies.last(), Progress::Finished(end)),
    ensures
        requests[0] == (Action::<P>::UpdateMangaPrice { name: entry.name, last_price: price }),
        metadata_done(entry, new_count, price, end),
{
    let n = states.len() - 1;
    lemma_metadata_prefix(entry, new_count, price, states, requests, replies, n);
    lemma_metadata_prefix(entry, new_count, price, states, requests, replies, 0);
    law_metadata_step(entry, new_count, price, states[n], requests[n], replies[n], Progress::Finished(end));
}

proof fn lemma_metadata_prefix<P: Copy>(
    entry: MangaEntry<P>,
    new_count: i64,
    price: P,
    states: Seq<UpdateMetadata<P>>,
    requests: Seq<Action<P>>,
    replies: Seq<Reply<P>>,
    t: int,
)
    requires
        states.len() == requests.len(),
        states.len() == replies.len(),
        0 <= t < states.len(),
        entry.update_metadata_first(new_count, price) == Progress::<UpdateMetadata<P>, EntryOutcome<P, ()>, P>::Perform(states[0], requests[0]),
        forall|u: int| 0 <= u < states.len() - 1 ==> (#[trigger] states[u]).next_is(replies[u], Progress::Perform(states[u + 1], requests[u + 1])),
    ensures
        metadata_on_track(entry, new_count, price, states[t], requests[t]),
    decreases t,
{
    if t > 0 {
        lemma_metadata_prefix(entry, new_count, price, states, requests, replies, t - 1);
        assert(states[t - 1].next_is(replies[t - 1], Progress::Perform(states[t], requests[t])));
        law_metadata_step(entry, new_count, price, states[t - 1], requests[t - 1], replies[t - 1], Progress::Perform(states[t], requests[t]));
    }
}

/// If request `a` writes a volume row, it writes the row of `v`'s series and number with
/// `v`'s ownership and price.
pub open spec fn writes_volume_as<P>(a: Action<P>, v: MangaVolume<P>) -> bool {
    match a {
        Action::UpdateVolume { manga_id, volume_number, owned, bought_price } => manga_id == v.manga_id
            && volume_number == v.volume_number && owned == v.owned && bought_price == v.bought_price,
        Action::InsertVolume { manga_id, volume_number, owned, bought_price } => manga_id == v.manga_id
            && volume_number == v.volume_number && owned == v.owned && bought_price == v.bought_price,
        _ => true,
    }
}

/// `store` of a volume, run to its end whatever the answers, writes only that volume's own
/// row, with the volume's own ownership and price; when it succeeds its last request was
/// that write.
pub proof fn law_store_writes_own_state<P: Copy>(
    volume: MangaVolume<P>,
    states: Seq<Store<P>>,
    requests: Seq<Action<P>>,
    replies: Seq<Reply<P>>,
    end: VolumeOutcome<P, bool>,
)
    requires
        states.len() == requests.len(),
        states.len() == replies.len(),
        states.len() > 0,
        volume.store_first() == Progress::<Store<P>, VolumeOutcome<P, bool>, P>::Perform(states[0], requests[0]),
        forall|u: int| 0 <= u < states.len() - 1 ==> (#[trigger] states[u]).next(replies[u]) == Progress::<Store<P>, VolumeOutcome<P, bool>, P>::Perform(states[u + 1], requests[u + 1]),
        states.last().next(replies.last()) == Progress::<Store<P>, VolumeOutcome<P, bool>, P>::Finished(end),
    ensures
        forall|u: int| 0 <= u < requests.len() ==> #[trigger] writes_volume_as(requests[u], volume),
        end.1 is Ok ==> requests.last() is UpdateVolume || requests.last() is InsertVolume,
{
    law_store_run(volume, states, requests, replies, end);
}

/// `set_owned(state)` of a volume stands at `s` with request `a` pending: it is storing the
/// volume with `state`, and a write carries that.
pub open spec fn set_owned_on_track<P>(v: MangaVolume<P>, state: bool, s: SetOwned<P>, a: Action<P>) -> bool {
    let w = MangaVolume { owned: state, ..v };
    &&& same_volume(stored_volume(s.store), w)
    &&& writes_volume_as(a, w)
    &&& (s.store is Writing ==> a is UpdateVolume || a is InsertVolume)
}

proof fn lemma_set_owned_step<P: Copy>(v: MangaVolume<P>, state: bool, s: SetOwned<P>, a: Action<P>, reply: Reply<P>)
    requires
        set_owned_on_track(v, state, s, a),
    ensures
        match s.next(reply) {
            Progress::Perform(s2, a2) => set_owned_on_track(v, state, s2, a2),
            Progress::Finished((w, r)) => same_volume(w, MangaVolume { owned: state, ..v })
                && (r is Ok ==> s.store is Writing),
        },
{
    law_store_keeps_volume(s.store, reply);
}

/// `set_owned(state)` of a volume, run to its end whatever the answers, writes only that
/// volume's own row, and with ownership `state` (its price unchanged); the volume ends in
/// `state`. When the volume was in the other state and it succeeds, its last request was
/// that write.
pub proof fn law_set_owned_writes_state<P: Copy>(
    volume: MangaVolume<P>,
    state: bool,
    states: Seq<SetOwned<P>>,
    requests: Seq<Action<P>>,
    replies: Seq<Reply<P>>,
    end: VolumeOutcome<P, ()>,
)
    requires
        volume.owned != state,
        states.len() == requests.len(),
        states.len() == replies.len(),
        states.len() > 0,
        volume.set_owned_first(state) == Progress::<SetOwned<P>, VolumeOutcome<P, ()>, P>::Perform(states[0], requests[0]),
        forall|u: int| 0 <= u < states.len() - 1 ==> (#[trigger] states[u]).next(replies[u]) == Progress::<SetOwned<P>, VolumeOutcome<P, ()>, P>::Perform(states[u + 1], requests[u + 1]),
        states.last().next(replies.last()) == Progress::<SetOwned<P>, VolumeOutcome<P, ()>, P>::Finished(end),
    ensures
        forall|u: int| 0 <= u < requests.len() ==> #[trigger] writes_volume_as(requests[u], MangaVolume { owned: state, ..volume }),
        end.0.owned == state,
        end.1 is Ok ==> requests.last() is UpdateVolume || requests.last() is InsertVolume,
{
    let n = states.len() - 1;
    assert forall|u: int| 0 <= u < requests.len() implies #[trigger] writes_volume_as(requests[u], MangaVolume { owned: state, ..volume }) by {
        lemma_set_owned_prefix(volume, state, states, requests, replies, u);
    }
    lemma_set_owned_prefix(volume, state, states, requests, replies, n);
    lemma_set_owned_step(volume, state, states[n], requests[n], replies[n]);
}

proof fn lemma_set_owned_prefix<P: Copy>(
    volume: MangaVolume<P>,
    state: bool,
    states: Seq<SetOwned<P>>,
    requests: Seq<Action<P>>,
    replies: Seq<Reply<P>>,
    t: int,
)
    requires
        volume.owned != state,
        states.len() == requests.len(),
        states.len() == replies.len(),
        0 <= t < states.len(),
        volume.set_owned_first(state) == Progress::<SetOwned<P>, VolumeOutcome<P, ()>, P>::Perform(states[0], requests[0]),
        forall|u: int| 0 <= u < states.len() - 1 ==> (#[trigger] states[u]).next(replies[u]) == Progress::<SetOwned<P>, VolumeOutcome<P, ()>, P>::Perform(states[u + 1], requests[u + 1]),
    ensures
        set_owned_on_track(volume, state, states[t], requests[t]),
    decreases t,
{
    if t > 0 {
        lemma_set_owned_prefix(volume, state, states, requests, replies, t - 1);
        assert(states[t - 1].next(replies[t - 1]) == Progress::<SetOwned<P>, VolumeOutcome<P, ()>, P>::Perform(states[t], requests[t]));
        lemma_set_owned_step(volume, state, states[t - 1], requests[t - 1], replies[t - 1]);
    }
}

/// If request `a` writes a series row, it writes one named after `entry` with `entry`'s
/// volume count, price and cover.
pub open spec fn writes_series_as<P>(a: Action<P>, entry: MangaEntry<P>) -> bool {
    match a {
        Action::UpdateManga { name, volume_count, last_price, cover_image_path } => name == entry.name
            && volume_count == entry.volume_count && last_price == entry.last_price && cover_image_path == entry.cover_path,
        Action::InsertManga { name, volume_count, last_price, cover_image_path } => name == entry.name
            && volume_count == entry.volume_count && last_price == entry.last_price && cover_image_path == entry.cover_path,
        _ => true,
    }
}

/// `save`, run to its end whatever the answers, writes only rows named after the series,
/// with the entry's own count, price and cover: an update when the check found a row, an
/// insert when it found none.
pub proof fn law_save_writes_entry<P: Copy>(
    entry: MangaEntry<P>,
    states: Seq<Save<P>>,
    requests: Seq<Action<P>>,
    replies: Seq<Reply<P>>,
    end: EntryOutcome<P, ()>,
)
    requires
        states.len() == requests.len(),
        states.len() == replies.len(),
        states.len() > 0,
        entry.save_first() == Progress::<Save<P>, EntryOutcome<P, ()>, P>::Perform(states[0], requests[0]),
        forall|u: int| 0 <= u < states.len() - 1 ==> (#[trigger] states[u]).next(replies[u]) == Progress::<Save<P>, EntryOutcome<P, ()>, P>::Perform(states[u + 1], requests[u + 1]),
        states.last().next(replies.last()) == Progress::<Save<P>, EntryOutcome<P, ()>, P>::Finished(end),
    ensures
        forall|u: int| 0 <= u < requests.len() ==> #[trigger] writes_series_as(requests[u], entry),
        replies[0] is Found ==> states.len() == 2 && requests[1] is UpdateManga,
        replies[0] == Reply::<P>::Failed(DbError::QueryReturnedNoRows) ==> states.len() == 2 && requests[1] is InsertManga,
{
    law_save_run(entry, states, requests, replies, end);
}

/// One of `m`'s titles, its own or an alternative one, trimmed, equals `target` up to the
/// case of ASCII letters.
pub open spec fn some_title_is(m: MangaData, target: Seq<char>) -> bool {
    ||| exists|k: int| 0 <= k < m.attributes.title@.len()
        && same_ignoring_ascii_case(trimmed(#[trigger] m.attributes.title@[k].1@), target)
    ||| exists|j: int, k: int| 0 <= j < m.attributes.alt_titles@.len() && 0 <= k < m.attributes.alt_titles@[j]@.len()
        && same_ignoring_ascii_case(trimmed(#[trigger] m.attributes.alt_titles@[j]@[k].1@), target)
}

/// One of `m`'s titles, its own or an alternative one, has a word (a piece between
/// characters that are not alphanumeric) equal to `target` up to the case of ASCII letters.
pub open spec fn some_title_has_word(m: MangaData, target: Seq<char>) -> bool {
    ||| exists|k: int| 0 <= k < m.attributes.title@.len() && has_word(#[trigger] m.attributes.title@[k].1@, target)
    ||| exists|j: int, k: int| 0 <= j < m.attributes.alt_titles@.len() && 0 <= k < m.attributes.alt_titles@[j]@.len()
        && has_word(#[trigger] m.attributes.alt_titles@[j]@[k].1@, target)
}

/// The cover URL of series `m`: its first cover art relationship's file, under its id.
pub open spec fn cover_url_of(m: MangaData) -> Option<Seq<char>> {
    match cover_file(m.relationships@) {
        Some(f) => Some("https://uploads.mangadex.org/covers/"@ + m.id@ + "/"@ + f),
        None => None,
    }
}

proof fn lemma_titles_view(titles: Vec<(String, String)>)
    ensures
        titles.deep_view().len() == titles@.len(),
        forall|k: int| 0 <= k < titles@.len() ==> (#[trigger] titles.deep_view()[k]).1 == titles@[k].1@,
{
}

proof fn lemma_title_predicates(m: MangaData, target: Seq<char>)
    ensures
        matches_exactly(m, target) == some_title_is(m, target),
        matches_by_word(m, target) == some_title_has_word(m, target),
{
    reveal(matches_exactly);
    reveal(matches_by_word);
    let a = m.attributes;
    lemma_titles_view(a.title);
    assert(a.alt_titles.deep_view().len() == a.alt_titles@.len());
    assert forall|j: int| 0 <= j < a.alt_titles@.len() implies #[trigger] a.alt_titles.deep_view()[j] == a.alt_titles@[j].deep_view() by {}
    assert forall|j: int| 0 <= j < a.alt_titles@.len() implies a.alt_titles@[j].deep_view().len() == a.alt_titles@[j]@.len()
        && forall|k: int| 0 <= k < a.alt_titles@[j]@.len() ==> (#[trigger] a.alt_titles@[j].deep_view()[k]).1 == a.alt_titles@[j]@[k].1@ by {
        lemma_titles_view(a.alt_titles@[j]);
    }
    if has_exact_title(a.title.deep_view(), target) {
        let k = choose|k: int| 0 <= k < a.title.deep_view().len() && same_ignoring_ascii_case(trimmed(#[trigger] a.title.deep_view()[k].1), target);
        assert(same_ignoring_ascii_case(trimmed(a.title@[k].1@), target));
    }
    if exists|k: int| 0 <= k < a.title@.len() && same_ignoring_ascii_case(trimmed(#[trigger] a.title@[k].1@), target) {
        let k = choose|k: int| 0 <= k < a.title@.len() && same_ignoring_ascii_case(trimmed(#[trigger] a.title@[k].1@), target);
        assert(same_ignoring_ascii_case(trimmed(a.title.deep_view()[k].1), target));
    }
    if exists|j: int| 0 <= j < a.alt_titles@.len() && has_exact_title(#[trigger] a.alt_titles.deep_view()[j], target) {
        let j = choose|j: int| 0 <= j < a.alt_titles@.len() && has_exact_title(#[trigger] a.alt_titles.deep_view()[j], target);
        let d = a.alt_titles.deep_view()[j];
        let k = choose|k: int| 0 <= k < d.len() && same_ignoring_ascii_case(trimmed(#[trigger] d[k].1), target);
        assert(same_ignoring_ascii_case(trimmed(a.alt_titles@[j]@[k].1@), target));
    }
    if exists|j: int, k: int| 0 <= j < a.alt_titles@.len() && 0 <= k < a.alt_titles@[j]@.len()
        && same_ignoring_ascii_case(trimmed(#[trigger] a.alt_titles@[j]@[k].1@), target) {
        let (j, k) = choose|j: int, k: int| 0 <= j < a.alt_titles@.len() && 0 <= k < a.alt_titles@[j]@.len()
            && same_ignoring_ascii_case(trimmed(#[trigger] a.alt_titles@[j]@[k].1@), target);
        assert(same_ignoring_ascii_case(trimmed(a.alt_titles.deep_view()[j][k].1), target));
        assert(has_exact_title(a.alt_titles.deep_view()[j], target));
    }
    if has_title_word(a.title.deep_view(), target) {
        let k = choose|k: int| 0 <= k < a.title.deep_view().len() && has_word(#[trigger] a.title.deep_view()[k].1, target);
        assert(has_word(a.title@[k].1@, target));
    }
    if exists|k: int| 0 <= k < a.title@.len() && has_word(#[trigger] a.title@[k].1@, target) {
        let k = choose|k: int| 0 <= k < a.title@.len() && has_word(#[trigger] a.title@[k].1@, target);
        assert(has_word(a.title.deep_view()[k].1, target));
    }
    if exists|j: int| 0 <= j < a.alt_titles@.len() && has_title_word(#[trigger] a.alt_titles.deep_view()[j], target) {
        let j = choose|j: int| 0 <= j < a.alt_titles@.len() && has_title_word(#[trigger] a.alt_titles.deep_view()[j], target);
        let d = a.alt_titles.deep_view()[j];
        let k = choose|k: int| 0 <= k < d.len() && has_word(#[trigger] d[k].1, target);
        assert(has_word(a.alt_titles@[j]@[k].1@, target));
    }
    if exists|j: int, k: int| 0 <= j < a.alt_titles@.len() && 0 <= k < a.alt_titles@[j]@.len()
        && has_word(#[trigger] a.alt_titles@[j]@[k].1@, target) {
        let (j, k) = choose|j: int, k: int| 0 <= j < a.alt_titles@.len() && 0 <= k < a.alt_titles@[j]@.len()
            && has_word(#[trigger] a.alt_titles@[j]@[k].1@, target);
        assert(has_word(a.alt_titles.deep_view()[j][k].1, target));
        assert(has_title_word(a.alt_titles.deep_view()[j], target));
    }
}

/// The series picked for `target` (a name already trimmed) when some title or alternative
/// title of result `i` equals it and none of an earlier result does: result `i`, and its
/// cover URL.
pub proof fn law_first_exact_title_is_picked(data: Seq<MangaData>, target: Seq<char>, i: int)
    requires
        0 <= i < data.len(),
        some_title_is(data[i], target),
        forall|n: int| 0 <= n < i ==> !some_title_is(#[trigger] data[n], target),
    ensures
        chosen_manga(data, target) == Some(i),
        cover_url(data, target) == cover_url_of(data[i]),
{
    assert forall|n: int| 0 <= n < data.len() implies matches_exactly(#[trigger] data[n], target) == some_title_is(data[n], target) by {
        lemma_title_predicates(data[n], target);
    }
    law_exact_title_wins(data, target, i);
}

/// When no title or alternative title of any result equals `target` (a name already
/// trimmed), the series picked is the first one with a word equal to it in one of its
/// titles or alternative titles, with its cover URL; with none such, there is no cover.
pub proof fn law_first_word_match_is_picked(data: Seq<MangaData>, target: Seq<char>, i: int)
    requires
        forall|n: int| 0 <= n < data.len() ==> !some_title_is(#[trigger] data[n], target),
        0 <= i <= data.len(),
        i < data.len() ==> some_title_has_word(data[i], target),
        forall|n: int| 0 <= n < i ==> !some_title_has_word(#[trigger] data[n], target),
    ensures
        i < data.len() ==> chosen_manga(data, target) == Some(i) && cover_url(data, target) == cover_url_of(data[i]),
        i == data.len() ==> chosen_manga(data, target) is None && cover_url(data, target) is None,
{
    assert forall|n: int| 0 <= n < data.len() implies matches_exactly(#[trigger] data[n], target) == some_title_is(data[n], target)
        && matches_by_word(data[n], target) == some_title_has_word(data[n], target) by {
        lemma_title_predicates(data[n], target);
    }
    assert(!exists|n: int| 0 <= n < data.len() && matches_exactly(#[trigger] data[n], target));
    if i < data.len() {
        lemma_first_word(data, target, i);
        let k = choose|k: int| 0 <= k < data.len() && matches_by_word(#[trigger] data[k], target)
            && forall|m: int| 0 <= m < k ==> !matches_by_word(#[trigger] data[m], target);
        if k < i {
            assert(some_title_has_word(data[k], target));
        } else if k > i {
            assert(matches_by_word(data[i], target));
        }
    } else {
        assert(!exists|n: int| 0 <= n < data.len() && matches_by_word(#[trigger] data[n], target));
    }
}

/// The cover file of a series is the file name of its first relationship of type
/// `cover_art`, whatever relationships follow.
pub proof fn law_cover_file_is_first_cover_art(relationships: Seq<Relationship>, k: int)
    requires
        0 <= k < relationships.len(),
        relationships[k].rel_type@ == "cover_art"@,
        forall|m: int| 0 <= m < k ==> (#[trigger] relationships[m]).rel_type@ != "cover_art"@,
    ensures
        cover_file(relationships) == match relationships[k].attributes {
            Some(a) => match a.file_name {
                Some(f) => Some(f@),
                None => None::<Seq<char>>,
            },
            None => None,
        },
{
    let c = choose|c: int| 0 <= c < relationships.len() && (#[trigger] relationships[c]).rel_type@ == "cover_art"@
        && forall|m: int| 0 <= m < c ==> (#[trigger] relationships[m]).rel_type@ != "cover_art"@;
    if c < k {
        assert(relationships[c].rel_type@ != "cover_art"@);
    } else if c > k {
        assert(relationships[k].rel_type@ != "cover_art"@);
    }
}

/// The answers `done` describe the first series of the listing `all`, in order: each has
/// the name, volume count and cover of its series.
pub open spec fn answers_follow<P>(done: Seq<MangaResponse>, all: Seq<MangaEntry<P>>) -> bool {
    &&& done.len() <= all.len()
    &&& forall|i: int| 0 <= i < done.len() ==> (#[trigger] done[i]).name@ == all[i].name@
        && done[i].volume_count == all[i].volume_count && done[i].cover_image_path == all[i].cover_path
}

/// `e` is series `m` of the listing, perhaps with its id learned.
pub open spec fn same_listed<P>(e: MangaEntry<P>, m: MangaEntry<P>) -> bool {
    e.name == m.name && e.volume_count == m.volume_count && e.cover_path == m.cover_path
}

/// `get_all_manga_responses`, over the listing `all`, stands at `s`: the answers so far
/// describe the first series, in order, and the next series is being described.
pub open spec fn listing_on_track<P>(all: Seq<MangaEntry<P>>, s: AllResponses<P>) -> bool {
    match s {
        AllResponses::Loading => false,
        AllResponses::FindingId { lookup, rest, done } => answers_follow(done@, all) && done@.len() < all.len()
            && rest@ == all.skip((done@.len() + 1) as int) && same_listed(lookup.entry, all[done@.len() as int]),
        AllResponses::LoadingVolumes { entry, manga_id: _, rest, done } => answers_follow(done@, all)
            && done@.len() < all.len() && rest@ == all.skip((done@.len() + 1) as int) && same_listed(entry, all[done@.len() as int]),
    }
}

proof fn lemma_listing_continues<P: Copy>(
    all: Seq<MangaEntry<P>>,
    rest: Seq<MangaEntry<P>>,
    done: Seq<MangaResponse>,
    r: Progress<AllResponses<P>, Result<Vec<MangaResponse>, DbError>, P>,
)
    requires
        answers_follow(done, all),
        rest == all.skip(done.len() as int),
        AllResponses::continues(rest, done, r),
    ensures
        match r {
            Progress::Perform(s, _) => listing_on_track(all, s),
            Progress::Finished(Ok(v)) => v@.len() == all.len() && answers_follow(v@, all),
            Progress::Finished(Err(_)) => true,
        },
{
    if rest.len() > 0 {
        assert(rest.drop_first() == all.skip((done.len() + 1) as int));
        assert(rest[0] == all[done.len() as int]);
    }
}

/// Each step of `get_all_manga_responses` over the listing `all` keeps it on track.
pub proof fn law_listing_step<P: Copy>(
    all: Seq<MangaEntry<P>>,
    s: AllResponses<P>,
    reply: Reply<P>,
    r: Progress<AllResponses<P>, Result<Vec<MangaResponse>, DbError>, P>,
)
    requires
        listing_on_track(all, s),
        s.next_is(reply, r),
    ensures
        match r {
            Progress::Perform(s2, _) => listing_on_track(all, s2),
            Progress::Finished(Ok(v)) => v@.len() == all.len() && answers_follow(v@, all),
            Progress::Finished(Err(_)) => true,
        },
{
    match s {
        AllResponses::LoadingVolumes { entry, manga_id, rest, done } => {
            if let Reply::Volumes(owned) = reply {
                let response = choose|response: MangaResponse|
                    describes(response, manga_id, entry, owned@) && #[trigger] AllResponses::continues(rest@, done@.push(response), r);
                assert(answers_follow(done@.push(response), all)) by {
                    assert forall|i: int| 0 <= i < done@.push(response).len() implies (#[trigger] done@.push(response)[i]).name@ == all[i].name@
                        && done@.push(response)[i].volume_count == all[i].volume_count
                        && done@.push(response)[i].cover_image_path == all[i].cover_path by {
                        if i < done@.len() {
                            assert(done@.push(response)[i] == done@[i]);
                        }
                    }
                }
                assert(all.skip((done@.len() + 1) as int) == all.skip(done@.push(response).len() as int));
                lemma_listing_continues(all, rest@, done@.push(response), r);
            }
        },
        _ => {},
    }
}

/// `get_all_manga_responses`, run to its end whatever the answers, when the database lists
/// the series `all` and it succeeds, answers one response per listed series, in the order
/// listed, each with the name, volume count and cover image path of its series.
pub proof fn law_listing_describes_every_series<P: Copy>(
    all: Seq<MangaEntry<P>>,
    states: Seq<AllResponses<P>>,
    requests: Seq<Action<P>>,
    replies: Seq<Reply<P>>,
    end: Result<Vec<MangaResponse>, DbError>,
)
    requires
        states.len() == requests.len(),
        states.len() == replies.len(),
        states.len() > 0,
        states[0] is Loading,
        replies[0] matches Reply::Mangas(listed) && listed@ == all,
        forall|u: int| 0 <= u < states.len() - 1 ==> (#[trigger] states[u]).next_is(replies[u], Progress::Perform(states[u + 1], requests[u + 1])),
        states.last().next_is(replies.last(), Progress::Finished(end)),
    ensures
        end matches Ok(v) ==> v@.len() == all.len() && forall|i: int| 0 <= i < all.len() ==> (#[trigger] v@[i]).name@ == all[i].name@
            && v@[i].volume_count == all[i].volume_count && v@[i].cover_image_path == all[i].cover_path,
{
    let n = states.len() - 1;
    assert(answers_follow(Seq::<MangaResponse>::empty(), all));
    assert(all.skip(0) == all);
    if n == 0 {
        lemma_listing_continues(all, all, Seq::empty(), Progress::Finished(end));
    } else {
        lemma_listing_prefix(all, states, requests, replies, n);
        law_listing_step(all, states[n], replies[n], Progress::Finished(end));
    }
}

proof fn lemma_listing_prefix<P: Copy>(
    all: Seq<MangaEntry<P>>,
    states: Seq<AllResponses<P>>,
    requests: Seq<Action<P>>,
    replies: Seq<Reply<P>>,
    t: int,
)
    requires
        states.len() == requests.len(),
        states.len() == replies.len(),
        1 <= t < states.len(),
        states[0] is Loading,
        replies[0] matches Reply::Mangas(listed) && listed@ == all,
        forall|u: int| 0 <= u < states.len() - 1 ==> (#[trigger] states[u]).next_is(replies[u], Progress::Perform(states[u + 1], requests[u + 1])),
    ensures
        listing_on_track(all, states[t]),
    decreases t,
{
    assert(states[t - 1].next_is(replies[t - 1], Progress::Perform(states[t], requests[t])));
    if t == 1 {
        assert(answers_follow(Seq::<MangaResponse>::empty(), all));
        assert(all.skip(0) == all);
        lemma_listing_continues(all, all, Seq::empty(), Progress::Perform(states[1], requests[1]));
    } else {
        lemma_listing_prefix(all, states, requests, replies, t - 1);
        law_listing_step(all, states[t - 1], replies[t - 1], Progress::Perform(states[t], requests[t]));
    }
}

/// `build_manga_data(id)`: when the database has a series under `id` and answers its owned
/// volumes `owned`, the answer is that series under `id`: its name, volume count and cover
/// image path as loaded, and the numbers of the owned volumes in the order answered. When
/// it has no series under `id` the answer is `None`.
pub proof fn law_build_manga_data_answers_series<P: Copy>(
    id: i64,
    manga: MangaEntry<P>,
    owned: Vec<MangaVolume<P>>,
    s: BuildMangaData<P>,
    a: Action<P>,
    r: Progress<BuildMangaData<P>, Result<Option<MangaResponse>, DbError>, P>,
    none: Progress<BuildMangaData<P>, Result<Option<MangaResponse>, DbError>, P>,
)
    requires
        (BuildMangaData::<P>::LoadingManga { id }).next_is(Reply::Manga(Some(manga)), Progress::Perform(s, a)),
        s.next_is(Reply::Volumes(owned), r),
        (BuildMangaData::<P>::LoadingManga { id }).next_is(Reply::Manga(None), none),
    ensures
        BuildMangaData::<P>::first(id) == Progress::<BuildMangaData<P>, Result<Option<MangaResponse>, DbError>, P>::Perform(
            BuildMangaData::LoadingManga { id },
            Action::LoadMangaById { id },
        ),
        a == (Action::<P>::LoadOwnedVolumes { manga_id: id }),
        r matches Progress::Finished(Ok(Some(response))) && response.id == id && response.name@ == manga.name@
            && response.volume_count == manga.volume_count && response.cover_image_path == manga.cover_path
            && response.owned_volumes@.len() == owned@.len()
            && forall|k: int| 0 <= k < owned@.len() ==> #[trigger] response.owned_volumes@[k] == owned@[k].volume_number,
        none == Progress::<BuildMangaData<P>, Result<Option<MangaResponse>, DbError>, P>::Finished(Ok(None)),
{
}

/// `create_response_with_manga` of an entry whose id is known asks for the owned volumes of
/// that id, and, given them, answers the entry unchanged and a response with that id, the
/// entry's name, volume count and cover image path, and the numbers of the owned volumes in
/// the order answered.
pub proof fn law_response_describes_entry<P: Copy>(
    entry: MangaEntry<P>,
    owned: Vec<MangaVolume<P>>,
    r: Progress<CreateResponse<P>, EntryOutcome<P, Option<MangaResponse>>, P>,
)
    requires
        entry.id > 0,
        (CreateResponse::<P>::Loading { entry, manga_id: entry.id }).next_is(Reply::Volumes(owned), r),
    ensures
        CreateResponse::<P>::first(entry) == Progress::<CreateResponse<P>, EntryOutcome<P, Option<MangaResponse>>, P>::Perform(
            CreateResponse::Loading { entry, manga_id: entry.id },
            Action::LoadOwnedVolumes { manga_id: entry.id },
        ),
        r matches Progress::Finished((e, Ok(Some(response)))) && e == entry && response.id == entry.id
            && response.name@ == entry.name@ && response.volume_count == entry.volume_count
            && response.cover_image_path == entry.cover_path && response.owned_volumes@.len() == owned@.len()
            && forall|k: int| 0 <= k < owned@.len() ==> #[trigger] response.owned_volumes@[k] == owned@[k].volume_number,
{
}

} // verus!
