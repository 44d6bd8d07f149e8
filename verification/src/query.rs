use crate::manga::GetId;
use crate::model::{MangaEntry, MangaResponse, MangaVolume};
use crate::protocol::{Action, DbError, EntryOutcome, Progress, Reply};
use vstd::prelude::*;

verus! {

/// The numbers of `volumes`, in order.
pub open spec fn volume_numbers<P>(volumes: Seq<MangaVolume<P>>) -> Seq<i64> {
    volumes.map_values(|v: MangaVolume<P>| v.volume_number)
}

/// The numbers of `volumes`, in order.
pub fn owned_volume_numbers<P: Copy>(volumes: &Vec<MangaVolume<P>>) -> (r: Vec<i64>)
    ensures
        r@ == volume_numbers(volumes@),
{
    let mut numbers: Vec<i64> = Vec::new();
    let n = volumes.len();
    for i in 0..n
        invariant
            n == volumes.len(),
            numbers@ == volume_numbers(volumes@.take(i as int)),
    {
        proof {
            assert(volumes@.take(i + 1) == volumes@.take(i as int).push(volumes@[i as int]));
        }
        numbers.push(volumes[i].volume_number);
    }
    proof {
        assert(volumes@.take(n as int) == volumes@);
    }
    numbers
}

/// `response` describes series `entry` under id `id`, with the owned volumes `owned`.
pub open spec fn describes<P>(response: MangaResponse, id: i64, entry: MangaEntry<P>, owned: Seq<MangaVolume<P>>) -> bool {
    &&& response.id == id
    &&& response.name@ == entry.name@
    &&& response.volume_count == entry.volume_count
    &&& response.owned_volumes@ == volume_numbers(owned)
    &&& response.cover_image_path == entry.cover_path
}

fn clone_cover(cover: &Option<String>) -> (r: Option<String>)
    ensures
        r == *cover,
{
    match cover {
        Some(c) => Some(c.clone()),
        None => None,
    }
}

fn make_response<P: Copy>(id: i64, entry: &MangaEntry<P>, owned: &Vec<MangaVolume<P>>) -> (r: MangaResponse)
    ensures
        describes(r, id, *entry, owned@),
{
    MangaResponse {
        id,
        name: entry.name.clone(),
        volume_count: entry.volume_count,
        owned_volumes: owned_volume_numbers(owned),
        cover_image_path: clone_cover(&entry.cover_path),
    }
}

/// `create_response_with_manga`: the entry's id, then its owned volumes.
pub enum CreateResponse<P> {
    FindingId { lookup: GetId<P> },
    Loading { entry: MangaEntry<P>, manga_id: i64 },
}

impl<P: Copy> CreateResponse<P> {
    /// An entry whose id cannot be found is an `UnwindingPanic` error.
    pub open spec fn after_id(p: Progress<GetId<P>, EntryOutcome<P, Option<i64>>, P>) -> Progress<CreateResponse<P>, EntryOutcome<P, Option<MangaResponse>>, P> {
        match p {
            Progress::Perform(lookup, a) => Progress::Perform(CreateResponse::FindingId { lookup }, a),
            Progress::Finished((entry, Ok(Some(manga_id)))) => Progress::Perform(
                CreateResponse::Loading { entry, manga_id },
                Action::LoadOwnedVolumes { manga_id },
            ),
            Progress::Finished((entry, Ok(None))) => Progress::Finished((entry, Err(DbError::UnwindingPanic))),
            Progress::Finished((entry, Err(e))) => Progress::Finished((entry, Err(e))),
        }
    }

    pub open spec fn first(entry: MangaEntry<P>) -> Progress<CreateResponse<P>, EntryOutcome<P, Option<MangaResponse>>, P> {
        Self::after_id(entry.get_id_first())
    }

    /// With the owned volumes loaded, the answer describes the entry under its id.
    pub open spec fn next_is(self, reply: Reply<P>, r: Progress<CreateResponse<P>, EntryOutcome<P, Option<MangaResponse>>, P>) -> bool {
        match self {
            CreateResponse::FindingId { lookup } => r == Self::after_id(lookup.next(reply)),
            CreateResponse::Loading { entry, manga_id } => match reply {
                Reply::Volumes(owned) => r matches Progress::Finished((e, Ok(Some(response))))
                    && e == entry && describes(response, manga_id, entry, owned@),
                Reply::Failed(e) => r == Progress::<Self, EntryOutcome<P, Option<MangaResponse>>, P>::Finished((entry, Err(e))),
                _ => r == Progress::<Self, EntryOutcome<P, Option<MangaResponse>>, P>::Finished((entry, Err(DbError::UnexpectedReply))),
            },
        }
    }

    fn continue_after_id(p: Progress<GetId<P>, EntryOutcome<P, Option<i64>>, P>) -> (r: Progress<CreateResponse<P>, EntryOutcome<P, Option<MangaResponse>>, P>)
        ensures
            r == Self::after_id(p),
    {
        match p {
            Progress::Perform(lookup, a) => Progress::Perform(CreateResponse::FindingId { lookup }, a),
            Progress::Finished((entry, Ok(Some(manga_id)))) => Progress::Perform(
                CreateResponse::Loading { entry, manga_id },
                Action::LoadOwnedVolumes { manga_id },
            ),
            Progress::Finished((entry, Ok(None))) => Progress::Finished((entry, Err(DbError::UnwindingPanic))),
            Progress::Finished((entry, Err(e))) => Progress::Finished((entry, Err(e))),
        }
    }

    /// `create_response_with_manga` for `entry`.
    pub fn start(entry: MangaEntry<P>) -> (r: Progress<CreateResponse<P>, EntryOutcome<P, Option<MangaResponse>>, P>)
        ensures
            r == Self::first(entry),
    {
        Self::continue_after_id(entry.get_id())
    }

    pub fn resume(self, reply: Reply<P>) -> (r: Progress<CreateResponse<P>, EntryOutcome<P, Option<MangaResponse>>, P>)
        ensures
            self.next_is(reply, r),
    {
        match self {
            CreateResponse::FindingId { lookup } => Self::continue_after_id(lookup.resume(reply)),
            CreateResponse::Loading { entry, manga_id } => match reply {
                Reply::Volumes(owned) => {
                    let response = make_response(manga_id, &entry, &owned);
                    Progress::Finished((entry, Ok(Some(response))))
                },
                Reply::Failed(e) => Progress::Finished((entry, Err(e))),
                _ => Progress::Finished((entry, Err(DbError::UnexpectedReply))),
            },
        }
    }
}

/// `build_manga_data`: the series with an id, then its owned volumes.
pub enum BuildMangaData<P> {
    LoadingManga { id: i64 },
    LoadingVolumes { id: i64, manga: MangaEntry<P> },
}

impl<P: Copy> BuildMangaData<P> {
    pub open spec fn first(id: i64) -> Progress<BuildMangaData<P>, Result<Option<MangaResponse>, DbError>, P> {
        Progress::Perform(BuildMangaData::LoadingManga { id }, Action::LoadMangaById { id })
    }

    /// No series with the id is `Ok(None)`; otherwise the answer describes it under the id asked for.
    pub open spec fn next_is(self, reply: Reply<P>, r: Progress<BuildMangaData<P>, Result<Option<MangaResponse>, DbError>, P>) -> bool {
        match self {
            BuildMangaData::LoadingManga { id } => r == match reply {
                Reply::Manga(Some(manga)) => Progress::<Self, Result<Option<MangaResponse>, DbError>, P>::Perform(
                    BuildMangaData::LoadingVolumes { id, manga },
                    Action::LoadOwnedVolumes { manga_id: id },
                ),
                Reply::Manga(None) => Progress::Finished(Ok(None)),
                Reply::Failed(e) => Progress::Finished(Err(e)),
                _ => Progress::Finished(Err(DbError::UnexpectedReply)),
            },
            BuildMangaData::LoadingVolumes { id, manga } => match reply {
                Reply::Volumes(owned) => r matches Progress::Finished(Ok(Some(response))) && describes(response, id, manga, owned@),
                Reply::Failed(e) => r == Progress::<Self, Result<Option<MangaResponse>, DbError>, P>::Finished(Err(e)),
                _ => r == Progress::<Self, Result<Option<MangaResponse>, DbError>, P>::Finished(Err(DbError::UnexpectedReply)),
            },
        }
    }

    /// `build_manga_data` for the series with id `id`.
    pub fn start(id: i64) -> (r: Progress<BuildMangaData<P>, Result<Option<MangaResponse>, DbError>, P>)
        ensures
            r == Self::first(id),
    {
        Progress::Perform(BuildMangaData::LoadingManga { id }, Action::LoadMangaById { id })
    }

    pub fn resume(self, reply: Reply<P>) -> (r: Progress<BuildMangaData<P>, Result<Option<MangaResponse>, DbError>, P>)
        ensures
            self.next_is(reply, r),
    {
        match self {
            BuildMangaData::LoadingManga { id } => match reply {
                Reply::Manga(Some(manga)) => Progress::Perform(
                    BuildMangaData::LoadingVolumes { id, manga },
                    Action::LoadOwnedVolumes { manga_id: id },
                ),
                Reply::Manga(None) => Progress::Finished(Ok(None)),
                Reply::Failed(e) => Progress::Finished(Err(e)),
                _ => Progress::Finished(Err(DbError::UnexpectedReply)),
            },
            BuildMangaData::LoadingVolumes { id, manga } => match reply {
                Reply::Volumes(owned) => Progress::Finished(Ok(Some(make_response(id, &manga, &owned)))),
                Reply::Failed(e) => Progress::Finished(Err(e)),
                _ => Progress::Finished(Err(DbError::UnexpectedReply)),
            },
        }
    }
}


/// `get_all_manga_responses`: every series, then for each in turn its id and its owned volumes.
pub enum AllResponses<P> {
    Loading,
    FindingId { lookup: GetId<P>, rest: Vec<MangaEntry<P>>, done: Vec<MangaResponse> },
    LoadingVolumes { entry: MangaEntry<P>, manga_id: i64, rest: Vec<MangaEntry<P>>, done: Vec<MangaResponse> },
}

impl<P: Copy> AllResponses<P> {
    pub open spec fn first() -> Progress<AllResponses<P>, Result<Vec<MangaResponse>, DbError>, P> {
        Progress::Perform(AllResponses::Loading, Action::LoadAllMangas)
    }

    /// Continue after the id lookup for one series; a series without id is an error.
    pub open spec fn after_id_is(
        p: Progress<GetId<P>, EntryOutcome<P, Option<i64>>, P>,
        rest: Seq<MangaEntry<P>>,
        done: Seq<MangaResponse>,
        r: Progress<AllResponses<P>, Result<Vec<MangaResponse>, DbError>, P>,
    ) -> bool {
        match p {
            Progress::Perform(lookup, a) => r matches Progress::Perform(AllResponses::FindingId { lookup: l, rest: rv, done: dv }, a2)
                && l == lookup && a2 == a && rv@ == rest && dv@ == done,
            Progress::Finished((entry, Ok(Some(id)))) => r matches Progress::Perform(
                AllResponses::LoadingVolumes { entry: e, manga_id, rest: rv, done: dv },
                Action::LoadOwnedVolumes { manga_id: m },
            ) && e == entry && manga_id == id && m == id && rv@ == rest && dv@ == done,
            Progress::Finished((_, Ok(None))) => r == Progress::<Self, Result<Vec<MangaResponse>, DbError>, P>::Finished(Err(DbError::QueryReturnedNoRows)),
            Progress::Finished((_, Err(e))) => r == Progress::<Self, Result<Vec<MangaResponse>, DbError>, P>::Finished(Err(e)),
        }
    }

    /// With the series in `rest` still to describe and the answers in `done` so far: the
    /// answers once none is left, else the next series' id.
    pub open spec fn continues(rest: Seq<MangaEntry<P>>, done: Seq<MangaResponse>, r: Progress<AllResponses<P>, Result<Vec<MangaResponse>, DbError>, P>) -> bool {
        if rest.len() == 0 {
            r matches Progress::Finished(Ok(v)) && v@ == done
        } else {
            Self::after_id_is(rest[0].get_id_first(), rest.drop_first(), done, r)
        }
    }

    /// Each series is described, in the order the database listed them, under the id its
    /// name finds; the first failure ends it.
    pub open spec fn next_is(self, reply: Reply<P>, r: Progress<AllResponses<P>, Result<Vec<MangaResponse>, DbError>, P>) -> bool {
        match self {
            AllResponses::Loading => match reply {
                Reply::Mangas(all) => Self::continues(all@, Seq::empty(), r),
                Reply::Failed(e) => r == Progress::<Self, Result<Vec<MangaResponse>, DbError>, P>::Finished(Err(e)),
                _ => r == Progress::<Self, Result<Vec<MangaResponse>, DbError>, P>::Finished(Err(DbError::UnexpectedReply)),
            },
            AllResponses::FindingId { lookup, rest, done } => Self::after_id_is(lookup.next(reply), rest@, done@, r),
            AllResponses::LoadingVolumes { entry, manga_id, rest, done } => match reply {
                Reply::Volumes(owned) => exists|response: MangaResponse|
                    describes(response, manga_id, entry, owned@) && #[trigger] Self::continues(rest@, done@.push(response), r),
                Reply::Failed(e) => r == Progress::<Self, Result<Vec<MangaResponse>, DbError>, P>::Finished(Err(e)),
                _ => r == Progress::<Self, Result<Vec<MangaResponse>, DbError>, P>::Finished(Err(DbError::UnexpectedReply)),
            },
        }
    }

    fn continue_after_id(
        p: Progress<GetId<P>, EntryOutcome<P, Option<i64>>, P>,
        rest: Vec<MangaEntry<P>>,
        done: Vec<MangaResponse>,
    ) -> (r: Progress<AllResponses<P>, Result<Vec<MangaResponse>, DbError>, P>)
        ensures
            Self::after_id_is(p, rest@, done@, r),
    {
        match p {
            Progress::Perform(lookup, a) => Progress::Perform(AllResponses::FindingId { lookup, rest, done }, a),
            Progress::Finished((entry, Ok(Some(manga_id)))) => Progress::Perform(
                AllResponses::LoadingVolumes { entry, manga_id, rest, done },
                Action::LoadOwnedVolumes { manga_id },
            ),
            Progress::Finished((_, Ok(None))) => Progress::Finished(Err(DbError::QueryReturnedNoRows)),
            Progress::Finished((_, Err(e))) => Progress::Finished(Err(e)),
        }
    }

    fn continue_with(rest: Vec<MangaEntry<P>>, done: Vec<MangaResponse>) -> (r: Progress<AllResponses<P>, Result<Vec<MangaResponse>, DbError>, P>)
        ensures
            Self::continues(rest@, done@, r),
    {
        if rest.len() == 0 {
            Progress::Finished(Ok(done))
        } else {
            let mut rest = rest;
            let ghost all = rest@;
            let next = rest.remove(0);
            proof {
                assert(rest@ == all.drop_first());
            }
            Self::continue_after_id(next.get_id(), rest, done)
        }
    }

    /// `get_all_manga_responses`.
    pub fn start() -> (r: Progress<AllResponses<P>, Result<Vec<MangaResponse>, DbError>, P>)
        ensures
            r == Self::first(),
    {
        Progress::Perform(AllResponses::Loading, Action::LoadAllMangas)
    }

    pub fn resume(self, reply: Reply<P>) -> (r: Progress<AllResponses<P>, Result<Vec<MangaResponse>, DbError>, P>)
        ensures
            self.next_is(reply, r),
    {
        match self {
            AllResponses::Loading => match reply {
                Reply::Mangas(all) => {
                    let none: Vec<MangaResponse> = Vec::new();
                    assert(none@ =~= Seq::<MangaResponse>::empty());
                    Self::continue_with(all, none)
                },
                Reply::Failed(e) => Progress::Finished(Err(e)),
                _ => Progress::Finished(Err(DbError::UnexpectedReply)),
            },
            AllResponses::FindingId { lookup, rest, done } => Self::continue_after_id(lookup.resume(reply), rest, done),
            AllResponses::LoadingVolumes { entry, manga_id, rest, done } => match reply {
                Reply::Volumes(owned) => {
                    let response = make_response(manga_id, &entry, &owned);
                    let ghost answered = response;
                    let mut done = done;
                    let ghost before = done@;
                    done.push(response);
                    let r = Self::continue_with(rest, done);
                    proof {
                        assert(Self::continues(rest@, before.push(answered), r));
                    }
                    r
                },
                Reply::Failed(e) => Progress::Finished(Err(e)),
                _ => Progress::Finished(Err(DbError::UnexpectedReply)),
            },
        }
    }
}

} // verus!
