use crate::manga::{GetVolume, Init, Save, SetCachedOwned, SetVolumeCount};
use crate::model::{MangaEntry, MangaResponse, UpdateVolumeRequest};
use crate::protocol::{Action, DbError, EntryOutcome, Progress, Reply};
use crate::query::CreateResponse;
use vstd::prelude::*;

verus! {

broadcast use vstd::std_specs::hash::group_hash_axioms;

/// The HTTP statuses the collection answers with.
#[derive(PartialEq, Eq, Structural, Clone, Copy, Debug)]
pub enum HttpStatus {
    /// 200 OK.
    Success,
    /// 404 Not Found.
    NotFound,
    /// 409 Conflict.
    Conflict,
    /// 418 I'm a teapot.
    ImATeapot,
    /// 500 Internal Server Error.
    InternalServerError,
}

/// The answer to `GET /manga/{id}` once `build_manga_data` has finished.
pub fn manga_reply(result: Result<Option<MangaResponse>, DbError>) -> (r: Result<MangaResponse, HttpStatus>)
    ensures
        match result {
            Ok(Some(m)) => r == Ok::<MangaResponse, HttpStatus>(m),
            Ok(None) => r == Err::<MangaResponse, HttpStatus>(HttpStatus::NotFound),
            Err(_) => r == Err::<MangaResponse, HttpStatus>(HttpStatus::InternalServerError),
        },
{
    match result {
        Ok(Some(m)) => Ok(m),
        Ok(None) => Err(HttpStatus::NotFound),
        Err(_) => Err(HttpStatus::InternalServerError),
    }
}

/// The answer to `GET /manga` once `get_all_manga_responses` has finished.
pub fn all_manga_reply(result: Result<Vec<MangaResponse>, DbError>) -> (r: Result<Vec<MangaResponse>, HttpStatus>)
    ensures
        match result {
            Ok(v) => r == Ok::<Vec<MangaResponse>, HttpStatus>(v),
            Err(_) => r == Err::<Vec<MangaResponse>, HttpStatus>(HttpStatus::InternalServerError),
        },
{
    match result {
        Ok(v) => Ok(v),
        Err(_) => Err(HttpStatus::InternalServerError),
    }
}

/// The answer once `create_response_with_manga` has finished for a series just written.
pub open spec fn response_reply<P>(out: EntryOutcome<P, Option<MangaResponse>>) -> Result<MangaResponse, HttpStatus> {
    match out.1 {
        Ok(Some(m)) => Ok(m),
        Ok(None) => Err(HttpStatus::NotFound),
        Err(_) => Err(HttpStatus::InternalServerError),
    }
}

fn make_response_reply<P>(out: EntryOutcome<P, Option<MangaResponse>>) -> (r: Result<MangaResponse, HttpStatus>)
    ensures
        r == response_reply(out),
{
    match out.1 {
        Ok(Some(m)) => Ok(m),
        Ok(None) => Err(HttpStatus::NotFound),
        Err(_) => Err(HttpStatus::InternalServerError),
    }
}

// ---------------------------------------------------------------- add_manga

/// `POST /manga/create`, once the cover URL has been fetched and the price bounded.
pub enum AddManga<P> {
    CheckingName { entry: MangaEntry<P> },
    Initializing { init: Init<P> },
    Responding { response: CreateResponse<P> },
}

impl<P: Copy> AddManga<P> {
    pub open spec fn after_response(p: Progress<CreateResponse<P>, EntryOutcome<P, Option<MangaResponse>>, P>) -> Progress<AddManga<P>, Result<MangaResponse, HttpStatus>, P> {
        match p {
            Progress::Perform(response, a) => Progress::Perform(AddManga::Responding { response }, a),
            Progress::Finished(out) => Progress::Finished(response_reply(out)),
        }
    }

    /// A failed `init` is an internal error; otherwise the new series is described.
    pub open spec fn after_init(p: Progress<Init<P>, EntryOutcome<P, ()>, P>) -> Progress<AddManga<P>, Result<MangaResponse, HttpStatus>, P> {
        match p {
            Progress::Perform(init, a) => Progress::Perform(AddManga::Initializing { init }, a),
            Progress::Finished((entry, Ok(()))) => Self::after_response(CreateResponse::first(entry)),
            Progress::Finished((_, Err(_))) => Progress::Finished(Err(HttpStatus::InternalServerError)),
        }
    }

    /// A series whose name is already stored is a conflict; a failed name lookup does not
    /// stop the addition.
    pub open spec fn next_is(self, reply: Reply<P>, r: Progress<AddManga<P>, Result<MangaResponse, HttpStatus>, P>) -> bool {
        match self {
            AddManga::CheckingName { entry } => r == match reply {
                Reply::Manga(Some(_)) => Progress::Finished(Err(HttpStatus::Conflict)),
                _ => Self::after_init(entry.init_first()),
            },
            AddManga::Initializing { init } => exists|c: Progress<Init<P>, EntryOutcome<P, ()>, P>|
                #[trigger] init.next_is(reply, c) && r == Self::after_init(c),
            AddManga::Responding { response } => exists|c: Progress<CreateResponse<P>, EntryOutcome<P, Option<MangaResponse>>, P>|
                #[trigger] response.next_is(reply, c) && r == Self::after_response(c),
        }
    }

    fn continue_after_response(p: Progress<CreateResponse<P>, EntryOutcome<P, Option<MangaResponse>>, P>) -> (r: Progress<AddManga<P>, Result<MangaResponse, HttpStatus>, P>)
        ensures
            r == Self::after_response(p),
    {
        match p {
            Progress::Perform(response, a) => Progress::Perform(AddManga::Responding { response }, a),
            Progress::Finished(out) => Progress::Finished(make_response_reply(out)),
        }
    }

    fn continue_after_init(p: Progress<Init<P>, EntryOutcome<P, ()>, P>) -> (r: Progress<AddManga<P>, Result<MangaResponse, HttpStatus>, P>)
        ensures
            r == Self::after_init(p),
    {
        match p {
            Progress::Perform(init, a) => Progress::Perform(AddManga::Initializing { init }, a),
            Progress::Finished((entry, Ok(()))) => Self::continue_after_response(CreateResponse::start(entry)),
            Progress::Finished((_, Err(_))) => Progress::Finished(Err(HttpStatus::InternalServerError)),
        }
    }

    /// Starts adding series `name` with `volume_count` volumes, price `price` and cover
    /// `cover_url`: first the name is looked up.
    pub fn start(name: String, volume_count: i64, price: P, cover_url: Option<String>) -> (r: Progress<AddManga<P>, Result<MangaResponse, HttpStatus>, P>)
        ensures
            r matches Progress::Perform(AddManga::CheckingName { entry }, Action::LoadMangaByName { name: n })
                && n == name && entry.name@ == name@ && entry.volume_count == volume_count
                && entry.last_price == price && entry.cover_path == cover_url
                && entry.volumes@.dom().len() == 0 && entry.id == 0,
    {
        let entry = MangaEntry::new(name.as_str(), volume_count, price, cover_url);
        Progress::Perform(AddManga::CheckingName { entry }, Action::LoadMangaByName { name })
    }

    pub fn resume(self, reply: Reply<P>) -> (r: Progress<AddManga<P>, Result<MangaResponse, HttpStatus>, P>)
        ensures
            self.next_is(reply, r),
    {
        match self {
            AddManga::CheckingName { entry } => match reply {
                Reply::Manga(Some(_)) => Progress::Finished(Err(HttpStatus::Conflict)),
                _ => Self::continue_after_init(entry.init()),
            },
            AddManga::Initializing { init } => {
                let c = init.resume(reply);
                Self::continue_after_init(c)
            },
            AddManga::Responding { response } => {
                let c = response.resume(reply);
                Self::continue_after_response(c)
            },
        }
    }
}

// ---------------------------------------------------------------- update_manga

/// `update_manga`, once a new price has been bounded.
pub enum UpdateManga<P> {
    Loading { id: i64, new_price: Option<P>, new_count: Option<i64> },
    SettingCount { count: SetVolumeCount<P> },
    Saving { save: Save<P> },
    Responding { response: CreateResponse<P> },
}

impl<P: Copy> UpdateManga<P> {
    pub open spec fn after_response(p: Progress<CreateResponse<P>, EntryOutcome<P, Option<MangaResponse>>, P>) -> Progress<UpdateManga<P>, Result<MangaResponse, HttpStatus>, P> {
        match p {
            Progress::Perform(response, a) => Progress::Perform(UpdateManga::Responding { response }, a),
            Progress::Finished(out) => Progress::Finished(response_reply(out)),
        }
    }

    pub open spec fn after_save(p: Progress<Save<P>, EntryOutcome<P, ()>, P>) -> Progress<UpdateManga<P>, Result<MangaResponse, HttpStatus>, P> {
        match p {
            Progress::Perform(save, a) => Progress::Perform(UpdateManga::Saving { save }, a),
            Progress::Finished((entry, Ok(()))) => Self::after_response(CreateResponse::first(entry)),
            Progress::Finished((_, Err(_))) => Progress::Finished(Err(HttpStatus::InternalServerError)),
        }
    }

    pub open spec fn after_count(p: Progress<SetVolumeCount<P>, EntryOutcome<P, ()>, P>) -> Progress<UpdateManga<P>, Result<MangaResponse, HttpStatus>, P> {
        match p {
            Progress::Perform(count, a) => Progress::Perform(UpdateManga::SettingCount { count }, a),
            Progress::Finished((entry, Ok(()))) => Self::after_save(entry.save_first()),
            Progress::Finished((_, Err(_))) => Progress::Finished(Err(HttpStatus::InternalServerError)),
        }
    }

    /// The loaded series takes the new price, if any; then its volume count is set, if one
    /// was asked for; then it is saved and described.
    pub open spec fn after_load(manga: MangaEntry<P>, new_price: Option<P>, new_count: Option<i64>) -> Progress<UpdateManga<P>, Result<MangaResponse, HttpStatus>, P> {
        let manga = match new_price {
            Some(p) => MangaEntry { last_price: p, ..manga },
            None => manga,
        };
        match new_count {
            Some(c) => Self::after_count(manga.set_volume_count_first(c)),
            None => Self::after_save(manga.save_first()),
        }
    }

    /// An unknown id is not found; a failed load is answered with "I'm a teapot".
    pub open spec fn next_is(self, reply: Reply<P>, r: Progress<UpdateManga<P>, Result<MangaResponse, HttpStatus>, P>) -> bool {
        match self {
            UpdateManga::Loading { id, new_price, new_count } => r == match reply {
                Reply::Manga(Some(manga)) => Self::after_load(manga, new_price, new_count),
                Reply::Manga(None) => Progress::Finished(Err(HttpStatus::NotFound)),
                _ => Progress::Finished(Err(HttpStatus::ImATeapot)),
            },
            UpdateManga::SettingCount { count } => exists|c: Progress<SetVolumeCount<P>, EntryOutcome<P, ()>, P>|
                #[trigger] count.next_is(reply, c) && r == Self::after_count(c),
            UpdateManga::Saving { save } => r == Self::after_save(save.next(reply)),
            UpdateManga::Responding { response } => exists|c: Progress<CreateResponse<P>, EntryOutcome<P, Option<MangaResponse>>, P>|
                #[trigger] response.next_is(reply, c) && r == Self::after_response(c),
        }
    }

    fn continue_after_response(p: Progress<CreateResponse<P>, EntryOutcome<P, Option<MangaResponse>>, P>) -> (r: Progress<UpdateManga<P>, Result<MangaResponse, HttpStatus>, P>)
        ensures
            r == Self::after_response(p),
    {
        match p {
            Progress::Perform(response, a) => Progress::Perform(UpdateManga::Responding { response }, a),
            Progress::Finished(out) => Progress::Finished(make_response_reply(out)),
        }
    }

    fn continue_after_save(p: Progress<Save<P>, EntryOutcome<P, ()>, P>) -> (r: Progress<UpdateManga<P>, Result<MangaResponse, HttpStatus>, P>)
        ensures
            r == Self::after_save(p),
    {
        match p {
            Progress::Perform(save, a) => Progress::Perform(UpdateManga::Saving { save }, a),
            Progress::Finished((entry, Ok(()))) => Self::continue_after_response(CreateResponse::start(entry)),
            Progress::Finished((_, Err(_))) => Progress::Finished(Err(HttpStatus::InternalServerError)),
        }
    }

    fn continue_after_count(p: Progress<SetVolumeCount<P>, EntryOutcome<P, ()>, P>) -> (r: Progress<UpdateManga<P>, Result<MangaResponse, HttpStatus>, P>)
        ensures
            r == Self::after_count(p),
    {
        match p {
            Progress::Perform(count, a) => Progress::Perform(UpdateManga::SettingCount { count }, a),
            Progress::Finished((entry, Ok(()))) => Self::continue_after_save(entry.save()),
            Progress::Finished((_, Err(_))) => Progress::Finished(Err(HttpStatus::InternalServerError)),
        }
    }

    fn continue_after_load(manga: MangaEntry<P>, new_price: Option<P>, new_count: Option<i64>) -> (r: Progress<UpdateManga<P>, Result<MangaResponse, HttpStatus>, P>)
        ensures
            r == Self::after_load(manga, new_price, new_count),
    {
        let mut manga = manga;
        if let Some(p) = new_price {
            manga.edit_last_price(p);
        }
        match new_count {
            Some(c) => Self::continue_after_count(manga.set_volume_count(c)),
            None => Self::continue_after_save(manga.save()),
        }
    }

    pub open spec fn first(id: i64, new_price: Option<P>, new_count: Option<i64>) -> Progress<UpdateManga<P>, Result<MangaResponse, HttpStatus>, P> {
        Progress::Perform(UpdateManga::Loading { id, new_price, new_count }, Action::LoadMangaById { id })
    }

    /// Starts updating the series with id `id`: first it is loaded.
    pub fn start(id: i64, new_price: Option<P>, new_count: Option<i64>) -> (r: Progress<UpdateManga<P>, Result<MangaResponse, HttpStatus>, P>)
        ensures
            r == Self::first(id, new_price, new_count),
    {
        Progress::Perform(UpdateManga::Loading { id, new_price, new_count }, Action::LoadMangaById { id })
    }

    pub fn resume(self, reply: Reply<P>) -> (r: Progress<UpdateManga<P>, Result<MangaResponse, HttpStatus>, P>)
        ensures
            self.next_is(reply, r),
    {
        match self {
            UpdateManga::Loading { id, new_price, new_count } => match reply {
                Reply::Manga(Some(manga)) => Self::continue_after_load(manga, new_price, new_count),
                Reply::Manga(None) => Progress::Finished(Err(HttpStatus::NotFound)),
                _ => Progress::Finished(Err(HttpStatus::ImATeapot)),
            },
            UpdateManga::SettingCount { count } => {
                let c = count.resume(reply);
                Self::continue_after_count(c)
            },
            UpdateManga::Saving { save } => Self::continue_after_save(save.resume(reply)),
            UpdateManga::Responding { response } => {
                let c = response.resume(reply);
                Self::continue_after_response(c)
            },
        }
    }
}

// ---------------------------------------------------------------- update_volume

/// `POST /manga/update/{id}`: marks one volume of a series as owned or not.
pub enum UpdateVolume<P> {
    Loading { id: i64, volume: i64, state: bool },
    GettingVolume { lookup: GetVolume<P>, state: bool },
    SettingOwned { owned: SetCachedOwned<P> },
}

impl<P: Copy> UpdateVolume<P> {
    pub open spec fn after_owned(p: Progress<SetCachedOwned<P>, EntryOutcome<P, ()>, P>) -> Progress<UpdateVolume<P>, Result<HttpStatus, HttpStatus>, P> {
        match p {
            Progress::Perform(owned, a) => Progress::Perform(UpdateVolume::SettingOwned { owned }, a),
            Progress::Finished((_, Ok(()))) => Progress::Finished(Ok(HttpStatus::Success)),
            Progress::Finished((_, Err(_))) => Progress::Finished(Err(HttpStatus::InternalServerError)),
        }
    }

    /// The volume found, in the entry's cache, is set to `state`.
    pub open spec fn after_volume(p: Progress<GetVolume<P>, EntryOutcome<P, i64>, P>, state: bool) -> Progress<UpdateVolume<P>, Result<HttpStatus, HttpStatus>, P> {
        match p {
            Progress::Perform(lookup, a) => Progress::Perform(UpdateVolume::GettingVolume { lookup, state }, a),
            Progress::Finished((entry, Ok(n))) => if entry.volumes@.contains_key(n) {
                Self::after_owned(entry.set_cached_owned_first(n, state))
            } else {
                Progress::Finished(Err(HttpStatus::InternalServerError))
            },
            Progress::Finished((_, Err(_))) => Progress::Finished(Err(HttpStatus::InternalServerError)),
        }
    }

    /// An unknown id is not found; any failure after that is an internal error.
    pub open spec fn next_is(self, reply: Reply<P>, r: Progress<UpdateVolume<P>, Result<HttpStatus, HttpStatus>, P>) -> bool {
        match self {
            UpdateVolume::Loading { id, volume, state } => r == match reply {
                Reply::Manga(Some(manga)) => Self::after_volume(manga.get_volume_first(volume), state),
                Reply::Manga(None) => Progress::Finished(Err(HttpStatus::NotFound)),
                _ => Progress::Finished(Err(HttpStatus::InternalServerError)),
            },
            UpdateVolume::GettingVolume { lookup, state } => exists|c: Progress<GetVolume<P>, EntryOutcome<P, i64>, P>|
                #[trigger] lookup.next_is(reply, c) && r == Self::after_volume(c, state),
            UpdateVolume::SettingOwned { owned } => exists|c: Progress<SetCachedOwned<P>, EntryOutcome<P, ()>, P>|
                #[trigger] owned.next_is(reply, c) && r == Self::after_owned(c),
        }
    }

    fn continue_after_owned(p: Progress<SetCachedOwned<P>, EntryOutcome<P, ()>, P>) -> (r: Progress<UpdateVolume<P>, Result<HttpStatus, HttpStatus>, P>)
        ensures
            r == Self::after_owned(p),
    {
        match p {
            Progress::Perform(owned, a) => Progress::Perform(UpdateVolume::SettingOwned { owned }, a),
            Progress::Finished((_, Ok(()))) => Progress::Finished(Ok(HttpStatus::Success)),
            Progress::Finished((_, Err(_))) => Progress::Finished(Err(HttpStatus::InternalServerError)),
        }
    }

    fn continue_after_volume(p: Progress<GetVolume<P>, EntryOutcome<P, i64>, P>, state: bool) -> (r: Progress<UpdateVolume<P>, Result<HttpStatus, HttpStatus>, P>)
        ensures
            r == Self::after_volume(p, state),
    {
        match p {
            Progress::Perform(lookup, a) => Progress::Perform(UpdateVolume::GettingVolume { lookup, state }, a),
            Progress::Finished((entry, Ok(n))) => if entry.volumes.contains_key(&n) {
                Self::continue_after_owned(entry.set_cached_owned(n, state))
            } else {
                Progress::Finished(Err(HttpStatus::InternalServerError))
            },
            Progress::Finished((_, Err(_))) => Progress::Finished(Err(HttpStatus::InternalServerError)),
        }
    }

    pub open spec fn first(id: i64, request: UpdateVolumeRequest) -> Progress<UpdateVolume<P>, Result<HttpStatus, HttpStatus>, P> {
        Progress::Perform(
            UpdateVolume::Loading { id, volume: request.volume, state: request.state },
            Action::LoadMangaById { id },
        )
    }

    /// Starts the update of series `id` asked for by `request`: first the series is loaded.
    pub fn start(id: i64, request: UpdateVolumeRequest) -> (r: Progress<UpdateVolume<P>, Result<HttpStatus, HttpStatus>, P>)
        ensures
            r == Self::first(id, request),
    {
        Progress::Perform(
            UpdateVolume::Loading { id, volume: request.volume, state: request.state },
            Action::LoadMangaById { id },
        )
    }

    pub fn resume(self, reply: Reply<P>) -> (r: Progress<UpdateVolume<P>, Result<HttpStatus, HttpStatus>, P>)
        ensures
            self.next_is(reply, r),
    {
        match self {
            UpdateVolume::Loading { id, volume, state } => match reply {
                Reply::Manga(Some(manga)) => Self::continue_after_volume(manga.get_volume(volume), state),
                Reply::Manga(None) => Progress::Finished(Err(HttpStatus::NotFound)),
                _ => Progress::Finished(Err(HttpStatus::InternalServerError)),
            },
            UpdateVolume::GettingVolume { lookup, state } => {
                let c = lookup.resume(reply);
                Self::continue_after_volume(c, state)
            },
            UpdateVolume::SettingOwned { owned } => {
                let c = owned.resume(reply);
                Self::continue_after_owned(c)
            },
        }
    }
}

} // verus!
