// Scenario tests that run the library's operations against a small in-memory database.

use mangatracker::api::{all_manga_reply, manga_reply, AddManga, HttpStatus, UpdateManga, UpdateVolume};
use mangatracker::manga::{Init, SetVolumeCount};
use mangatracker::model::{MangaEntry, MangaResponse, MangaVolume, UpdateVolumeRequest};
use mangatracker::protocol::{Action, DbError, Progress, Reply};
use mangatracker::query::{AllResponses, BuildMangaData, CreateResponse};
use mangatracker::seed::SeedDb;

#[derive(Clone, Debug, PartialEq)]
struct MangaRow {
    id: i64,
    name: String,
    volume_count: i64,
    last_price: f64,
    cover: String,
}

#[derive(Clone, Debug, PartialEq)]
struct VolumeRow {
    manga_id: i64,
    volume_number: i64,
    owned: bool,
    bought_price: f64,
}

#[derive(Clone, Debug, Default, PartialEq)]
struct Tables {
    mangas: Vec<MangaRow>,
    volumes: Vec<VolumeRow>,
    next_id: i64,
}

#[derive(Default)]
struct FakeDb {
    tables: Tables,
    saved: Option<Tables>,
    files: Vec<String>,
    log: Vec<String>,
    fail_at: Option<usize>,
    steps: usize,
}

fn entry_of(row: &MangaRow) -> MangaEntry<f64> {
    MangaEntry::new(&row.name, row.volume_count, row.last_price, Some(row.cover.clone()))
}

impl FakeDb {
    fn new() -> Self {
        FakeDb { tables: Tables { next_id: 1, ..Tables::default() }, ..FakeDb::default() }
    }

    fn add_manga(&mut self, name: &str, volume_count: i64) -> i64 {
        let id = self.tables.next_id;
        self.tables.next_id += 1;
        self.tables.mangas.push(MangaRow { id, name: name.to_string(), volume_count, last_price: 0.0, cover: String::new() });
        for n in 1..=volume_count {
            self.tables.volumes.push(VolumeRow { manga_id: id, volume_number: n, owned: false, bought_price: 0.0 });
        }
        id
    }

    fn manga(&self, id: i64) -> &MangaRow {
        self.tables.mangas.iter().find(|m| m.id == id).unwrap()
    }

    fn volume_numbers(&self, manga_id: i64) -> Vec<i64> {
        self.tables.volumes.iter().filter(|v| v.manga_id == manga_id).map(|v| v.volume_number).collect()
    }

    fn owned(&self, manga_id: i64, number: i64) -> bool {
        self.tables.volumes.iter().any(|v| v.manga_id == manga_id && v.volume_number == number && v.owned)
    }

    fn perform(&mut self, action: Action<f64>) -> Reply<f64> {
        self.steps += 1;
        if self.fail_at == Some(self.steps) {
            self.log.push("failed".to_string());
            return Reply::Failed(DbError::Failure("disk full".to_string()));
        }
        let t = &mut self.tables;
        match action {
            Action::LookupMangaId { name } => match t.mangas.iter().find(|m| m.name == name) {
                Some(m) => Reply::MangaId(Some(m.id)),
                None => Reply::Failed(DbError::QueryReturnedNoRows),
            },
            Action::CheckMangaStored { name } => match t.mangas.iter().find(|m| m.name == name) {
                Some(_) => Reply::Found,
                None => Reply::Failed(DbError::QueryReturnedNoRows),
            },
            Action::UpdateManga { name, volume_count, last_price, cover_image_path } => {
                for m in t.mangas.iter_mut().filter(|m| m.name == name) {
                    m.volume_count = volume_count;
                    m.last_price = last_price;
                    m.cover = cover_image_path.clone().unwrap_or_default();
                }
                Reply::Done
            }
            Action::InsertManga { name, volume_count, last_price, cover_image_path } => {
                let id = t.next_id;
                t.next_id += 1;
                t.mangas.push(MangaRow { id, name, volume_count, last_price, cover: cover_image_path.unwrap_or_default() });
                Reply::Done
            }
            Action::UpdateMangaCover { id, new_path } => {
                for m in t.mangas.iter_mut().filter(|m| m.id == id) {
                    m.cover = new_path.clone();
                }
                Reply::Done
            }
            Action::UpdateMangaPrice { name, last_price } => {
                for m in t.mangas.iter_mut().filter(|m| m.name == name) {
                    m.last_price = last_price;
                }
                Reply::Done
            }
            Action::CountVolumes { manga_id } => {
                Reply::VolumeCount(t.volumes.iter().filter(|v| v.manga_id == manga_id).count() as i64)
            }
            Action::BeginTransaction => {
                self.saved = Some(t.clone());
                self.log.push("begin".to_string());
                Reply::Done
            }
            Action::PrepareVolumeInsert { .. } => Reply::Done,
            Action::InsertEmptyVolume { manga_id, volume_number, .. } => {
                t.volumes.push(VolumeRow { manga_id, volume_number, owned: false, bought_price: 0.0 });
                self.log.push(format!("insert {}", volume_number));
                Reply::Done
            }
            Action::DeleteVolumesAbove { manga_id, volume_number } => {
                t.volumes.retain(|v| !(v.manga_id == manga_id && v.volume_number > volume_number));
                self.log.push(format!("delete above {}", volume_number));
                Reply::Done
            }
            Action::UpdateVolumeCount { manga_id, volume_count } => {
                for m in t.mangas.iter_mut().filter(|m| m.id == manga_id) {
                    m.volume_count = volume_count;
                }
                Reply::Done
            }
            Action::CommitTransaction => {
                self.saved = None;
                self.log.push("commit".to_string());
                Reply::Done
            }
            Action::RollbackTransaction => {
                if let Some(saved) = self.saved.take() {
                    self.tables = saved;
                }
                self.log.push("rollback".to_string());
                Reply::Done
            }
            Action::LookupVolume { manga_id, volume_number } => {
                match t.volumes.iter().find(|v| v.manga_id == manga_id && v.volume_number == volume_number) {
                    Some(v) => Reply::Volume { owned: v.owned, bought_price: v.bought_price },
                    None => Reply::Failed(DbError::QueryReturnedNoRows),
                }
            }
            Action::CheckVolumeStored { manga_id, volume_number } => {
                if t.volumes.iter().any(|v| v.manga_id == manga_id && v.volume_number == volume_number) {
                    Reply::Found
                } else {
                    Reply::Failed(DbError::QueryReturnedNoRows)
                }
            }
            Action::UpdateVolume { manga_id, volume_number, owned, bought_price } => {
                for v in t.volumes.iter_mut().filter(|v| v.manga_id == manga_id && v.volume_number == volume_number) {
                    v.owned = owned;
                    v.bought_price = bought_price;
                }
                self.log.push(format!("update volume {}", volume_number));
                Reply::Done
            }
            Action::InsertVolume { manga_id, volume_number, owned, bought_price } => {
                t.volumes.push(VolumeRow { manga_id, volume_number, owned, bought_price });
                self.log.push(format!("insert volume {}", volume_number));
                Reply::Done
            }
            Action::LoadMangaById { id } => Reply::Manga(t.mangas.iter().find(|m| m.id == id).map(entry_of)),
            Action::LoadMangaByName { name } => Reply::Manga(t.mangas.iter().find(|m| m.name == name).map(entry_of)),
            Action::LoadAllMangas => Reply::Mangas(t.mangas.iter().map(entry_of).collect()),
            Action::LoadOwnedVolumes { manga_id } => Reply::Volumes(
                t.volumes
                    .iter()
                    .filter(|v| v.manga_id == manga_id && v.owned)
                    .map(|v| MangaVolume::new(v.owned, v.volume_number, manga_id, v.bought_price))
                    .collect(),
            ),
            Action::CheckCoverFile { file_name } => {
                self.log.push(format!("check cover {}", file_name));
                Reply::Exists(self.files.contains(&file_name))
            }
            Action::ReportError { .. } => {
                self.log.push("reported".to_string());
                Reply::Done
            }
            Action::ReportSkippedCheck => {
                self.log.push("skipped check".to_string());
                Reply::Done
            }
        }
    }

    fn drive<M, R>(&mut self, start: Progress<M, R, f64>, resume: impl Fn(M, Reply<f64>) -> Progress<M, R, f64>) -> R {
        let mut p = start;
        loop {
            match p {
                Progress::Finished(r) => return r,
                Progress::Perform(m, a) => {
                    let reply = self.perform(a);
                    p = resume(m, reply);
                }
            }
        }
    }
}

fn is_ok<T>(r: &Result<T, DbError>) -> bool {
    r.is_ok()
}

#[test]
fn init_stores_series_with_its_volumes_and_cover() {
    let mut db = FakeDb::new();
    db.files = vec!["death_note.png".to_string(), "death_note.webp".to_string()];
    let entry = MangaEntry::new("Death Note", 12, 10500.0, None);
    let (entry, result) = db.drive(entry.init(), |m: Init<f64>, r| m.resume(r));
    assert!(is_ok(&result));
    assert_eq!(entry.id, 1);
    let row = db.manga(1);
    assert_eq!(row.name, "Death Note");
    assert_eq!(row.volume_count, 12);
    assert_eq!(row.last_price, 10500.0);
    assert_eq!(row.cover, "death_note.png");
    assert_eq!(db.volume_numbers(1), (1..=12).collect::<Vec<i64>>());
    // the in-memory entry keeps the cover it was made with
    assert_eq!(entry.cover_path, None);
}

#[test]
fn init_leaves_existing_volumes_alone() {
    let mut db = FakeDb::new();
    db.add_manga("Nana", 3);
    let entry = MangaEntry::new("Nana", 21, 11000.0, None);
    let (_, result) = db.drive(entry.init(), |m: Init<f64>, r| m.resume(r));
    assert!(is_ok(&result));
    assert_eq!(db.volume_numbers(1), vec![1, 2, 3]);
    assert_eq!(db.manga(1).volume_count, 21);
    assert_eq!(db.manga(1).last_price, 11000.0);
    assert_eq!(db.tables.mangas.len(), 1);
}

#[test]
fn init_failure_inside_the_volume_transaction_rolls_back() {
    let mut db = FakeDb::new();
    // 1 check, 2 insert, 3 lookup id, 4 count, 5 begin, 6 prepare, 7 insert 1, 8 insert 2
    db.fail_at = Some(8);
    let entry = MangaEntry::new("Jigokuraku", 13, 0.0, None);
    let (_, result) = db.drive(entry.init(), |m: Init<f64>, r| m.resume(r));
    assert!(matches!(result, Err(DbError::Failure(_))));
    assert!(db.volume_numbers(1).is_empty());
    assert_eq!(db.log.last().unwrap(), "rollback");
}

#[test]
fn init_failed_commit_of_the_volumes_rolls_back() {
    let mut db = FakeDb::new();
    // 1 check, 2 insert, 3 lookup id, 4 count, 5 begin, 6 prepare, 7 insert 1, 8 insert 2, 9 commit
    db.fail_at = Some(9);
    let entry = MangaEntry::new("Jigokuraku", 2, 0.0, None);
    let (_, result) = db.drive(entry.init(), |m: Init<f64>, r| m.resume(r));
    assert!(matches!(result, Err(DbError::Failure(_))));
    assert!(db.volume_numbers(1).is_empty());
    assert_eq!(db.log[db.log.len() - 2..].to_vec(), vec!["failed", "rollback"]);
}

#[test]
fn init_checks_the_cover_files_in_order() {
    let mut db = FakeDb::new();
    db.files = vec!["nana.png".to_string()];
    let entry = MangaEntry::new("Nana", 1, 0.0, None);
    let (_, result) = db.drive(entry.init(), |m: Init<f64>, r| m.resume(r));
    assert!(is_ok(&result));
    let checks: Vec<String> = db.log.iter().filter(|l| l.starts_with("check cover")).cloned().collect();
    assert_eq!(checks, vec!["check cover nana.jpg", "check cover nana.jpeg", "check cover nana.png"]);
    assert_eq!(db.manga(1).cover, "nana.png");
}

#[test]
fn init_twice_changes_nothing_more() {
    let mut db = FakeDb::new();
    db.files = vec!["death_note.webp".to_string()];
    let (_, first) = db.drive(MangaEntry::new("Death Note", 3, 500.0, None).init(), |m: Init<f64>, r| m.resume(r));
    assert!(is_ok(&first));
    let after_first = db.tables.clone();
    let (_, second) = db.drive(MangaEntry::new("Death Note", 3, 500.0, None).init(), |m: Init<f64>, r| m.resume(r));
    assert!(is_ok(&second));
    assert_eq!(db.tables, after_first);
    assert_eq!(db.manga(1).cover, "death_note.webp");
}

#[test]
fn save_twice_changes_nothing_more() {
    let mut db = FakeDb::new();
    let (_, first) = db.drive(MangaEntry::new("Nana", 21, 700.0, Some("nana.jpg".to_string())).save(), |m, r| m.resume(r));
    assert!(is_ok(&first));
    let after_first = db.tables.clone();
    let (_, second) = db.drive(MangaEntry::new("Nana", 21, 700.0, Some("nana.jpg".to_string())).save(), |m, r| m.resume(r));
    assert!(is_ok(&second));
    assert_eq!(db.tables, after_first);
}

#[test]
fn failed_commit_of_a_count_change_rolls_back() {
    let mut db = FakeDb::new();
    db.add_manga("Gokinjo Monogatari", 5);
    // 1 lookup id, 2 begin, 3 prepare, 4 insert 6, 5 insert 7, 6 record count, 7 commit
    db.fail_at = Some(7);
    let entry = MangaEntry::new("Gokinjo Monogatari", 5, 0.0, None);
    let (entry, result) = db.drive(entry.set_volume_count(7), |m: SetVolumeCount<f64>, r| m.resume(r));
    assert!(matches!(result, Err(DbError::Failure(_))));
    assert_eq!(entry.volume_count, 5);
    assert_eq!(db.volume_numbers(1), (1..=5).collect::<Vec<i64>>());
    assert_eq!(db.manga(1).volume_count, 5);
    assert_eq!(db.log, vec!["begin", "insert 6", "insert 7", "failed", "rollback"]);
}

#[test]
fn failed_commit_of_a_shrink_keeps_the_volumes_and_the_cache() {
    let mut db = FakeDb::new();
    db.add_manga("Kagurabachi", 11);
    // 1 lookup id, 2 begin, 3 delete, 4 record count, 5 commit
    db.fail_at = Some(5);
    let mut entry = MangaEntry::new("Kagurabachi", 11, 0.0, None);
    entry.volumes.insert(10, MangaVolume::new(false, 10, 1, 0.0));
    let (entry, result) = db.drive(entry.set_volume_count(4), |m: SetVolumeCount<f64>, r| m.resume(r));
    assert!(matches!(result, Err(DbError::Failure(_))));
    assert_eq!(entry.volume_count, 11);
    assert_eq!(entry.volumes.len(), 1);
    assert_eq!(db.volume_numbers(1), (1..=11).collect::<Vec<i64>>());
    assert_eq!(db.manga(1).volume_count, 11);
}

#[test]
fn growing_the_volume_count_adds_the_missing_volumes() {
    let mut db = FakeDb::new();
    db.add_manga("Gokinjo Monogatari", 5);
    let entry = MangaEntry::new("Gokinjo Monogatari", 5, 0.0, None);
    let (entry, result) = db.drive(entry.set_volume_count(8), |m: SetVolumeCount<f64>, r| m.resume(r));
    assert!(is_ok(&result));
    assert_eq!(entry.volume_count, 8);
    assert_eq!(db.volume_numbers(1), (1..=8).collect::<Vec<i64>>());
    assert_eq!(db.manga(1).volume_count, 8);
    assert_eq!(db.log, vec!["begin", "insert 6", "insert 7", "insert 8", "commit"]);
}

#[test]
fn shrinking_the_volume_count_removes_the_extra_volumes() {
    let mut db = FakeDb::new();
    db.add_manga("Kagurabachi", 11);
    let mut entry = MangaEntry::new("Kagurabachi", 11, 0.0, None);
    entry.volumes.insert(2, MangaVolume::new(true, 2, 1, 0.0));
    entry.volumes.insert(10, MangaVolume::new(false, 10, 1, 0.0));
    let (entry, result) = db.drive(entry.set_volume_count(4), |m: SetVolumeCount<f64>, r| m.resume(r));
    assert!(is_ok(&result));
    assert_eq!(entry.volume_count, 4);
    assert_eq!(entry.volumes.len(), 1);
    assert_eq!(entry.volumes[&2].volume_number, 2);
    assert!(entry.volumes[&2].owned);
    assert_eq!(db.volume_numbers(1), vec![1, 2, 3, 4]);
    assert_eq!(db.log, vec!["begin", "delete above 4", "commit"]);
}

#[test]
fn unchanged_or_invalid_volume_counts_do_nothing() {
    let entry = MangaEntry::new("Nana", 21, 0.0, None);
    match entry.set_volume_count(21) {
        Progress::Finished((e, Ok(()))) => {
            assert_eq!(e.volume_count, 21);
            match e.set_volume_count(0) {
                Progress::Finished((e, Ok(()))) => assert_eq!(e.volume_count, 21),
                _ => panic!("a count below one must do nothing"),
            }
        }
        _ => panic!("the same count must do nothing"),
    }
}

#[test]
fn volume_count_of_an_unknown_series_is_an_error() {
    let mut db = FakeDb::new();
    let entry = MangaEntry::new("Unknown", 3, 0.0, None);
    let (_, result) = db.drive(entry.set_volume_count(5), |m: SetVolumeCount<f64>, r| m.resume(r));
    assert!(matches!(result, Err(DbError::QueryReturnedNoRows)));
}

#[test]
fn learned_id_is_not_looked_up_again() {
    let mut db = FakeDb::new();
    db.add_manga("Nana", 2);
    let entry = MangaEntry::new("Nana", 2, 0.0, None);
    let (entry, id) = db.drive(entry.get_id(), |m, r| m.resume(r));
    assert_eq!(id.unwrap(), Some(1));
    let before = db.steps;
    match entry.get_id() {
        Progress::Finished((_, Ok(Some(1)))) => {}
        _ => panic!("a learned id is answered at once"),
    }
    assert_eq!(db.steps, before);
}

#[test]
fn get_id_of_a_missing_series_is_none() {
    let mut db = FakeDb::new();
    let entry = MangaEntry::new("Nothing", 2, 0.0, None);
    let (entry, id) = db.drive(entry.get_id(), |m, r| m.resume(r));
    assert_eq!(id.unwrap(), None);
    assert_eq!(entry.id, 0);
}

#[test]
fn save_failure_of_the_check_is_reported_and_not_written() {
    let mut db = FakeDb::new();
    db.fail_at = Some(1);
    let entry = MangaEntry::new("Nana", 2, 0.0, None);
    let (_, result) = db.drive(entry.save(), |m, r| m.resume(r));
    assert!(is_ok(&result));
    assert!(db.tables.mangas.is_empty());
    assert_eq!(db.log, vec!["failed", "reported"]);
}

#[test]
fn update_metadata_writes_price_and_count() {
    let mut db = FakeDb::new();
    db.add_manga("Death Note", 12);
    let entry = MangaEntry::new("Death Note", 12, 0.0, None);
    let (entry, result) = db.drive(entry.update_metadata(13, 9990.0), |m, r| m.resume(r));
    assert!(is_ok(&result));
    assert_eq!(entry.last_price, 9990.0);
    assert_eq!(entry.volume_count, 13);
    assert_eq!(db.manga(1).last_price, 9990.0);
    assert_eq!(db.volume_numbers(1).len(), 13);
}

#[test]
fn add_manga_answers_with_the_new_series() {
    let mut db = FakeDb::new();
    let start = AddManga::start("Fullmetal Alchemist".to_string(), 3, 11000.0, Some("https://x/cover.jpg".to_string()));
    let result = db.drive(start, |m: AddManga<f64>, r| m.resume(r));
    let response: MangaResponse = result.unwrap();
    assert_eq!(response.id, 1);
    assert_eq!(response.name, "Fullmetal Alchemist");
    assert_eq!(response.volume_count, 3);
    assert!(response.owned_volumes.is_empty());
    assert_eq!(response.cover_image_path.as_deref(), Some("https://x/cover.jpg"));
    assert_eq!(db.volume_numbers(1), vec![1, 2, 3]);
}

#[test]
fn add_manga_refuses_a_stored_name() {
    let mut db = FakeDb::new();
    db.add_manga("Nana", 2);
    let start = AddManga::start("Nana".to_string(), 5, 0.0, None);
    let result = db.drive(start, |m: AddManga<f64>, r| m.resume(r));
    assert_eq!(result.err(), Some(HttpStatus::Conflict));
    assert_eq!(db.tables.mangas.len(), 1);
}

#[test]
fn update_volume_marks_a_volume_owned() {
    let mut db = FakeDb::new();
    db.add_manga("Nana", 4);
    let start = UpdateVolume::start(1, UpdateVolumeRequest { volume: 3, state: true });
    let result = db.drive(start, |m: UpdateVolume<f64>, r| m.resume(r));
    assert_eq!(result, Ok(HttpStatus::Success));
    assert!(db.owned(1, 3));
    assert!(!db.owned(1, 2));
    assert_eq!(db.log, vec!["update volume 3"]);
}

#[test]
fn update_volume_to_its_current_state_writes_nothing() {
    let mut db = FakeDb::new();
    db.add_manga("Nana", 4);
    let start = UpdateVolume::start(1, UpdateVolumeRequest { volume: 3, state: false });
    let result = db.drive(start, |m: UpdateVolume<f64>, r| m.resume(r));
    assert_eq!(result, Ok(HttpStatus::Success));
    assert!(db.log.is_empty());
}

#[test]
fn update_volume_of_an_unknown_series_is_not_found() {
    let mut db = FakeDb::new();
    let start = UpdateVolume::start(9, UpdateVolumeRequest { volume: 1, state: true });
    let result = db.drive(start, |m: UpdateVolume<f64>, r| m.resume(r));
    assert_eq!(result, Err(HttpStatus::NotFound));
}

#[test]
fn update_volume_of_a_missing_volume_is_an_internal_error() {
    let mut db = FakeDb::new();
    db.add_manga("Nana", 2);
    let start = UpdateVolume::start(1, UpdateVolumeRequest { volume: 7, state: true });
    let result = db.drive(start, |m: UpdateVolume<f64>, r| m.resume(r));
    assert_eq!(result, Err(HttpStatus::InternalServerError));
}

#[test]
fn update_manga_changes_price_and_count() {
    let mut db = FakeDb::new();
    db.add_manga("Death Note", 12);
    db.tables.volumes[0].owned = true;
    let start = UpdateManga::start(1, Some(10000.0), Some(10));
    let result = db.drive(start, |m: UpdateManga<f64>, r| m.resume(r));
    let response = result.unwrap();
    assert_eq!(response.volume_count, 10);
    assert_eq!(response.owned_volumes, vec![1]);
    assert_eq!(db.manga(1).last_price, 10000.0);
    assert_eq!(db.manga(1).volume_count, 10);
    assert_eq!(db.volume_numbers(1).len(), 10);
}

#[test]
fn update_manga_load_failure_is_a_teapot() {
    let mut db = FakeDb::new();
    db.fail_at = Some(1);
    let start = UpdateManga::start(1, None, Some(3));
    let result = db.drive(start, |m: UpdateManga<f64>, r| m.resume(r));
    assert_eq!(result.err(), Some(HttpStatus::ImATeapot));
}

#[test]
fn update_manga_of_an_unknown_series_is_not_found() {
    let mut db = FakeDb::new();
    let start = UpdateManga::start(1, None, None);
    let result = db.drive(start, |m: UpdateManga<f64>, r| m.resume(r));
    assert_eq!(result.err(), Some(HttpStatus::NotFound));
}

#[test]
fn build_manga_data_lists_owned_volumes() {
    let mut db = FakeDb::new();
    db.add_manga("Nana", 5);
    db.tables.volumes[1].owned = true;
    db.tables.volumes[4].owned = true;
    let result = db.drive(BuildMangaData::start(1), |m: BuildMangaData<f64>, r| m.resume(r));
    let response = manga_reply(result).unwrap();
    assert_eq!(response.id, 1);
    assert_eq!(response.name, "Nana");
    assert_eq!(response.owned_volumes, vec![2, 5]);
    assert_eq!(response.cover_image_path.as_deref(), Some(""));
}

#[test]
fn build_manga_data_of_an_unknown_id_is_not_found() {
    let mut db = FakeDb::new();
    let result = db.drive(BuildMangaData::start(4), |m: BuildMangaData<f64>, r| m.resume(r));
    assert!(matches!(result, Ok(None)));
    assert_eq!(manga_reply(result).err(), Some(HttpStatus::NotFound));
}

#[test]
fn failed_load_is_an_internal_error() {
    let mut db = FakeDb::new();
    db.fail_at = Some(1);
    let result = db.drive(BuildMangaData::start(4), |m: BuildMangaData<f64>, r| m.resume(r));
    assert_eq!(manga_reply(result).err(), Some(HttpStatus::InternalServerError));
}

#[test]
fn all_responses_follow_the_database_order() {
    let mut db = FakeDb::new();
    db.add_manga("Nana", 2);
    db.add_manga("Death Note", 3);
    db.tables.volumes[3].owned = true;
    let result = db.drive(AllResponses::start(), |m: AllResponses<f64>, r| m.resume(r));
    let all = all_manga_reply(result).unwrap();
    assert_eq!(all.len(), 2);
    assert_eq!(all[0].name, "Nana");
    assert_eq!(all[0].id, 1);
    assert!(all[0].owned_volumes.is_empty());
    assert_eq!(all[1].name, "Death Note");
    assert_eq!(all[1].id, 2);
    assert_eq!(all[1].owned_volumes, vec![2]);
}

#[test]
fn all_responses_of_an_empty_collection() {
    let mut db = FakeDb::new();
    let result = db.drive(AllResponses::start(), |m: AllResponses<f64>, r| m.resume(r));
    assert_eq!(all_manga_reply(result).unwrap().len(), 0);
}

#[test]
fn create_response_without_id_is_an_unwinding_panic() {
    let mut db = FakeDb::new();
    let entry = MangaEntry::new("Ghost", 1, 0.0, None);
    let (_, result) = db.drive(CreateResponse::start(entry), |m: CreateResponse<f64>, r| m.resume(r));
    assert!(matches!(result, Err(DbError::UnwindingPanic)));
}

#[test]
fn seeding_initializes_every_series_in_order() {
    let mut db = FakeDb::new();
    let entries = vec![
        MangaEntry::new("Kagurabachi", 11, 0.0, None),
        MangaEntry::new("Nana", 21, 11000.0, None),
        MangaEntry::new("Death Note", 12, 10500.0, None),
    ];
    let result = db.drive(SeedDb::start(entries), |m: SeedDb<f64>, r| m.resume(r));
    assert!(is_ok(&result));
    let names: Vec<&str> = db.tables.mangas.iter().map(|m| m.name.as_str()).collect();
    assert_eq!(names, vec!["Kagurabachi", "Nana", "Death Note"]);
    assert_eq!(db.volume_numbers(2).len(), 21);
    assert_eq!(db.tables.volumes.len(), 44);
}

#[test]
fn seeding_twice_adds_nothing_new() {
    let mut db = FakeDb::new();
    let make = || vec![MangaEntry::new("Nana", 2, 0.0, None), MangaEntry::new("Death Note", 3, 0.0, None)];
    let first = db.drive(SeedDb::start(make()), |m: SeedDb<f64>, r| m.resume(r));
    assert!(is_ok(&first));
    let second = db.drive(SeedDb::start(make()), |m: SeedDb<f64>, r| m.resume(r));
    assert!(is_ok(&second));
    assert_eq!(db.tables.mangas.len(), 2);
    assert_eq!(db.tables.volumes.len(), 5);
}

#[test]
fn seeding_stops_at_the_first_failure() {
    let mut db = FakeDb::new();
    db.fail_at = Some(2);
    let entries = vec![MangaEntry::new("Nana", 2, 0.0, None), MangaEntry::new("Death Note", 3, 0.0, None)];
    let result = db.drive(SeedDb::start(entries), |m: SeedDb<f64>, r| m.resume(r));
    assert!(matches!(result, Err(DbError::Failure(_))));
    assert!(db.tables.mangas.is_empty());
}

#[test]
fn an_inserted_volume_is_known_to_be_stored() {
    let mut db = FakeDb::new();
    let volume = MangaVolume::new(true, 9, 1, 5.0);
    let (volume, first) = db.drive(volume.store(), |m, r| m.resume(r));
    assert_eq!(first.unwrap(), true);
    assert!(volume.stored_state);
    let (volume, second) = db.drive(volume.store(), |m, r| m.resume(r));
    assert_eq!(second.unwrap(), true);
    assert!(volume.owned);
    assert_eq!(db.log, vec!["insert volume 9", "skipped check", "update volume 9"]);
    assert_eq!(db.tables.volumes.len(), 1);
}

#[test]
fn set_owned_stores_the_new_state_once() {
    let mut db = FakeDb::new();
    db.add_manga("Nana", 2);
    let volume = MangaVolume::new(false, 2, 1, 0.0);
    let (volume, result) = db.drive(volume.set_owned(true), |m, r| m.resume(r));
    assert!(is_ok(&result));
    assert!(volume.owned);
    assert!(db.owned(1, 2));
    let before = db.steps;
    match volume.set_owned(true) {
        Progress::Finished((v, Ok(()))) => assert!(v.owned),
        _ => panic!("the same state asks nothing"),
    }
    assert_eq!(db.steps, before);
}

#[test]
fn get_volume_loads_once_and_then_answers_from_the_cache() {
    let mut db = FakeDb::new();
    db.add_manga("Nana", 4);
    db.tables.volumes[2].owned = true;
    let entry = MangaEntry::new("Nana", 4, 0.0, None);
    let (entry, first) = db.drive(entry.get_volume(3), |m, r| m.resume(r));
    assert_eq!(first.unwrap(), 3);
    assert_eq!(entry.volumes.len(), 1);
    assert_eq!(entry.volumes[&3].volume_number, 3);
    assert!(entry.volumes[&3].owned);
    let before = db.steps;
    let (entry, second) = db.drive(entry.get_volume(3), |m, r| m.resume(r));
    assert_eq!(second.unwrap(), 3);
    assert_eq!(entry.volumes.len(), 1);
    assert_eq!(db.steps, before);
    let (entry, other) = db.drive(entry.get_volume(1), |m, r| m.resume(r));
    assert_eq!(other.unwrap(), 1);
    assert!(!entry.volumes[&1].owned);
    let mut numbers: Vec<i64> = entry.volumes.keys().copied().collect();
    numbers.sort();
    assert_eq!(numbers, vec![1, 3]);
}

#[test]
fn set_owned_through_get_volume_updates_the_cache() {
    let mut db = FakeDb::new();
    db.add_manga("Nana", 4);
    let entry = MangaEntry::new("Nana", 4, 0.0, None);
    let (entry, found) = db.drive(entry.get_volume(2), |m, r| m.resume(r));
    let n = found.unwrap();
    let (entry, result) = db.drive(entry.set_cached_owned(n, true), |m, r| m.resume(r));
    assert!(is_ok(&result));
    assert!(db.owned(1, 2));
    assert!(entry.volumes[&2].owned);
    assert!(entry.volumes[&2].stored_state);
    // a later get_volume sees the new state, from the cache
    let before = db.steps;
    let (entry, again) = db.drive(entry.get_volume(2), |m, r| m.resume(r));
    assert_eq!(again.unwrap(), 2);
    assert!(entry.volumes[&2].owned);
    assert_eq!(db.steps, before);
    // setting the state it already has asks nothing
    let (entry, same) = db.drive(entry.set_cached_owned(2, true), |m, r| m.resume(r));
    assert!(is_ok(&same));
    assert_eq!(db.steps, before);
    assert!(entry.volumes[&2].owned);
}

#[test]
fn get_volume_of_a_missing_row_leaves_the_cache_alone() {
    let mut db = FakeDb::new();
    db.add_manga("Nana", 2);
    let entry = MangaEntry::new("Nana", 2, 0.0, None);
    let (entry, result) = db.drive(entry.get_volume(9), |m, r| m.resume(r));
    assert!(matches!(result, Err(DbError::QueryReturnedNoRows)));
    assert!(entry.volumes.is_empty());
}

#[test]
fn volume_rows_stay_one_to_the_count_through_count_changes() {
    let mut db = FakeDb::new();
    db.add_manga("Kagurabachi", 3);
    let entry = MangaEntry::new("Kagurabachi", 3, 0.0, None);
    let (entry, r1) = db.drive(entry.set_volume_count(6), |m: SetVolumeCount<f64>, r| m.resume(r));
    assert!(is_ok(&r1));
    assert_eq!(db.volume_numbers(1), (1..=6).collect::<Vec<i64>>());
    // a failure in the middle of the next change leaves the rows as they were
    db.fail_at = Some(db.steps + 3);
    let (entry, r2) = db.drive(entry.set_volume_count(2), |m: SetVolumeCount<f64>, r| m.resume(r));
    assert!(r2.is_err());
    assert_eq!(entry.volume_count, 6);
    assert_eq!(db.volume_numbers(1), (1..=6).collect::<Vec<i64>>());
    assert_eq!(db.manga(1).volume_count, 6);
    db.fail_at = None;
    let (entry, r3) = db.drive(entry.set_volume_count(2), |m: SetVolumeCount<f64>, r| m.resume(r));
    assert!(is_ok(&r3));
    assert_eq!(entry.volume_count, 2);
    assert_eq!(db.volume_numbers(1), vec![1, 2]);
    assert_eq!(db.manga(1).volume_count, 2);
}

#[test]
fn update_manga_whose_count_change_fails_writes_nothing() {
    let mut db = FakeDb::new();
    db.add_manga("Death Note", 12);
    let before = db.tables.clone();
    // 1 load, 2 lookup id, 3 begin, 4 delete, 5 record count, 6 commit
    db.fail_at = Some(6);
    let start = UpdateManga::start(1, Some(10000.0), Some(10));
    let result = db.drive(start, |m: UpdateManga<f64>, r| m.resume(r));
    assert!(matches!(result, Err(HttpStatus::InternalServerError)));
    assert_eq!(db.tables, before);
    assert_eq!(db.manga(1).last_price, 0.0);
    assert!(db.saved.is_none());
}
