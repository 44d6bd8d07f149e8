// Tests of the library's pure functions: cover lookup, text matching, MangaDex selection.

use mangatracker::api::{all_manga_reply, manga_reply, HttpStatus};
use mangatracker::cover::{cover_slug_of, find_cover_for};
use mangatracker::manga::GetId;
use mangatracker::mangadex::{search_query, search_url, select_cover_url, user_agent, CoverAttributes, MangaAttributes, MangaData, Relationship, SearchResponse};
use mangatracker::model::{MangaEntry, MangaResponse, MangaVolume};
use mangatracker::protocol::{cover_path_text, Action, DbError, Progress, Reply};
use mangatracker::query::owned_volume_numbers;
use mangatracker::text::{chars_of, contains_word, same_ignoring_case_at, trimmed_chars};

fn files(names: &[&str]) -> Vec<String> {
    names.iter().map(|s| s.to_string()).collect()
}

fn chars(s: &str) -> Vec<char> {
    s.chars().collect()
}

/// Runs the cover search of `name`, answering each check by whether `present` holds the
/// file; gives the cover found and the file names checked, in order.
fn search_cover(name: &str, present: &[String]) -> (Option<String>, Vec<String>) {
    let mut checked = Vec::new();
    let mut p = find_cover_for::<f64>(name);
    loop {
        match p {
            Progress::Perform(find, Action::CheckCoverFile { file_name }) => {
                let here = present.contains(&file_name);
                checked.push(file_name);
                p = find.resume(Reply::Exists(here));
            }
            Progress::Perform(_, _) => panic!("the cover search asks only about files"),
            Progress::Finished(found) => return (found, checked),
        }
    }
}

#[test]
fn find_cover_for_prefers_the_first_extension_present() {
    let present = files(&["death_note.webp", "death_note.png", "nana.jpg"]);
    assert_eq!(search_cover("Death Note", &present).0, Some("death_note.png".to_string()));
    let present = files(&["death_note.webp", "death_note.jpg"]);
    assert_eq!(search_cover("Death Note", &present).0, Some("death_note.jpg".to_string()));
    assert_eq!(search_cover("Kagurabachi", &files(&["kagurabachi.jpeg"])).0, Some("kagurabachi.jpeg".to_string()));
    assert_eq!(search_cover("Kagurabachi", &files(&["kagurabachi.webp"])).0, Some("kagurabachi.webp".to_string()));
}

#[test]
fn find_cover_for_without_matching_file() {
    assert_eq!(search_cover("Nana", &files(&["nana.gif", "Nana.jpg", "nana"])).0, None);
    assert_eq!(search_cover("Nana", &Vec::new()).0, None);
}

#[test]
fn cover_search_checks_the_extensions_in_order_and_stops_at_the_first_present() {
    let (found, checked) = search_cover("Death Note", &files(&["death_note.png", "death_note.webp"]));
    assert_eq!(found, Some("death_note.png".to_string()));
    assert_eq!(checked, files(&["death_note.jpg", "death_note.jpeg", "death_note.png"]));
    let (found, checked) = search_cover("Nana", &[]);
    assert_eq!(found, None);
    assert_eq!(checked, files(&["nana.jpg", "nana.jpeg", "nana.png", "nana.webp"]));
}

#[test]
fn cover_search_asks_about_the_whole_relative_path() {
    // a name with a slash names a file in a subfolder of the cover folder
    let (found, checked) = search_cover("Fate/Zero", &files(&["fate/zero.jpeg"]));
    assert_eq!(found, Some("fate/zero.jpeg".to_string()));
    assert_eq!(checked[0], "fate/zero.jpg");
}

#[test]
fn cover_search_takes_any_other_answer_as_absent() {
    let mut p = find_cover_for::<f64>("Nana");
    let mut asked = 0;
    while let Progress::Perform(find, _) = p {
        asked += 1;
        p = find.resume(Reply::Failed(DbError::UnexpectedReply));
    }
    assert_eq!(asked, 4);
    assert!(matches!(p, Progress::Finished(None)));
}

#[test]
fn cover_slug_lowercases_and_underscores() {
    assert_eq!(cover_slug_of("Fullmetal Alchemist"), "fullmetal_alchemist");
    assert_eq!(cover_slug_of("Gokinjo  Monogatari"), "gokinjo__monogatari");
    assert_eq!(cover_slug_of("ÉCOLE Ω"), "école_ω");
}

#[test]
fn chars_and_trim() {
    assert_eq!(chars_of("añb"), vec!['a', 'ñ', 'b']);
    assert_eq!(trimmed_chars(&chars("  Death Note \t\n")), chars("Death Note"));
    assert_eq!(trimmed_chars(&chars(" \u{3000} ")), Vec::<char>::new());
    assert_eq!(trimmed_chars(&chars("x")), chars("x"));
}

#[test]
fn ascii_case_is_ignored_and_nothing_else() {
    assert!(same_ignoring_case_at(&chars("xxNaNAxx"), 2, 6, &chars("nana")));
    assert!(!same_ignoring_case_at(&chars("Nana"), 0, 4, &chars("nan")));
    assert!(!same_ignoring_case_at(&chars("École"), 0, 5, &chars("école")));
    assert!(same_ignoring_case_at(&chars("ÉCOLE"), 0, 5, &chars("École")));
}

#[test]
fn words_are_split_at_non_alphanumeric_characters() {
    assert!(contains_word(&chars("Death Note: Another Note"), &chars("note")));
    assert!(contains_word(&chars("Nana-Chan"), &chars("NANA")));
    assert!(!contains_word(&chars("Nanami"), &chars("nana")));
    assert!(contains_word(&chars("a--b"), &chars("")));
    assert!(!contains_word(&chars("ab"), &chars("")));
    assert!(contains_word(&chars(""), &chars("")));
}

fn titles(pairs: &[(&str, &str)]) -> Vec<(String, String)> {
    pairs.iter().map(|(l, t)| (l.to_string(), t.to_string())).collect()
}

fn manga(id: &str, title: &[(&str, &str)], alt: Vec<Vec<(String, String)>>, cover: Option<&str>) -> MangaData {
    let mut relationships = vec![Relationship { id: "a1".to_string(), rel_type: "author".to_string(), attributes: None }];
    if let Some(c) = cover {
        relationships.push(Relationship {
            id: "c1".to_string(),
            rel_type: "cover_art".to_string(),
            attributes: Some(CoverAttributes { file_name: Some(c.to_string()) }),
        });
    }
    MangaData {
        id: id.to_string(),
        manga_type: "manga".to_string(),
        attributes: MangaAttributes { title: titles(title), alt_titles: alt },
        relationships,
    }
}

#[test]
fn exact_title_wins_over_an_earlier_word_match() {
    let search = SearchResponse {
        data: vec![
            manga("m1", &[("en", "Nana to Kaoru")], vec![], Some("kaoru.jpg")),
            manga("m2", &[("ja", "NANA")], vec![], Some("nana.jpg")),
        ],
    };
    assert_eq!(
        select_cover_url(&search, "  nana "),
        Some("https://uploads.mangadex.org/covers/m2/nana.jpg".to_string())
    );
}

#[test]
fn names_equal_up_to_spaces_and_ascii_case_get_the_same_cover() {
    let search = SearchResponse {
        data: vec![
            manga("m1", &[("en", "Nana to Kaoru")], vec![], Some("kaoru.jpg")),
            manga("m2", &[("ja", "NANA")], vec![], Some("nana.jpg")),
        ],
    };
    let a = select_cover_url(&search, "Nana");
    assert_eq!(a, select_cover_url(&search, "\tnAnA  "));
    assert_eq!(a, select_cover_url(&search, "NANA"));
    assert_eq!(a, Some("https://uploads.mangadex.org/covers/m2/nana.jpg".to_string()));
}

#[test]
fn alternative_titles_count_as_exact_matches() {
    let search = SearchResponse {
        data: vec![
            manga("m1", &[("en", "Hell's Paradise")], vec![titles(&[("ja-ro", " Jigokuraku ")])], Some("j.png")),
        ],
    };
    assert_eq!(select_cover_url(&search, "jigokuraku"), Some("https://uploads.mangadex.org/covers/m1/j.png".to_string()));
}

#[test]
fn word_match_is_used_when_no_title_is_exact() {
    let search = SearchResponse {
        data: vec![
            manga("m1", &[("en", "Something Else")], vec![], Some("x.png")),
            manga("m2", &[("en", "Nana: the anime")], vec![], Some("y.png")),
        ],
    };
    assert_eq!(select_cover_url(&search, "Nana"), Some("https://uploads.mangadex.org/covers/m2/y.png".to_string()));
}

#[test]
fn no_match_or_no_cover_gives_none() {
    let search = SearchResponse { data: vec![manga("m1", &[("en", "Bleach")], vec![], Some("b.png"))] };
    assert_eq!(select_cover_url(&search, "Nana"), None);
    let search = SearchResponse { data: vec![manga("m1", &[("en", "Nana")], vec![], None)] };
    assert_eq!(select_cover_url(&search, "Nana"), None);
    assert_eq!(select_cover_url(&SearchResponse { data: vec![] }, "Nana"), None);
}

#[test]
fn only_the_first_cover_art_relationship_counts() {
    let mut m = manga("m1", &[("en", "Nana")], vec![], None);
    m.relationships.push(Relationship { id: "c0".to_string(), rel_type: "cover_art".to_string(), attributes: None });
    m.relationships.push(Relationship {
        id: "c1".to_string(),
        rel_type: "cover_art".to_string(),
        attributes: Some(CoverAttributes { file_name: Some("late.png".to_string()) }),
    });
    assert_eq!(select_cover_url(&SearchResponse { data: vec![m] }, "Nana"), None);
}

#[test]
fn search_query_asks_for_twenty_followed_series_with_covers() {
    let q = search_query("Death Note");
    let expect = vec![
        ("title", "Death Note"),
        ("limit", "20"),
        ("includes[]", "cover_art"),
        ("order[followedCount]", "desc"),
    ];
    assert_eq!(q.len(), 4);
    for (got, want) in q.iter().zip(expect.iter()) {
        assert_eq!(got.0, want.0);
        assert_eq!(got.1, want.1);
    }
    assert_eq!(search_url(), "https://api.mangadex.org/manga");
    assert_eq!(user_agent(), "MyMangaApp/1.0");
}

#[test]
fn owned_volume_numbers_keep_order() {
    let v = vec![MangaVolume::new(true, 4, 1, 0.0), MangaVolume::new(true, 2, 1, 9.5)];
    assert_eq!(owned_volume_numbers(&v), vec![4, 2]);
}

#[test]
fn new_entry_and_price_edit() {
    let mut e = MangaEntry::new("Nana", 21, 11000.0, None);
    assert_eq!(e.name, "Nana");
    assert_eq!(e.id, 0);
    assert!(e.volumes.is_empty());
    e.edit_last_price(9000.0);
    assert_eq!(e.last_price, 9000.0);
    assert_eq!(e.volume_count, 21);
}

#[test]
fn get_id_asks_by_name_and_passes_errors_on() {
    let e = MangaEntry::new("Nana", 2, 0.0, None);
    let lookup: GetId<f64> = match e.get_id() {
        Progress::Perform(m, Action::LookupMangaId { name }) => {
            assert_eq!(name, "Nana");
            m
        }
        _ => panic!("an unknown id is looked up by name"),
    };
    match lookup.resume(Reply::Failed(DbError::Failure("locked".to_string()))) {
        Progress::Finished((_, Err(DbError::Failure(m)))) => assert_eq!(m, "locked"),
        _ => panic!("other failures are passed on"),
    }
}

#[test]
fn an_unexpected_reply_is_an_error() {
    let e = MangaEntry::new("Nana", 2, 0.0, None);
    let lookup = match e.get_id() {
        Progress::Perform(m, _) => m,
        _ => panic!(),
    };
    match lookup.resume(Reply::Done) {
        Progress::Finished((_, Err(DbError::UnexpectedReply))) => {}
        _ => panic!("a reply of the wrong kind is refused"),
    }
}

#[test]
fn reply_mappings() {
    let r = MangaResponse { id: 3, name: "Nana".to_string(), volume_count: 2, owned_volumes: vec![1], cover_image_path: None };
    assert_eq!(manga_reply(Ok(Some(r))).unwrap().id, 3);
    assert_eq!(manga_reply(Err(DbError::QueryReturnedNoRows)).err(), Some(HttpStatus::InternalServerError));
    assert_eq!(all_manga_reply(Ok(vec![])).unwrap().len(), 0);
    assert_eq!(all_manga_reply(Err(DbError::UnwindingPanic)).err(), Some(HttpStatus::InternalServerError));
}

#[test]
fn missing_cover_is_written_as_empty_text() {
    assert_eq!(cover_path_text(&None), "");
    assert_eq!(cover_path_text(&Some("nana.jpg".to_string())), "nana.jpg");
}

#[test]
fn trimming_removes_exactly_the_unicode_white_space() {
    assert_eq!(trimmed_chars(&chars("\u{3000}\u{85}Nana\u{A0}\u{2029}\t")), chars("Nana"));
    // U+180E (Mongolian vowel separator) is not white space
    assert_eq!(trimmed_chars(&chars("\u{180E}Nana")), chars("\u{180E}Nana"));
    assert_eq!(trimmed_chars(&chars(" \u{200A} ")), Vec::<char>::new());
}
