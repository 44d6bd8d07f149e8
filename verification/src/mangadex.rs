use crate::text::{chars_of, contains_word, has_word, same_ignoring_ascii_case, same_ignoring_case_at, trimmed, trimmed_chars};
use vstd::prelude::*;
use vstd::string::StringExecFns;

verus! {

/// A page of search results from the MangaDex API.
pub struct SearchResponse {
    pub data: Vec<MangaData>,
}

/// One series found by a MangaDex search.
pub struct MangaData {
    pub id: String,
    /// The JSON field `type`.
    pub manga_type: String,
    pub attributes: MangaAttributes,
    pub relationships: Vec<Relationship>,
}

/// The titles of a series: each a (language, title) pair.
pub struct MangaAttributes {
    pub title: Vec<(String, String)>,
    pub alt_titles: Vec<Vec<(String, String)>>,
}

/// Something a series is related to; its cover art among others.
pub struct Relationship {
    pub id: String,
    pub rel_type: String,
    pub attributes: Option<CoverAttributes>,
}

/// The attributes of a cover art relationship.
pub struct CoverAttributes {
    pub file_name: Option<String>,
}

/// The address the series search is sent to.
pub fn search_url() -> (r: &'static str)
    ensures
        r@ == "https://api.mangadex.org/manga"@,
{
    "https://api.mangadex.org/manga"
}

/// The User-Agent the series search is sent with.
pub fn user_agent() -> (r: &'static str)
    ensures
        r@ == "MyMangaApp/1.0"@,
{
    "MyMangaApp/1.0"
}

/// The query of the search for `manga_name`: the twenty series whose title matches,
/// most followed first, with their cover art.
pub fn search_query(manga_name: &str) -> (r: Vec<(String, String)>)
    ensures
        r.deep_view() == seq![
            ("title"@, manga_name@),
            ("limit"@, "20"@),
            ("includes[]"@, "cover_art"@),
            ("order[followedCount]"@, "desc"@),
        ],
{
    let mut q: Vec<(String, String)> = Vec::new();
    q.push((String::from_str("title"), String::from_str(manga_name)));
    q.push((String::from_str("limit"), String::from_str("20")));
    q.push((String::from_str("includes[]"), String::from_str("cover_art")));
    q.push((String::from_str("order[followedCount]"), String::from_str("desc")));
    assert(q.deep_view() =~= seq![
        ("title"@, manga_name@),
        ("limit"@, "20"@),
        ("includes[]"@, "cover_art"@),
        ("order[followedCount]"@, "desc"@),
    ]);
    q
}

/// Some title among `titles`, trimmed, equals `target` up to the case of ASCII letters.
pub open spec fn has_exact_title(titles: Seq<(Seq<char>, Seq<char>)>, target: Seq<char>) -> bool {
    exists|i: int| 0 <= i < titles.len() && same_ignoring_ascii_case(trimmed(#[trigger] titles[i].1), target)
}

/// Some title among `titles` has a word equal to `target` up to the case of ASCII letters.
pub open spec fn has_title_word(titles: Seq<(Seq<char>, Seq<char>)>, target: Seq<char>) -> bool {
    exists|i: int| 0 <= i < titles.len() && has_word(#[trigger] titles[i].1, target)
}

/// The series' title or one of its alternative titles is `target`.
#[verifier::opaque]
pub open spec fn matches_exactly(manga: MangaData, target: Seq<char>) -> bool {
    ||| has_exact_title(manga.attributes.title.deep_view(), target)
    ||| exists|j: int| 0 <= j < manga.attributes.alt_titles@.len()
            && has_exact_title(#[trigger] manga.attributes.alt_titles.deep_view()[j], target)
}

/// A word of the series' title or of one of its alternative titles is `target`.
#[verifier::opaque]
pub open spec fn matches_by_word(manga: MangaData, target: Seq<char>) -> bool {
    ||| has_title_word(manga.attributes.title.deep_view(), target)
    ||| exists|j: int| 0 <= j < manga.attributes.alt_titles@.len()
            && has_title_word(#[trigger] manga.attributes.alt_titles.deep_view()[j], target)
}

/// The first series that matches `target` exactly, else the first that has it as a word.
pub open spec fn chosen_manga(data: Seq<MangaData>, target: Seq<char>) -> Option<int> {
    if exists|i: int| 0 <= i < data.len() && matches_exactly(#[trigger] data[i], target) {
        Some(choose|i: int| 0 <= i < data.len() && matches_exactly(#[trigger] data[i], target)
            && forall|k: int| 0 <= k < i ==> !matches_exactly(#[trigger] data[k], target))
    } else if exists|i: int| 0 <= i < data.len() && matches_by_word(#[trigger] data[i], target) {
        Some(choose|i: int| 0 <= i < data.len() && matches_by_word(#[trigger] data[i], target)
            && forall|k: int| 0 <= k < i ==> !matches_by_word(#[trigger] data[k], target))
    } else {
        None
    }
}

/// The file name of the first cover art relationship, if that one has one.
pub open spec fn cover_file(relationships: Seq<Relationship>) -> Option<Seq<char>> {
    if exists|k: int| 0 <= k < relationships.len() && (#[trigger] relationships[k]).rel_type@ == "cover_art"@ {
        let k = choose|k: int| 0 <= k < relationships.len() && (#[trigger] relationships[k]).rel_type@ == "cover_art"@
            && forall|m: int| 0 <= m < k ==> (#[trigger] relationships[m]).rel_type@ != "cover_art"@;
        match relationships[k].attributes {
            Some(a) => match a.file_name {
                Some(f) => Some(f@),
                None => None,
            },
            None => None,
        }
    } else {
        None
    }
}

/// The cover URL picked among the search results `data` for the name `target`.
pub open spec fn cover_url(data: Seq<MangaData>, target: Seq<char>) -> Option<Seq<char>> {
    match chosen_manga(data, target) {
        Some(i) => match cover_file(data[i].relationships@) {
            Some(f) => Some("https://uploads.mangadex.org/covers/"@ + data[i].id@ + "/"@ + f),
            None => None,
        },
        None => None,
    }
}

fn title_is(title: &String, target: &Vec<char>) -> (r: bool)
    ensures
        r == same_ignoring_ascii_case(trimmed(title@), target@),
{
    let t = trimmed_chars(&chars_of(title.as_str()));
    let r = same_ignoring_case_at(&t, 0, t.len(), target);
    assert(t@.subrange(0, t@.len() as int) == t@);
    r
}

fn titles_match_exactly(titles: &Vec<(String, String)>, target: &Vec<char>) -> (r: bool)
    ensures
        r == has_exact_title(titles.deep_view(), target@),
{
    let n = titles.len();
    for i in 0..n
        invariant
            n == titles.len(),
            forall|k: int| 0 <= k < i ==> !same_ignoring_ascii_case(trimmed(#[trigger] titles.deep_view()[k].1), target@),
    {
        let found = title_is(&titles[i].1, target);
        assert(titles.deep_view()[i as int].1 == titles@[i as int].1@);
        if found {
            return true;
        }
    }
    false
}

fn titles_have_word(titles: &Vec<(String, String)>, target: &Vec<char>) -> (r: bool)
    ensures
        r == has_title_word(titles.deep_view(), target@),
{
    let n = titles.len();
    for i in 0..n
        invariant
            n == titles.len(),
            forall|k: int| 0 <= k < i ==> !has_word(#[trigger] titles.deep_view()[k].1, target@),
    {
        if contains_word(&chars_of(titles[i].1.as_str()), target) {
            assert(has_word(titles.deep_view()[i as int].1, target@));
            return true;
        }
    }
    false
}

fn manga_matches_exactly(manga: &MangaData, target: &Vec<char>) -> (r: bool)
    ensures
        r == matches_exactly(*manga, target@),
{
    reveal(matches_exactly);
    if titles_match_exactly(&manga.attributes.title, target) {
        return true;
    }
    let alts = &manga.attributes.alt_titles;
    let n = alts.len();
    for j in 0..n
        invariant
            n == alts.len(),
            alts == &manga.attributes.alt_titles,
            forall|k: int| 0 <= k < j ==> !has_exact_title(#[trigger] alts.deep_view()[k], target@),
    {
        if titles_match_exactly(&alts[j], target) {
            assert(has_exact_title(alts.deep_view()[j as int], target@));
            proof {
                reveal(matches_exactly);
            }
            return true;
        }
    }
    false
}

fn manga_matches_by_word(manga: &MangaData, target: &Vec<char>) -> (r: bool)
    ensures
        r == matches_by_word(*manga, target@),
{
    reveal(matches_by_word);
    if titles_have_word(&manga.attributes.title, target) {
        return true;
    }
    let alts = &manga.attributes.alt_titles;
    let n = alts.len();
    for j in 0..n
        invariant
            n == alts.len(),
            alts == &manga.attributes.alt_titles,
            forall|k: int| 0 <= k < j ==> !has_title_word(#[trigger] alts.deep_view()[k], target@),
    {
        if titles_have_word(&alts[j], target) {
            assert(has_title_word(alts.deep_view()[j as int], target@));
            proof {
                reveal(matches_by_word);
            }
            return true;
        }
    }
    false
}

fn choose_manga(data: &Vec<MangaData>, target: &Vec<char>) -> (r: Option<usize>)
    ensures
        match r {
            Some(i) => i < data.len() && chosen_manga(data@, target@) == Some(i as int),
            None => chosen_manga(data@, target@) is None,
        },
{
    let n = data.len();
    let mut exact: Option<usize> = None;
    for i in 0..n
        invariant
            n == data.len(),
            forall|k: int| 0 <= k < i ==> !matches_exactly(#[trigger] data@[k], target@),
    {
        if manga_matches_exactly(&data[i], target) {
            proof {
                let c = choose|c: int| 0 <= c < data@.len() && matches_exactly(#[trigger] data@[c], target@)
                    && forall|k: int| 0 <= k < c ==> !matches_exactly(#[trigger] data@[k], target@);
                if c > i {
                    assert(matches_exactly(data@[i as int], target@));
                }
            }
            return Some(i);
        }
    }
    for i in 0..n
        invariant
            n == data.len(),
            forall|k: int| 0 <= k < n ==> !matches_exactly(#[trigger] data@[k], target@),
            forall|k: int| 0 <= k < i ==> !matches_by_word(#[trigger] data@[k], target@),
    {
        if manga_matches_by_word(&data[i], target) {
            proof {
                let c = choose|c: int| 0 <= c < data@.len() && matches_by_word(#[trigger] data@[c], target@)
                    && forall|k: int| 0 <= k < c ==> !matches_by_word(#[trigger] data@[k], target@);
                if c > i {
                    assert(matches_by_word(data@[i as int], target@));
                }
            }
            return Some(i);
        }
    }
    None
}

fn find_cover_file(relationships: &Vec<Relationship>) -> (r: Option<String>)
    ensures
        match r {
            Some(f) => cover_file(relationships@) == Some(f@),
            None => cover_file(relationships@) is None,
        },
{
    let cover_art = String::from_str("cover_art");
    let n = relationships.len();
    for k in 0..n
        invariant
            n == relationships.len(),
            cover_art@ == "cover_art"@,
            forall|m: int| 0 <= m < k ==> (#[trigger] relationships@[m]).rel_type@ != "cover_art"@,
    {
        if relationships[k].rel_type == cover_art {
            proof {
                let c = choose|c: int| 0 <= c < relationships@.len() && (#[trigger] relationships@[c]).rel_type@ == "cover_art"@
                    && forall|m: int| 0 <= m < c ==> (#[trigger] relationships@[m]).rel_type@ != "cover_art"@;
                if c > k {
                    assert(relationships@[k as int].rel_type@ == "cover_art"@);
                }
            }
            return match &relationships[k].attributes {
                Some(a) => match &a.file_name {
                    Some(f) => Some(f.clone()),
                    None => None,
                },
                None => None,
            };
        }
    }
    None
}

/// The cover URL for `manga_name` among the search results: the first series whose title
/// or an alternative title, trimmed, equals the trimmed name up to ASCII case, else the
/// first with such a word in a title; then the file of its first cover art relationship.
pub fn select_cover_url(search: &SearchResponse, manga_name: &str) -> (r: Option<String>)
    ensures
        match r {
            Some(url) => cover_url(search.data@, trimmed(manga_name@)) == Some(url@),
            None => cover_url(search.data@, trimmed(manga_name@)) is None,
        },
{
    let target = trimmed_chars(&chars_of(manga_name));
    match choose_manga(&search.data, &target) {
        Some(i) => {
            let manga = &search.data[i];
            match find_cover_file(&manga.relationships) {
                Some(f) => {
                    let mut url = String::from_str("https://uploads.mangadex.org/covers/");
                    url.append(manga.id.as_str());
                    url.append("/");
                    url.append(f.as_str());
                    Some(url)
                },
                None => None,
            }
        },
        None => None,
    }
}

} // verus!
