use crate::protocol::{Action, Progress, Reply};
use crate::text::{chars_of, lowercase, push_char, to_lowercase};
use vstd::prelude::*;
use vstd::string::StringExecFns;

verus! {

/// `s` with every space turned into an underscore.
pub open spec fn underscored(s: Seq<char>) -> Seq<char> {
    Seq::new(s.len(), |i: int| if s[i] == ' ' { '_' } else { s[i] })
}

/// The file stem a series' cover is looked for under: its name in lower case,
/// spaces turned into underscores.
pub open spec fn cover_slug(name: Seq<char>) -> Seq<char> {
    underscored(lowercase(name))
}

/// The cover file extensions, in the order they are tried.
pub open spec fn cover_extensions() -> Seq<Seq<char>> {
    seq!["jpg"@, "jpeg"@, "png"@, "webp"@]
}

/// The file name with stem `slug` and the `k`-th cover extension.
pub open spec fn cover_file_name(slug: Seq<char>, k: int) -> Seq<char> {
    slug + "."@ + cover_extensions()[k]
}

/// The `k`-th file name tried for a series' cover.
pub open spec fn cover_candidate(name: Seq<char>, k: int) -> Seq<char> {
    cover_file_name(cover_slug(name), k)
}

/// The cover picked for a series, from the `k`-th candidate on, when `present` tells which
/// file names the cover folder holds: the first candidate that is present, if any.
pub open spec fn cover_choice_from(name: Seq<char>, present: spec_fn(Seq<char>) -> bool, k: int) -> Option<Seq<char>>
    decreases 4 - k,
{
    if k < 0 || k >= 4 {
        None
    } else if present(cover_candidate(name, k)) {
        Some(cover_candidate(name, k))
    } else {
        cover_choice_from(name, present, k + 1)
    }
}

/// The cover picked for a series when `present` tells which file names the cover folder holds.
pub open spec fn cover_choice(name: Seq<char>, present: spec_fn(Seq<char>) -> bool) -> Option<Seq<char>> {
    cover_choice_from(name, present, 0)
}

/// The file stem of a series' cover.
pub fn cover_slug_of(name: &str) -> (r: String)
    ensures
        r@ == cover_slug(name@),
{
    let lower = to_lowercase(name);
    let chars = chars_of(lower.as_str());
    let mut out = String::new();
    let n = chars.len();
    for i in 0..n
        invariant
            n == chars.len(),
            chars@ == lowercase(name@),
            out@ == underscored(chars@).take(i as int),
    {
        let c = chars[i];
        if c == ' ' {
            push_char(&mut out, '_');
        } else {
            push_char(&mut out, c);
        }
        proof {
            assert(underscored(chars@).take(i + 1) == underscored(chars@).take(i as int).push(underscored(chars@)[i as int]));
        }
    }
    proof {
        assert(underscored(chars@).take(n as int) == underscored(chars@));
    }
    out
}

fn cover_extension(k: usize) -> (r: &'static str)
    requires
        k < 4,
    ensures
        r@ == cover_extensions()[k as int],
{
    if k == 0 {
        "jpg"
    } else if k == 1 {
        "jpeg"
    } else if k == 2 {
        "png"
    } else {
        "webp"
    }
}

/// `find_cover_for`: checks the cover file names of a series one after the other, in the
/// order of `cover_extensions`, until one is present in the cover folder.
pub struct FindCover {
    /// The series' file stem.
    pub slug: String,
    /// The position in `cover_extensions` of the file being checked.
    pub extension: usize,
}

impl FindCover {
    /// The check of the file with stem `slug` and the `k`-th extension, or, past the last
    /// extension, the end of the search with no cover.
    pub open spec fn tries_is<P>(slug: Seq<char>, k: int, r: Progress<FindCover, Option<String>, P>) -> bool {
        if k < 4 {
            r matches Progress::Perform(f, Action::CheckCoverFile { file_name })
                && f.slug@ == slug && f.extension == k && file_name@ == cover_file_name(slug, k)
        } else {
            r == Progress::<FindCover, Option<String>, P>::Finished(None)
        }
    }

    /// A file reported present is the cover; any other answer moves on to the next extension.
    pub open spec fn next_is<P>(self, reply: Reply<P>, r: Progress<FindCover, Option<String>, P>) -> bool {
        if self.extension < 4 && reply == Reply::<P>::Exists(true) {
            r matches Progress::Finished(Some(c)) && c@ == cover_file_name(self.slug@, self.extension as int)
        } else {
            Self::tries_is(self.slug@, self.extension + 1, r)
        }
    }

    fn file_name(slug: &String, k: usize) -> (r: String)
        requires
            k < 4,
        ensures
            r@ == cover_file_name(slug@, k as int),
    {
        let mut file_name = slug.clone();
        file_name.append(".");
        file_name.append(cover_extension(k));
        file_name
    }

    fn try_extension<P>(slug: String, k: usize) -> (r: Progress<FindCover, Option<String>, P>)
        ensures
            Self::tries_is(slug@, k as int, r),
    {
        if k < 4 {
            let file_name = Self::file_name(&slug, k);
            Progress::Perform(FindCover { slug, extension: k }, Action::CheckCoverFile { file_name })
        } else {
            Progress::Finished(None)
        }
    }

    pub fn resume<P>(self, reply: Reply<P>) -> (r: Progress<FindCover, Option<String>, P>)
        ensures
            self.next_is(reply, r),
    {
        let present = match reply {
            Reply::Exists(b) => b,
            _ => false,
        };
        if self.extension < 4 && present {
            Progress::Finished(Some(Self::file_name(&self.slug, self.extension)))
        } else if self.extension < 4 {
            Self::try_extension(self.slug, self.extension + 1)
        } else {
            Progress::Finished(None)
        }
    }
}

/// The cover file of a series, looked for in the cover folder: the first of
/// `<slug>.jpg`, `<slug>.jpeg`, `<slug>.png`, `<slug>.webp` that is present, where
/// `<slug>` is the name in lower case with spaces as underscores. The search begins with
/// the check of `<slug>.jpg`.
pub fn find_cover_for<P>(name: &str) -> (r: Progress<FindCover, Option<String>, P>)
    ensures
        FindCover::tries_is(cover_slug(name@), 0, r),
{
    FindCover::try_extension(cover_slug_of(name), 0)
}

} // verus!
