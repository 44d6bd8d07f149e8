use vstd::prelude::*;

verus! {

/// What `str::to_lowercase` returns for a string with these characters.
pub uninterp spec fn lowercase(s: Seq<char>) -> Seq<char>;

/// Whether `c` has the Unicode `White_Space` property, the one `char::is_whitespace`
/// tests: U+0009 to U+000D, U+0020, U+0085, U+00A0, U+1680, U+2000 to U+200A, U+2028,
/// U+2029, U+202F, U+205F and U+3000 (the `White_Space` entries of the Unicode
/// Character Database's PropList.txt).
pub open spec fn is_white_space(c: char) -> bool {
    let x = c as u32;
    ||| 0x9 <= x <= 0xD
    ||| x == 0x20
    ||| x == 0x85
    ||| x == 0xA0
    ||| x == 0x1680
    ||| 0x2000 <= x <= 0x200A
    ||| x == 0x2028
    ||| x == 0x2029
    ||| x == 0x202F
    ||| x == 0x205F
    ||| x == 0x3000
}

/// Whether `char::is_alphanumeric` holds of `c` (Unicode `Alphabetic` or `Numeric`).
pub uninterp spec fn is_alphanumeric(c: char) -> bool;

/// Calls `str::to_lowercase`. Claimed: the result depends on the characters of `s` alone,
/// and is named `lowercase(s@)`; what Unicode's case mapping does is not stated.
#[verifier::external_body]
pub(crate) fn to_lowercase(s: &str) -> (r: String)
    ensures
        r@ == lowercase(s@),
{
    s.to_lowercase()
}

/// Calls `char::is_whitespace`. Claimed: the answer is whether `c` has the Unicode
/// `White_Space` property, whose code points `is_white_space` lists.
#[verifier::external_body]
pub(crate) fn char_is_whitespace(c: char) -> (r: bool)
    ensures
        r == is_white_space(c),
{
    c.is_whitespace()
}

/// Calls `char::is_alphanumeric`. Claimed: the answer depends on `c` alone, named `is_alphanumeric(c)`.
#[verifier::external_body]
pub(crate) fn char_is_alphanumeric(c: char) -> (r: bool)
    ensures
        r == is_alphanumeric(c),
{
    c.is_alphanumeric()
}

/// Calls `String::push`. Claimed: `c` is appended at the end and nothing else changes.
#[verifier::external_body]
pub(crate) fn push_char(s: &mut String, c: char)
    ensures
        final(s)@ == old(s)@.push(c),
{
    s.push(c);
}

/// The characters of `s`, in order.
pub fn chars_of(s: &str) -> (r: Vec<char>)
    ensures
        r@ == s@,
{
    let mut out: Vec<char> = Vec::new();
    for c in it: s.chars()
        invariant
            out@ == it.seq().take(it.index() as int),
            it.seq() == s@,
    {
        out.push(c);
    }
    out
}


/// `c` with ASCII upper-case letters taken to lower case, as a code point.
pub open spec fn ascii_folded(c: char) -> int {
    if 65 <= (c as u32) <= 90 {
        (c as u32) + 32
    } else {
        c as int
    }
}

/// `a` and `b` are equal up to the case of ASCII letters (`str::eq_ignore_ascii_case`).
pub open spec fn same_ignoring_ascii_case(a: Seq<char>, b: Seq<char>) -> bool {
    &&& a.len() == b.len()
    &&& forall|i: int| 0 <= i < a.len() ==> #[trigger] ascii_folded(a[i]) == ascii_folded(b[i])
}

/// Where `s` starts once leading white space is removed: its first character that is not
/// white space, or its end.
#[verifier::opaque]
pub open spec fn trim_start(s: Seq<char>) -> int {
    if exists|i: int| 0 <= i < s.len() && !is_white_space(#[trigger] s[i]) {
        choose|i: int| 0 <= i < s.len() && !is_white_space(#[trigger] s[i])
            && forall|j: int| 0 <= j < i ==> is_white_space(#[trigger] s[j])
    } else {
        s.len() as int
    }
}

/// Where `s` ends once trailing white space is removed: just after its last character
/// that is not white space, or its end when it has none.
#[verifier::opaque]
pub open spec fn trim_end(s: Seq<char>) -> int {
    if exists|i: int| 0 <= i < s.len() && !is_white_space(#[trigger] s[i]) {
        1 + choose|i: int| 0 <= i < s.len() && !is_white_space(#[trigger] s[i])
            && forall|j: int| i < j < s.len() ==> is_white_space(#[trigger] s[j])
    } else {
        s.len() as int
    }
}

/// `s` without leading and trailing white space (`str::trim`).
pub open spec fn trimmed(s: Seq<char>) -> Seq<char> {
    s.subrange(trim_start(s), trim_end(s))
}

/// `s[i..j]` is one of the pieces `s` splits into at characters that are not
/// alphanumeric (`str::split` with `|c| !c.is_alphanumeric()`).
pub open spec fn is_piece(s: Seq<char>, i: int, j: int) -> bool {
    &&& 0 <= i <= j <= s.len()
    &&& i == 0 || !is_alphanumeric(s[i - 1])
    &&& j == s.len() || !is_alphanumeric(s[j])
    &&& forall|k: int| i <= k < j ==> is_alphanumeric(#[trigger] s[k])
}

/// Some piece of `s`, split at characters that are not alphanumeric, equals `word` up to
/// the case of ASCII letters.
pub open spec fn has_word(s: Seq<char>, word: Seq<char>) -> bool {
    exists|i: int, j: int| #[trigger] is_piece(s, i, j) && same_ignoring_ascii_case(s.subrange(i, j), word)
}

fn fold(c: char) -> (r: u32)
    ensures
        r == ascii_folded(c),
{
    let x = c as u32;
    if 65 <= x && x <= 90 {
        x + 32
    } else {
        x
    }
}

/// Whether `s[lo..hi]` equals `word` up to the case of ASCII letters.
pub fn same_ignoring_case_at(s: &Vec<char>, lo: usize, hi: usize, word: &Vec<char>) -> (r: bool)
    requires
        lo <= hi <= s.len(),
    ensures
        r == same_ignoring_ascii_case(s@.subrange(lo as int, hi as int), word@),
{
    if hi - lo != word.len() {
        return false;
    }
    let n = word.len();
    for k in 0..n
        invariant
            n == word.len(),
            hi - lo == n,
            lo <= hi <= s.len(),
            forall|m: int| 0 <= m < k ==> ascii_folded(#[trigger] s@[lo + m]) == ascii_folded(word@[m]),
    {
        if fold(s[lo + k]) != fold(word[k]) {
            assert(ascii_folded(s@.subrange(lo as int, hi as int)[k as int]) != ascii_folded(word@[k as int]));
            return false;
        }
    }
    assert forall|m: int| 0 <= m < n implies #[trigger] ascii_folded(s@.subrange(lo as int, hi as int)[m]) == ascii_folded(word@[m]) by {
        assert(s@.subrange(lo as int, hi as int)[m] == s@[lo + m]);
    }
    true
}

/// The characters of `s` without leading and trailing white space.
pub fn trimmed_chars(s: &Vec<char>) -> (r: Vec<char>)
    ensures
        r@ == trimmed(s@),
{
    let n = s.len();
    let mut lo: usize = 0;
    while lo < n && char_is_whitespace(s[lo])
        invariant
            n == s.len(),
            lo <= n,
            forall|j: int| 0 <= j < lo ==> is_white_space(#[trigger] s@[j]),
        decreases n - lo,
    {
        lo += 1;
    }
    let mut hi: usize = n;
    while hi > lo && char_is_whitespace(s[hi - 1])
        invariant
            n == s.len(),
            lo <= hi <= n,
            forall|j: int| hi <= j < n ==> is_white_space(#[trigger] s@[j]),
        decreases hi,
    {
        hi -= 1;
    }
    proof {
        reveal(trim_start);
        reveal(trim_end);
        if lo < n {
            assert(!is_white_space(s@[lo as int]));
            assert(trim_start(s@) == lo) by {
                let c = choose|i: int| 0 <= i < s@.len() && !is_white_space(#[trigger] s@[i])
                    && forall|j: int| 0 <= j < i ==> is_white_space(#[trigger] s@[j]);
                if c < lo {
                    assert(is_white_space(s@[c]));
                }
                if c > lo {
                    assert(is_white_space(s@[lo as int]));
                }
            }
            assert(hi > lo);
            assert(!is_white_space(s@[hi - 1]));
            assert(trim_end(s@) == hi) by {
                let c = choose|i: int| 0 <= i < s@.len() && !is_white_space(#[trigger] s@[i])
                    && forall|j: int| i < j < s@.len() ==> is_white_space(#[trigger] s@[j]);
                if c < hi - 1 {
                    assert(is_white_space(s@[hi - 1]));
                }
                if c > hi - 1 {
                    assert(is_white_space(s@[c]));
                }
            }
        } else {
            assert(!exists|i: int| 0 <= i < s@.len() && !is_white_space(#[trigger] s@[i]));
            assert(hi == n);
        }
    }
    let mut out: Vec<char> = Vec::new();
    for k in lo..hi
        invariant
            lo <= hi <= s.len(),
            out@ == s@.subrange(lo as int, k as int),
    {
        out.push(s[k]);
        proof {
            assert(s@.subrange(lo as int, k + 1) == s@.subrange(lo as int, k as int).push(s@[k as int]));
        }
    }
    out
}

/// Whether some piece of `s`, split at characters that are not alphanumeric, equals
/// `word` up to the case of ASCII letters.
pub fn contains_word(s: &Vec<char>, word: &Vec<char>) -> (r: bool)
    ensures
        r == has_word(s@, word@),
{
    let n = s.len();
    let mut start: usize = 0;
    for k in 0..n
        invariant
            n == s.len(),
            start <= k,
            start == 0 || !is_alphanumeric(s@[start - 1]),
            forall|m: int| start <= m < k ==> is_alphanumeric(#[trigger] s@[m]),
            forall|i: int, j: int| #[trigger] is_piece(s@, i, j) && j < k ==> !same_ignoring_ascii_case(s@.subrange(i, j), word@),
    {
        if !char_is_alphanumeric(s[k]) {
            assert(is_piece(s@, start as int, k as int));
            if same_ignoring_case_at(s, start, k, word) {
                return true;
            }
            proof {
                assert forall|i: int, j: int| #[trigger] is_piece(s@, i, j) && j == k implies i == start by {
                    if i < start {
                        assert(is_alphanumeric(s@[start - 1]));
                    }
                    if i > start {
                        assert(is_alphanumeric(s@[i - 1]));
                    }
                }
            }
            start = k + 1;
        } else {
            assert forall|i: int, j: int| #[trigger] is_piece(s@, i, j) && j == k implies false by {
            }
        }
    }
    assert(is_piece(s@, start as int, n as int));
    let found = same_ignoring_case_at(s, start, n, word);
    proof {
        assert forall|i: int, j: int| #[trigger] is_piece(s@, i, j) && j == n implies i == start by {
            if i < start {
                assert(is_alphanumeric(s@[start - 1]));
            }
            if i > start {
                assert(is_alphanumeric(s@[i - 1]));
            }
        }
    }
    found
}

} // verus!
