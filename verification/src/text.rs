//! String helpers shared by the rest of the library: character access,
//! substring search, case folding and path joining.
use vstd::prelude::*;

verus! {

/// std's `<String as PartialEq<str>>::eq`: claimed to be true exactly when both
/// sides hold the same characters.
pub assume_specification[ <String as PartialEq<str>>::eq ](s: &String, other: &str) -> (res: bool)
    ensures
        res == (s@ == other@),
;

/// Appends one character to a string with std's `String::push`; claimed to add
/// exactly that character at the end.
#[verifier::external_body]
pub(crate) fn push_char(s: &mut String, c: char)
    ensures
        final(s)@ == old(s)@.push(c),
{
    s.push(c);
}

/// What `str::to_lowercase` returns for a string: its Unicode lowercase mapping.
pub uninterp spec fn lowercase(s: Seq<char>) -> Seq<char>;

/// Lowercases a string with std's `str::to_lowercase`; claimed to give the named
/// lowercase mapping of the argument, and nothing for the empty string.
#[verifier::external_body]
pub(crate) fn to_lowercase(s: &str) -> (res: String)
    ensures
        res@ == lowercase(s@),
        s@.len() == 0 ==> res@.len() == 0,
{
    s.to_lowercase()
}

/// `needle` occurs in `haystack` as a contiguous run of characters.
pub open spec fn occurs_in(haystack: Seq<char>, needle: Seq<char>) -> bool {
    exists|i: int|
        0 <= i && i + needle.len() <= haystack.len() && #[trigger] haystack.subrange(i, i + needle.len())
            == needle
}

/// The characters of a string, in order.
pub fn chars_of(s: &str) -> (res: Vec<char>)
    ensures
        res@ == s@,
{
    let mut res: Vec<char> = Vec::new();
    for c in it: s.chars()
        invariant
            res@ == it.seq().take(it.index()),
            it.seq() == s@,
    {
        res.push(c);
    }
    res
}


/// Whether `needle` occurs in `h` at position `i`.
fn matches_at(h: &Vec<char>, needle: &Vec<char>, i: usize) -> (res: bool)
    requires
        i + needle@.len() <= h@.len(),
    ensures
        res == (h@.subrange(i as int, i + needle@.len()) == needle@),
{
    let hl: usize = h.len();
    let mut j: usize = 0;
    while j < needle.len()
        invariant
            hl == h@.len(),
            i + needle@.len() <= h@.len(),
            j <= needle@.len(),
            forall|k: int| 0 <= k < j ==> h@[i + k] == needle@[k],
        decreases needle@.len() - j,
    {
        if h[i + j] != needle[j] {
            assert(h@.subrange(i as int, i + needle@.len())[j as int] != needle@[j as int]);
            return false;
        }
        j += 1;
    }
    assert(h@.subrange(i as int, i + needle@.len()) =~= needle@);
    true
}

/// Whether `needle` occurs in `haystack` (std's `str::contains` with a string pattern).
pub fn contains_substring(haystack: &str, needle: &str) -> (res: bool)
    ensures
        res == occurs_in(haystack@, needle@),
{
    let h = chars_of(haystack);
    let n = chars_of(needle);
    if n.len() > h.len() {
        return false;
    }
    if n.len() == 0 {
        assert(haystack@.subrange(0, 0 + needle@.len() as int) =~= needle@);
        return true;
    }
    let hl: usize = h.len();
    let last: usize = hl - n.len();
    let mut i: usize = 0;
    while i <= last
        invariant
            h@ == haystack@,
            n@ == needle@,
            0 < n@.len() <= h@.len(),
            hl == h@.len(),
            last == h@.len() - n@.len(),
            i <= last + 1,
            forall|k: int|
                0 <= k < i ==> #[trigger] h@.subrange(k, k + n@.len()) != n@,
        decreases last + 1 - i,
    {
        if matches_at(&h, &n, i) {
            return true;
        }
        i += 1;
    }
    false
}

/// `name` appended to `base` as a further path component, as `PathBuf::push`
/// does on Unix for a relative `name`: a `/` separator is inserted unless
/// `base` is empty or already ends with one.
pub open spec fn joined_path(base: Seq<char>, name: Seq<char>) -> Seq<char> {
    if base.len() == 0 || base.last() == '/' {
        base + name
    } else {
        base + seq!['/'] + name
    }
}

/// Joins a relative path component onto a directory path.
pub fn join_path(base: &str, name: &str) -> (res: String)
    ensures
        res@ == joined_path(base@, name@),
{
    let mut res = String::from_str(base);
    let len: usize = base.unicode_len();
    if len > 0 && base.get_char(len - 1) != '/' {
        push_char(&mut res, '/');
    }
    res.append(name);
    res
}

} // verus!
