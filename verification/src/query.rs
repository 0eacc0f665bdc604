//! From a file name to a search query: the extension, bracketed segments and
//! release tags go, separators become spaces, whitespace is collapsed.

use vstd::prelude::*;
use crate::text::{
    chars_of, find_from, find_last, first_index_from, has_at, is_space, is_whitespace,
    last_index_of, lemma_last_index_of_unique, matches_at, push_range, string_of,
};

verus! {

/// The name without its last `.` and what follows it.
pub open spec fn stem(name: Seq<char>) -> Seq<char> {
    let dot = last_index_of(name, '.');
    if dot < 0 {
        name
    } else {
        name.take(dot)
    }
}

/// Where the segment ends that opens with `open` at `at` and runs to the
/// next `close`; `at` itself where no such segment starts there.
pub open spec fn bracket_end(s: Seq<char>, at: int, open: char, close: char) -> int {
    if 0 <= at < s.len() && s[at] == open && first_index_from(s, at + 1, close) < s.len() {
        first_index_from(s, at + 1, close) + 1
    } else {
        at
    }
}

/// The length of `tag` where it stands in `s` at `at`, else 0.
pub open spec fn tag_len(s: Seq<char>, at: int, tag: Seq<char>) -> nat {
    if has_at(s, at, tag) {
        tag.len()
    } else {
        0
    }
}

/// The length of the release tag that stands in `s` at `at`, 0 if none does.
/// The tags are tried in this order and in this spelling.
pub open spec fn release_tag_len(s: Seq<char>, at: int) -> nat {
    if tag_len(s, at, "480p"@) > 0 {
        tag_len(s, at, "480p"@)
    } else if tag_len(s, at, "720p"@) > 0 {
        tag_len(s, at, "720p"@)
    } else if tag_len(s, at, "1080p"@) > 0 {
        tag_len(s, at, "1080p"@)
    } else if tag_len(s, at, "2160p"@) > 0 {
        tag_len(s, at, "2160p"@)
    } else if tag_len(s, at, "4K"@) > 0 {
        tag_len(s, at, "4K"@)
    } else if tag_len(s, at, "UHD"@) > 0 {
        tag_len(s, at, "UHD"@)
    } else if tag_len(s, at, "HDR"@) > 0 {
        tag_len(s, at, "HDR"@)
    } else if tag_len(s, at, "x264"@) > 0 {
        tag_len(s, at, "x264"@)
    } else if tag_len(s, at, "x265"@) > 0 {
        tag_len(s, at, "x265"@)
    } else if tag_len(s, at, "HEVC"@) > 0 {
        tag_len(s, at, "HEVC"@)
    } else if tag_len(s, at, "BluRay"@) > 0 {
        tag_len(s, at, "BluRay"@)
    } else if tag_len(s, at, "WEB-DL"@) > 0 {
        tag_len(s, at, "WEB-DL"@)
    } else {
        tag_len(s, at, "WEBRip"@)
    }
}

/// Where the piece ends that is removed from `s` at `at`: a segment in
/// square brackets, else one in round brackets, else a release tag; `at`
/// itself where none of them starts there.
pub open spec fn removed_end(s: Seq<char>, at: int) -> int {
    if bracket_end(s, at, '[', ']') > at {
        bracket_end(s, at, '[', ']')
    } else if bracket_end(s, at, '(', ')') > at {
        bracket_end(s, at, '(', ')')
    } else {
        at + release_tag_len(s, at)
    }
}

/// `s` from `at` on, without the pieces that are removed, found from left
/// to right.
pub open spec fn strip_from(s: Seq<char>, at: int) -> Seq<char>
    decreases s.len() - at,
{
    if at < 0 || at >= s.len() {
        Seq::empty()
    } else if at < removed_end(s, at) <= s.len() {
        strip_from(s, removed_end(s, at))
    } else {
        seq![s[at]] + strip_from(s, at + 1)
    }
}

/// `s` without bracketed segments and release tags.
pub open spec fn strip_tags(s: Seq<char>) -> Seq<char> {
    strip_from(s, 0)
}

/// The two characters that stand for a space in a file name.
pub open spec fn is_separator(c: char) -> bool {
    c == '.' || c == '_'
}

/// `s` with each `.` and `_` replaced by a space.
pub open spec fn spaced(s: Seq<char>) -> Seq<char> {
    s.map_values(
        |c: char|
            if is_separator(c) {
                ' '
            } else {
                c
            },
    )
}

/// `s` from `at` on with whitespace left out, and one space set before each
/// word that follows whitespace once a word has been written (`started`).
pub open spec fn squeeze_from(s: Seq<char>, at: int, started: bool) -> Seq<char>
    decreases s.len() - at,
{
    if at < 0 || at >= s.len() {
        Seq::empty()
    } else if is_space(s[at]) {
        squeeze_from(s, at + 1, started)
    } else if started && at > 0 && is_space(s[at - 1]) {
        seq![' ', s[at]] + squeeze_from(s, at + 1, true)
    } else {
        seq![s[at]] + squeeze_from(s, at + 1, true)
    }
}

/// The words of `s`, separated by single spaces.
pub open spec fn squeeze(s: Seq<char>) -> Seq<char> {
    squeeze_from(s, 0, false)
}

/// The search query for a file name: the name without extension, bracketed
/// segments and release tags, with `.` and `_` read as spaces, whitespace
/// collapsed and trimmed.
pub open spec fn cleaned_query(name: Seq<char>) -> Seq<char> {
    squeeze(spaced(strip_tags(stem(name))))
}

/// Every whitespace character of `t` is a single space with a word
/// character behind it.
pub open spec fn tidy(t: Seq<char>) -> bool {
    forall|i: int|
        0 <= i < t.len() && is_space(#[trigger] t[i]) ==> t[i] == ' ' && i + 1 < t.len()
            && !is_space(t[i + 1])
}

/// What `squeeze_from` gives is tidy, starts with a word character unless a
/// word was written before, and holds no separator that `s` does not hold.
proof fn lemma_squeeze_shape(s: Seq<char>, at: int, started: bool)
    requires
        0 <= at <= s.len(),
    ensures
        tidy(squeeze_from(s, at, started)),
        !started && squeeze_from(s, at, started).len() > 0 ==> !is_space(
            squeeze_from(s, at, started)[0],
        ),
        (forall|j: int| 0 <= j < s.len() ==> !is_separator(#[trigger] s[j])) ==> (forall|i: int|
            0 <= i < squeeze_from(s, at, started).len() ==> !is_separator(
                #[trigger] squeeze_from(s, at, started)[i],
            )),
    decreases s.len() - at,
{
    let out = squeeze_from(s, at, started);
    if at >= s.len() {
    } else if is_space(s[at]) {
        lemma_squeeze_shape(s, at + 1, started);
    } else {
        let rest = squeeze_from(s, at + 1, true);
        lemma_squeeze_shape(s, at + 1, true);
        let head = if started && at > 0 && is_space(s[at - 1]) {
            seq![' ', s[at]]
        } else {
            seq![s[at]]
        };
        assert(out == head + rest);
        assert forall|i: int| 0 <= i < out.len() && is_space(#[trigger] out[i]) implies out[i]
            == ' ' && i + 1 < out.len() && !is_space(out[i + 1]) by {
            if i >= head.len() {
                let k = i - head.len();
                assert(out[i] == rest[k]);
                assert(is_space(rest[k]));
                assert(out[i + 1] == rest[k + 1]);
            } else if head.len() == 2 && i == 0 {
                assert(out[1] == s[at]);
            }
        }
        if forall|j: int| 0 <= j < s.len() ==> !is_separator(#[trigger] s[j]) {
            assert forall|i: int| 0 <= i < out.len() implies !is_separator(#[trigger] out[i]) by {
                if i >= head.len() {
                    assert(out[i] == rest[i - head.len()]);
                } else {
                    assert(!is_separator(s[at]));
                }
            }
        }
    }
}

/// Behind a word character of a tidy text, squeezing changes nothing.
proof fn lemma_squeeze_tidy(t: Seq<char>, at: int)
    requires
        tidy(t),
        0 <= at < t.len(),
        !is_space(t[at]),
    ensures
        squeeze_from(t, at + 1, true) == t.skip(at + 1),
    decreases t.len() - at,
{
    if at + 1 >= t.len() {
        assert(squeeze_from(t, at + 1, true) =~= t.skip(at + 1));
    } else if is_space(t[at + 1]) {
        assert(t[at + 1] == ' ' && at + 2 < t.len() && !is_space(t[at + 2]));
        lemma_squeeze_tidy(t, at + 2);
        assert(squeeze_from(t, at + 1, true) == squeeze_from(t, at + 2, true));
        assert(squeeze_from(t, at + 2, true) == seq![' ', t[at + 2]] + squeeze_from(
            t,
            at + 3,
            true,
        ));
        assert(seq![' ', t[at + 2]] + t.skip(at + 3) =~= t.skip(at + 1));
    } else {
        lemma_squeeze_tidy(t, at + 1);
        assert(seq![t[at + 1]] + t.skip(at + 2) =~= t.skip(at + 1));
    }
}

/// A tidy text that does not start with a space is its own squeezed form.
pub proof fn lemma_squeeze_fixed(t: Seq<char>)
    requires
        tidy(t),
        t.len() > 0 ==> !is_space(t[0]),
    ensures
        squeeze(t) == t,
{
    if t.len() == 0 {
        assert(squeeze(t) =~= t);
    } else {
        lemma_squeeze_tidy(t, 0);
        assert(seq![t[0]] + t.skip(1) =~= t);
    }
}

/// Squeezing adds a space only where it left whitespace out.
proof fn lemma_squeeze_len(s: Seq<char>, at: int, started: bool)
    requires
        0 <= at <= s.len(),
    ensures
        squeeze_from(s, at, started).len() <= s.len() - at + (if started && at > 0 && is_space(
            s[at - 1],
        ) {
            1int
        } else {
            0int
        }),
    decreases s.len() - at,
{
    if at < s.len() {
        if is_space(s[at]) {
            lemma_squeeze_len(s, at + 1, started);
        } else {
            lemma_squeeze_len(s, at + 1, true);
        }
    }
}

/// Stripping never lengthens, and keeps the length only where it removes
/// nothing.
proof fn lemma_strip_len(s: Seq<char>, at: int)
    requires
        0 <= at <= s.len(),
    ensures
        strip_from(s, at).len() <= s.len() - at,
        strip_from(s, at).len() == s.len() - at ==> strip_from(s, at) == s.skip(at),
    decreases s.len() - at,
{
    if at >= s.len() {
        assert(strip_from(s, at) =~= s.skip(at));
    } else if at < removed_end(s, at) <= s.len() {
        lemma_strip_len(s, removed_end(s, at));
    } else {
        lemma_strip_len(s, at + 1);
        if strip_from(s, at).len() == s.len() - at {
            assert(seq![s[at]] + s.skip(at + 1) =~= s.skip(at));
        }
    }
}

/// A query holds no `.` and no `_`, no whitespace but single spaces between
/// its words, and none at its two ends.
pub proof fn lemma_cleaned_query_shape(name: Seq<char>)
    ensures
        tidy(cleaned_query(name)),
        cleaned_query(name).len() > 0 ==> !is_space(cleaned_query(name)[0]) && !is_space(
            cleaned_query(name).last(),
        ),
        forall|i: int|
            0 <= i < cleaned_query(name).len() ==> !is_separator(#[trigger] cleaned_query(name)[i]),
{
    let words = spaced(strip_tags(stem(name)));
    let query = cleaned_query(name);
    assert forall|j: int| 0 <= j < words.len() implies !is_separator(#[trigger] words[j]) by {}
    lemma_squeeze_shape(words, 0, false);
    if query.len() > 0 {
        let end = query.len() - 1;
        if is_space(query[end]) {
            assert(end + 1 < query.len());
        }
    }
}

/// A query that is cleaned a second time stays as it is exactly when it holds
/// no bracketed segment and no release tag. (Taking the separators out can
/// bring the two halves of a tag together, which the second pass then
/// removes.)
pub proof fn lemma_cleaning_twice(name: Seq<char>)
    ensures
        cleaned_query(cleaned_query(name)) == cleaned_query(name) <==> strip_tags(
            cleaned_query(name),
        ) == cleaned_query(name),
{
    let words = spaced(strip_tags(stem(name)));
    let query = squeeze(words);
    assert(query == cleaned_query(name));
    assert forall|j: int| 0 <= j < words.len() implies !is_separator(#[trigger] words[j]) by {}
    lemma_squeeze_shape(words, 0, false);
    assert forall|j: int| -1 < j < query.len() implies query[j] != '.' by {
        assert(!is_separator(query[j]));
    }
    lemma_last_index_of_unique(query, '.', -1);
    assert(stem(query) == query);
    let stripped = strip_tags(query);
    if stripped == query {
        assert(spaced(query) =~= query) by {
            assert forall|j: int| 0 <= j < query.len() implies spaced(query)[j] == query[j] by {
                assert(!is_separator(query[j]));
            }
        }
        lemma_squeeze_fixed(query);
    } else {
        lemma_strip_len(query, 0);
        assert(query.skip(0) =~= query);
        assert(stripped.len() < query.len());
        lemma_squeeze_len(spaced(stripped), 0, false);
        assert(cleaned_query(query).len() < query.len());
    }
}

/// Finds the end of the bracketed segment that starts at `at`.
fn bracket_end_at(s: &Vec<char>, at: usize, open: char, close: char) -> (end: usize)
    requires
        at < s.len(),
    ensures
        end == bracket_end(s@, at as int, open, close),
        at <= end <= s.len(),
{
    if s[at] != open {
        return at;
    }
    let close_at = find_from(s, at + 1, close);
    if close_at < s.len() {
        close_at + 1
    } else {
        at
    }
}

/// The length of `tag` where it stands at `at`, else 0.
fn tag_len_at(s: &Vec<char>, at: usize, tag: &str) -> (len: usize)
    requires
        at < s.len(),
    ensures
        len == tag_len(s@, at as int, tag@),
        at + len <= s.len(),
{
    if matches_at(s, at, tag) {
        tag.unicode_len()
    } else {
        0
    }
}

/// The length of the release tag that stands at `at`, 0 if none does.
fn release_tag_len_at(s: &Vec<char>, at: usize) -> (len: usize)
    requires
        at < s.len(),
    ensures
        len == release_tag_len(s@, at as int),
        at + len <= s.len(),
{
    let mut len = tag_len_at(s, at, "480p");
    if len == 0 {
        len = tag_len_at(s, at, "720p");
    }
    if len == 0 {
        len = tag_len_at(s, at, "1080p");
    }
    if len == 0 {
        len = tag_len_at(s, at, "2160p");
    }
    if len == 0 {
        len = tag_len_at(s, at, "4K");
    }
    if len == 0 {
        len = tag_len_at(s, at, "UHD");
    }
    if len == 0 {
        len = tag_len_at(s, at, "HDR");
    }
    if len == 0 {
        len = tag_len_at(s, at, "x264");
    }
    if len == 0 {
        len = tag_len_at(s, at, "x265");
    }
    if len == 0 {
        len = tag_len_at(s, at, "HEVC");
    }
    if len == 0 {
        len = tag_len_at(s, at, "BluRay");
    }
    if len == 0 {
        len = tag_len_at(s, at, "WEB-DL");
    }
    if len == 0 {
        len = tag_len_at(s, at, "WEBRip");
    }
    len
}

/// Finds the end of the piece that is removed at `at`.
fn removed_end_at(s: &Vec<char>, at: usize) -> (end: usize)
    requires
        at < s.len(),
    ensures
        end == removed_end(s@, at as int),
        at <= end <= s.len(),
{
    let square = bracket_end_at(s, at, '[', ']');
    if square > at {
        return square;
    }
    let round = bracket_end_at(s, at, '(', ')');
    if round > at {
        return round;
    }
    at + release_tag_len_at(s, at)
}

/// Removes bracketed segments and release tags.
pub fn strip_release_tags(s: &Vec<char>) -> (r: Vec<char>)
    ensures
        r@ == strip_tags(s@),
{
    let mut out: Vec<char> = Vec::new();
    let mut at: usize = 0;
    while at < s.len()
        invariant
            at <= s.len(),
            out@ + strip_from(s@, at as int) == strip_tags(s@),
        decreases s.len() - at,
    {
        let end = removed_end_at(s, at);
        let ghost before = out@;
        if end > at {
            at = end;
        } else {
            out.push(s[at]);
            assert(out@ + strip_from(s@, at + 1) =~= before + strip_from(s@, at as int));
            at = at + 1;
        }
    }
    assert(out@ + strip_from(s@, at as int) =~= out@);
    out
}

/// Replaces each `.` and `_` by a space.
pub fn spaces_for_separators(s: &Vec<char>) -> (r: Vec<char>)
    ensures
        r@ == spaced(s@),
{
    let mut out: Vec<char> = Vec::new();
    let mut at: usize = 0;
    while at < s.len()
        invariant
            at <= s.len(),
            out@ == spaced(s@).take(at as int),
        decreases s.len() - at,
    {
        let c = s[at];
        if c == '.' || c == '_' {
            out.push(' ');
        } else {
            out.push(c);
        }
        at = at + 1;
        assert(out@ =~= spaced(s@).take(at as int));
    }
    assert(spaced(s@).take(s.len() as int) =~= spaced(s@));
    out
}

/// Collapses whitespace to single spaces and trims both ends.
pub fn squeeze_spaces(s: &Vec<char>) -> (r: Vec<char>)
    ensures
        r@ == squeeze(s@),
{
    let mut out: Vec<char> = Vec::new();
    let mut started = false;
    let mut at: usize = 0;
    while at < s.len()
        invariant
            at <= s.len(),
            out@ + squeeze_from(s@, at as int, started) == squeeze(s@),
        decreases s.len() - at,
    {
        let ghost before = out@;
        let ghost rest = squeeze_from(s@, at as int, started);
        let c = s[at];
        if !is_whitespace(c) {
            if started && at > 0 && is_whitespace(s[at - 1]) {
                out.push(' ');
            }
            out.push(c);
            started = true;
            assert(out@ + squeeze_from(s@, at + 1, true) =~= before + rest);
        }
        at = at + 1;
    }
    assert(out@ + squeeze_from(s@, at as int, started) =~= out@);
    out
}

/// Makes the search query from a file name.
pub fn clean_filename(filename: &str) -> (query: String)
    ensures
        query@ == cleaned_query(filename@),
{
    let name = chars_of(filename);
    let mut base: Vec<char> = Vec::new();
    match find_last(&name, '.') {
        Some(dot) => {
            push_range(&mut base, &name, 0, dot);
            assert(base@ =~= name@.take(dot as int));
        },
        None => {
            push_range(&mut base, &name, 0, name.len());
            assert(base@ =~= name@);
        },
    }
    let stripped = strip_release_tags(&base);
    let words = spaces_for_separators(&stripped);
    let query = squeeze_spaces(&words);
    string_of(&query)
}

} // verus!
