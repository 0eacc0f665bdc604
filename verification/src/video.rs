//! Videos: recognising them by extension, asking the title service, and
//! reading its answer.

use vstd::prelude::*;
use crate::date::{date_in, push_year, read_date, year_text, DateKey, DatePattern};
use crate::path::{extension, extension_of};
use crate::query::{clean_filename, cleaned_query};
use crate::text::{
    alphanumeric, chars_of, eq_ignore_ascii_case, push_str, same_ignoring_case, str_of,
    string_of, text_of,
};

verus! {


/// Whether `ext` is one of the video extensions, in small or capital letters.
pub open spec fn is_video_extension(ext: Seq<char>) -> bool {
    ||| eq_ignore_ascii_case(ext, "mp4"@)
    ||| eq_ignore_ascii_case(ext, "avi"@)
    ||| eq_ignore_ascii_case(ext, "mkv"@)
    ||| eq_ignore_ascii_case(ext, "mov"@)
    ||| eq_ignore_ascii_case(ext, "webm"@)
}

/// Whether a file of this name counts as a video: its extension is on the list.
pub open spec fn video_name(name: Seq<char>) -> bool {
    match extension(name) {
        Some(ext) => is_video_extension(ext),
        None => false,
    }
}

/// Tells a video by the extension of its file name.
pub fn is_video(name: &str) -> (b: bool)
    ensures
        b == video_name(name@),
{
    let chars = chars_of(name);
    match extension_of(&chars) {
        Some(start) => {
            assert(chars@.skip(start as int) == extension(name@)->0);
            same_ignoring_case(&chars, start, "mp4") || same_ignoring_case(&chars, start, "avi")
                || same_ignoring_case(&chars, start, "mkv") || same_ignoring_case(
                &chars,
                start,
                "mov",
            ) || same_ignoring_case(&chars, start, "webm")
        },
        None => false,
    }
}

/// What the title search is asked: the address of the service with the key
/// and the query as its two parameters, as `url::Url::parse_with_params`
/// writes it, or nothing where it does not accept the address.
pub uninterp spec fn url_with_two_params(
    base: Seq<char>,
    first_key: Seq<char>,
    first_value: Seq<char>,
    second_key: Seq<char>,
    second_value: Seq<char>,
) -> Option<Seq<char>>;

/// Calls `url::Url::parse_with_params`, which parses `base` as an absolute
/// URL and appends the two pairs to its query string, and hands back the URL
/// as text, or `None` for a parse error. The contract claims only that the
/// answer is a function of the five texts.
#[verifier::external_body]
fn build_url(
    base: &str,
    first_key: &str,
    first_value: &str,
    second_key: &str,
    second_value: &str,
) -> (r: Option<String>)
    ensures
        text_of(r) == url_with_two_params(
            base@,
            first_key@,
            first_value@,
            second_key@,
            second_value@,
        ),
{
    let pairs = [(first_key, first_value), (second_key, second_value)];
    match url::Url::parse_with_params(base, &pairs) {
        Ok(address) => Some(address.to_string()),
        Err(_) => None,
    }
}

/// The request for the title of a video file, if one is to be made.
pub open spec fn lookup_url(name: Seq<char>, api_key: Option<Seq<char>>) -> Option<Seq<char>> {
    match api_key {
        Some(key) => if cleaned_query(name).len() == 0 {
            None
        } else {
            url_with_two_params(
                "https://api.themoviedb.org/3/search/movie"@,
                "api_key"@,
                key,
                "query"@,
                cleaned_query(name),
            )
        },
        None => None,
    }
}

/// Makes the address to fetch for the title of a video file. There is none
/// without a key, and none for a name that leaves an empty query: an empty
/// query is never sent.
pub fn lookup_request(file_name: &str, api_key: Option<&str>) -> (r: Option<String>)
    ensures
        text_of(r) == lookup_url(file_name@, str_of(api_key)),
{
    match api_key {
        Some(key) => {
            let query = clean_filename(file_name);
            if query.as_str().is_empty() {
                None
            } else {
                build_url(
                    "https://api.themoviedb.org/3/search/movie",
                    "api_key",
                    key,
                    "query",
                    query.as_str(),
                )
            }
        },
        None => None,
    }
}

/// The text that `serde_json` finds in the document `body` under the member
/// `list`, there at the place `index`, there under the member `field`; nothing
/// where `body` is no JSON, a step of the way is missing, or what stands
/// there is no string.
pub uninterp spec fn json_text_at(
    body: Seq<char>,
    list: Seq<char>,
    index: int,
    field: Seq<char>,
) -> Option<Seq<char>>;

/// Parses `body` with `serde_json::from_str` into a `Value` and walks it with
/// the `Value` index operator, `Value::get` and `Value::as_str`. A parse
/// error, a missing step and a value that is no string all give `None`. The
/// contract claims only that the answer is a function of the arguments.
#[verifier::external_body]
fn json_string_at(body: &str, list: &str, index: usize, field: &str) -> (r: Option<String>)
    ensures
        text_of(r) == json_text_at(body@, list@, index as int, field@),
{
    let document: serde_json::Value = serde_json::from_str(body).ok()?;
    let text = document[list].get(index)?[field].as_str()?;
    Some(text.to_string())
}

/// What is known of a film: its title as the service gave it, and the day
/// of its release.
#[derive(Clone, Debug, PartialEq, Eq)]
pub struct TitleRecord {
    pub title: String,
    pub release_date: DateKey,
}

impl TitleRecord {
    /// Title and day of the record.
    pub open spec fn parts(&self) -> (Seq<char>, DateKey) {
        (self.title@, self.release_date)
    }

    /// The title as it is shown: `Title (Year)`.
    pub open spec fn shown(&self) -> Seq<char> {
        self.title@ + " ("@ + year_text(self.release_date.year as int) + ")"@
    }

    /// The title with the year of release, for messages.
    pub fn display_title(&self) -> (text: String)
        ensures
            text@ == self.shown(),
    {
        let mut out: Vec<char> = Vec::new();
        push_str(&mut out, self.title.as_str());
        push_str(&mut out, " (");
        push_year(&mut out, self.release_date.year);
        push_str(&mut out, ")");
        assert(out@ =~= self.shown());
        string_of(&out)
    }
}

/// Title and day of an optional record.
pub open spec fn record_parts(record: Option<TitleRecord>) -> Option<(Seq<char>, DateKey)> {
    match record {
        Some(r) => Some(r.parts()),
        None => None,
    }
}

/// A record needs both a title and a day.
pub open spec fn record_of(title: Option<Seq<char>>, date: Option<DateKey>) -> Option<
    (Seq<char>, DateKey),
> {
    match (title, date) {
        (Some(t), Some(d)) => Some((t, d)),
        _ => None,
    }
}

/// Puts a record together from what was found; without a title or without
/// a day there is none.
pub fn make_record(title: Option<String>, date: Option<DateKey>) -> (r: Option<TitleRecord>)
    ensures
        record_parts(r) == record_of(text_of(title), date),
{
    match title {
        Some(title) => match date {
            Some(release_date) => Some(TitleRecord { title, release_date }),
            None => None,
        },
        None => None,
    }
}

/// The record in the answer of the service: title and release day of the
/// first candidate under `results`.
pub open spec fn first_candidate(body: Seq<char>) -> Option<(Seq<char>, DateKey)> {
    record_of(
        json_text_at(body, "results"@, 0, "title"@),
        match json_text_at(body, "results"@, 0, "release_date"@) {
            Some(text) => date_in(text, DatePattern::Dashed.text()),
            None => None,
        },
    )
}

/// Reads the answer of the service. Only the first candidate counts; it
/// needs a title and a release day that reads as `YYYY-MM-DD`.
pub fn parse_lookup_response(body: &str) -> (r: Option<TitleRecord>)
    ensures
        record_parts(r) == first_candidate(body@),
        r matches Some(record) ==> record.release_date.in_range(),
{
    let title = json_string_at(body, "results", 0, "title");
    let date = match json_string_at(body, "results", 0, "release_date") {
        Some(text) => read_date(text.as_str(), DatePattern::Dashed),
        None => None,
    };
    make_record(title, date)
}

/// What is known of the film in a video file, given the answer of the
/// service to the request for it, if one came.
pub open spec fn video_metadata(name: Seq<char>, response: Option<Seq<char>>) -> Option<
    (Seq<char>, DateKey),
> {
    if cleaned_query(name).len() == 0 {
        None
    } else {
        match response {
            Some(body) => first_candidate(body),
            None => None,
        }
    }
}

/// Resolves the film of a video file from the answer of the title service.
/// `response` is the body that came back for `lookup_request`, `None` where
/// no request was made or it failed. A name that leaves an empty query has
/// no film, whatever `response` holds.
pub fn get_video_metadata(file_name: &str, response: Option<&str>) -> (r: Option<TitleRecord>)
    ensures
        record_parts(r) == video_metadata(file_name@, str_of(response)),
        r matches Some(record) ==> record.release_date.in_range(),
{
    let query = clean_filename(file_name);
    if query.as_str().is_empty() {
        return None;
    }
    match response {
        Some(body) => parse_lookup_response(body),
        None => None,
    }
}

/// What a character of a title becomes in a file name: a space becomes `.`.
pub open spec fn dotted(c: char) -> char {
    if c == ' ' {
        '.'
    } else {
        c
    }
}

/// Which characters a file name keeps of a title: letters, digits and `.`.
pub open spec fn kept(c: char) -> bool {
    alphanumeric(c) || c == '.'
}

/// A title as it stands in file names: spaces as `.`, and nothing else that
/// is neither a letter nor a digit.
pub open spec fn safe_title(title: Seq<char>) -> Seq<char> {
    title.map_values(|c: char| dotted(c)).filter(|c: char| kept(c))
}

/// The safe form of a title grows by the safe form of its last character.
proof fn lemma_safe_title_push(title: Seq<char>, c: char)
    ensures
        safe_title(title.push(c)) == if kept(dotted(c)) {
            safe_title(title).push(dotted(c))
        } else {
            safe_title(title)
        },
{
    let to_dot = |c: char| dotted(c);
    let keep = |c: char| kept(c);
    title.lemma_push_map_commute(to_dot, c);
    title.map_values(to_dot).lemma_filter_push(dotted(c), keep);
    assert(title.push(c).map_values(to_dot) == title.map_values(to_dot).push(dotted(c)));
}

/// Appends the safe form of `title` to `out`.
pub fn push_safe_title(out: &mut Vec<char>, title: &str)
    ensures
        final(out)@ == old(out)@ + safe_title(title@),
{
    let ghost before = out@;
    let chars = chars_of(title);
    let mut at: usize = 0;
    assert(safe_title(chars@.take(0)) =~= Seq::<char>::empty()) by {
        assert(chars@.take(0) =~= Seq::<char>::empty());
        reveal(Seq::filter);
    }
    while at < chars.len()
        invariant
            at <= chars.len(),
            out@ == before + safe_title(chars@.take(at as int)),
        decreases chars.len() - at,
    {
        proof {
            lemma_safe_title_push(chars@.take(at as int), chars@[at as int]);
            assert(chars@.take(at + 1) =~= chars@.take(at as int).push(chars@[at as int]));
        }
        let c = if chars[at] == ' ' {
            '.'
        } else {
            chars[at]
        };
        if c == '.' || c.is_alphanumeric() {
            out.push(c);
        }
        at = at + 1;
        assert(out@ =~= before + safe_title(chars@.take(at as int)));
    }
    assert(chars@.take(chars.len() as int) =~= chars@);
}

/// The name that a film gives to its file and to its folder:
/// `Safe.Title.(Year)`.
pub open spec fn film_name(title: Seq<char>, date: DateKey) -> Seq<char> {
    safe_title(title) + ".("@ + year_text(date.year as int) + ")"@
}

/// Appends `film_name` to `out`.
pub fn push_film_name(out: &mut Vec<char>, title: &str, date: &DateKey)
    ensures
        final(out)@ == old(out)@ + film_name(title@, *date),
{
    let ghost before = out@;
    push_safe_title(out, title);
    push_str(out, ".(");
    push_year(out, date.year);
    push_str(out, ")");
    assert(out@ =~= before + film_name(title@, *date));
}


} // verus!
