//! Images: recognising them by their bytes, finding the day a picture was
//! taken, and naming the file after that day.

use vstd::prelude::*;
use crate::counter::{
    lemma_suffix_token_injective, lemma_suffix_token_shape, observed, push_suffix_token,
    suffix_after, suffix_token, Counts, NameCounter,
};
use crate::date::{date_in, read_date, DateKey, DatePattern};
use crate::path::{join, join_chars, joined, RenamePlan};
use crate::text::{
    bytes_of, chars_of, digit_char, has_at, is_decimal_digit, is_digit, matches_at, push_range,
    push_str, string_of, text_of,
};

verus! {

/// The MIME type that `infer::get` finds for `content`, or nothing where it
/// knows no signature in it.
pub uninterp spec fn sniffed_mime(content: Seq<u8>) -> Option<Seq<char>>;

/// Calls `infer::get`, which holds the leading bytes of `content` against its
/// table of file signatures, and hands back the MIME type of the entry found
/// (`Type::mime_type`). The contract claims only that the answer is a
/// function of the bytes.
#[verifier::external_body]
fn sniff_mime(content: &[u8]) -> (r: Option<String>)
    ensures
        text_of(r) == sniffed_mime(content@),
{
    match infer::get(content) {
        Some(kind) => Some(kind.mime_type().to_string()),
        None => None,
    }
}

/// Whether a MIME type is that of an image.
pub open spec fn image_mime(mime: Seq<char>) -> bool {
    has_at(mime, 0, "image/"@)
}

/// Tells whether a MIME type is that of an image: it starts with `image/`.
pub fn is_image_mime(mime: &str) -> (b: bool)
    ensures
        b == image_mime(mime@),
{
    let chars = chars_of(mime);
    matches_at(&chars, 0, "image/")
}

/// Whether bytes are those of an image. A file that could not be read has
/// no bytes and is no image.
pub open spec fn image_content(content: Option<Seq<u8>>) -> bool {
    match content {
        Some(bytes) => match sniffed_mime(bytes) {
            Some(mime) => image_mime(mime),
            None => false,
        },
        None => false,
    }
}

/// Tells an image by the signature in its bytes, whatever its name says.
pub fn is_image(content: Option<&[u8]>) -> (b: bool)
    ensures
        b == image_content(bytes_of(content)),
{
    match content {
        Some(bytes) => match sniff_mime(bytes) {
            Some(mime) => is_image_mime(mime.as_str()),
            None => false,
        },
        None => false,
    }
}

/// The Exif tag of the time at which a picture was taken.
pub const DATE_TIME_ORIGINAL: u16 = 0x9003;

/// The number of the primary image among the image file directories.
pub const PRIMARY_IMAGE: u16 = 0;

/// The text under which the `exif` crate shows the field `tag` (of the Exif
/// tag space) in the image file directory `ifd` of `content`, or nothing where
/// it reads no metadata or no such field there.
pub uninterp spec fn exif_field_text(content: Seq<u8>, tag: int, ifd: int) -> Option<Seq<char>>;

/// Reads `content` with `exif::Reader::read_from_container`, looks the field
/// up with `Exif::get_field` and renders its value with `Value::display_as`.
/// A read error and a missing field both give `None`. The contract claims
/// only that the answer is a function of the bytes and the two numbers.
#[verifier::external_body]
fn read_exif_field(content: &[u8], tag: u16, ifd: u16) -> (r: Option<String>)
    ensures
        text_of(r) == exif_field_text(content@, tag as int, ifd as int),
{
    let mut reader = std::io::Cursor::new(content);
    let exif = exif::Reader::new().read_from_container(&mut reader).ok()?;
    let field = exif.get_field(exif::Tag(exif::Context::Exif, tag), exif::In(ifd))?;
    Some(field.value.display_as(field.tag).to_string())
}

/// The day a picture was taken according to its metadata.
pub open spec fn exif_date(content: Seq<u8>) -> Option<DateKey> {
    match exif_field_text(content, DATE_TIME_ORIGINAL as int, PRIMARY_IMAGE as int) {
        Some(text) => date_in(text, DatePattern::Timestamp.text()),
        None => None,
    }
}

/// Reads the day a picture was taken from its metadata: the date part of the
/// capture time, where that field is there and reads as
/// `YYYY-MM-DD HH:MM:SS`.
pub fn get_exif_date(content: &[u8]) -> (r: Option<DateKey>)
    ensures
        r == exif_date(content@),
        r matches Some(date) ==> date.in_range(),
{
    match read_exif_field(content, DATE_TIME_ORIGINAL, PRIMARY_IMAGE) {
        Some(text) => read_date(text.as_str(), DatePattern::Timestamp),
        None => None,
    }
}

/// Whether eight digits stand in `s` from `at` on.
pub open spec fn digits_at(s: Seq<char>, at: int) -> bool {
    &&& 0 <= at
    &&& at + 8 <= s.len()
    &&& forall|j: int| at <= j < at + 8 ==> is_decimal_digit(#[trigger] s[j])
}

/// The least index from `from` on at which eight digits stand in `s`, or -1.
pub open spec fn first_digit_run(s: Seq<char>, from: int) -> int
    decreases s.len() - from,
{
    if from < 0 || from + 8 > s.len() {
        -1
    } else if digits_at(s, from) {
        from
    } else {
        first_digit_run(s, from + 1)
    }
}

/// Tells whether eight digits stand in `s` from `at` on.
fn eight_digits_at(s: &Vec<char>, at: usize) -> (b: bool)
    requires
        at + 8 <= s.len(),
    ensures
        b == digits_at(s@, at as int),
{
    let mut j: usize = at;
    while j < at + 8
        invariant
            at <= j <= at + 8,
            at + 8 <= s.len(),
            forall|k: int| at <= k < j ==> is_decimal_digit(#[trigger] s@[k]),
        decreases at + 8 - j,
    {
        if !is_digit(s[j]) {
            return false;
        }
        j = j + 1;
    }
    true
}

/// Finds the first run of eight digits.
pub fn find_digit_run(s: &Vec<char>) -> (r: Option<usize>)
    ensures
        match r {
            Some(at) => at == first_digit_run(s@, 0) && at + 8 <= s.len(),
            None => first_digit_run(s@, 0) == -1,
        },
{
    if s.len() < 8 {
        return None;
    }
    let mut at: usize = 0;
    while at <= s.len() - 8
        invariant
            8 <= s.len(),
            at + 7 <= s.len(),
            first_digit_run(s@, 0) == first_digit_run(s@, at as int),
        decreases s.len() - at,
    {
        if eight_digits_at(s, at) {
            return Some(at);
        }
        at = at + 1;
    }
    None
}

/// The day that the file name holds: its first run of eight digits, read as
/// year, month and day.
pub open spec fn fallback_date(name: Seq<char>) -> Option<DateKey> {
    let at = first_digit_run(name, 0);
    if at < 0 {
        None
    } else {
        date_in(name.subrange(at, at + 8), DatePattern::Compact.text())
    }
}

/// Reads a day from the file name. Only the first run of eight digits is
/// tried; where it is no date, the name holds none.
pub fn get_fallback_date(file_name: &str) -> (r: Option<DateKey>)
    ensures
        r == fallback_date(file_name@),
        r matches Some(date) ==> date.in_range(),
{
    let name = chars_of(file_name);
    match find_digit_run(&name) {
        Some(at) => {
            let mut run: Vec<char> = Vec::new();
            push_range(&mut run, &name, at, at + 8);
            assert(run@ =~= name@.subrange(at as int, at + 8));
            let text = string_of(&run);
            read_date(text.as_str(), DatePattern::Compact)
        },
        None => None,
    }
}

/// The day of a picture: from its metadata, else from its file name.
pub open spec fn image_date(name: Seq<char>, content: Seq<u8>) -> Option<DateKey> {
    match exif_date(content) {
        Some(date) => Some(date),
        None => fallback_date(name),
    }
}

/// Finds the day of a picture, trying the metadata first and the file name
/// second.
pub fn get_image_date(file_name: &str, content: &[u8]) -> (r: Option<DateKey>)
    ensures
        r == image_date(file_name@, content@),
        r matches Some(date) ==> date.in_range(),
{
    match get_exif_date(content) {
        Some(date) => Some(date),
        None => get_fallback_date(file_name),
    }
}

/// The name of a picture of `date` that got the number `suffix`.
pub open spec fn flat_image_name(date: DateKey, suffix: nat) -> Seq<char> {
    "IMG_"@ + date.compact() + suffix_token(suffix) + ".jpg"@
}

/// The first picture of a day is named without a number, and the second to
/// the ninety-ninth with `-` and two digits before the extension.
pub proof fn lemma_flat_image_name_shape(date: DateKey, suffix: nat)
    ensures
        suffix == 1 ==> flat_image_name(date, suffix) == "IMG_"@ + date.compact() + ".jpg"@,
        2 <= suffix <= 99 ==> flat_image_name(date, suffix) == "IMG_"@ + date.compact() + seq![
            '-',
            digit_char(suffix / 10),
            digit_char(suffix % 10),
        ] + ".jpg"@,
{
    lemma_suffix_token_shape(suffix);
    if suffix == 1 {
        assert("IMG_"@ + date.compact() + Seq::<char>::empty() =~= "IMG_"@ + date.compact());
    }
}

/// Pictures of one day that got different numbers get different names.
pub proof fn lemma_flat_image_names_differ(date: DateKey, a: nat, b: nat)
    requires
        a >= 1,
        b >= 1,
        a != b,
    ensures
        flat_image_name(date, a) != flat_image_name(date, b),
{
    let front = "IMG_"@ + date.compact();
    let first = flat_image_name(date, a);
    let second = flat_image_name(date, b);
    if first == second {
        assert(first.len() == front.len() + suffix_token(a).len() + ".jpg"@.len());
        assert(second.len() == front.len() + suffix_token(b).len() + ".jpg"@.len());
        assert forall|i: int| 0 <= i < suffix_token(a).len() implies suffix_token(a)[i]
            == suffix_token(b)[i] by {
            assert(first[front.len() + i] == suffix_token(a)[i]);
            assert(second[front.len() + i] == suffix_token(b)[i]);
        }
        assert(suffix_token(a) =~= suffix_token(b));
        lemma_suffix_token_injective(a, b);
    }
}

/// Names a picture after its day, in the directory it is in. The day in the
/// form `YYYYMMDD` is the key under which the counter numbers the pictures.
pub fn rename(dir: &str, date: &DateKey, counter: &mut NameCounter) -> (path: String)
    requires
        old(counter).wf(),
        old(counter).issued() < u64::MAX,
    ensures
        final(counter).wf(),
        final(counter)@ == observed(old(counter)@, date.compact()),
        final(counter).issued() == old(counter).issued() + 1,
        path@ == joined(
            dir@,
            flat_image_name(*date, suffix_after(old(counter)@, date.compact())),
        ),
{
    let mut key: Vec<char> = Vec::new();
    date.push_compact(&mut key);
    assert(key@ =~= date.compact());
    let key_text = string_of(&key);
    let suffix = counter.next_suffix(key_text.as_str());
    let mut name: Vec<char> = Vec::new();
    push_str(&mut name, "IMG_");
    push_range(&mut name, &key, 0, key.len());
    assert(key@.subrange(0, key.len() as int) =~= key@);
    push_suffix_token(&mut name, suffix);
    push_str(&mut name, ".jpg");
    assert(name@ =~= flat_image_name(*date, suffix as nat));
    let parent = chars_of(dir);
    let path = join_chars(&parent, &name);
    string_of(&path)
}

/// The plan for a picture in the flat layout, if it gets one.
pub open spec fn image_plan(
    dir: Seq<char>,
    name: Seq<char>,
    content: Option<Seq<u8>>,
    counts: Counts,
) -> Option<(Seq<char>, Seq<char>)> {
    if image_content(content) {
        match image_date(name, content->0) {
            Some(date) => Some(
                (
                    joined(dir, name),
                    joined(dir, flat_image_name(date, suffix_after(counts, date.compact()))),
                ),
            ),
            None => None,
        }
    } else {
        None
    }
}

/// The counts after `image_plan`: one more for the day, where there is a plan.
pub open spec fn image_counts(name: Seq<char>, content: Option<Seq<u8>>, counts: Counts) -> Counts {
    if image_content(content) {
        match image_date(name, content->0) {
            Some(date) => observed(counts, date.compact()),
            None => counts,
        }
    } else {
        counts
    }
}

/// The two paths of an optional plan.
pub open spec fn plan_paths(plan: Option<RenamePlan>) -> Option<(Seq<char>, Seq<char>)> {
    match plan {
        Some(p) => Some(p.paths()),
        None => None,
    }
}

/// Plans the new name of a picture in the flat layout: `IMG_<YYYYMMDD>.jpg`
/// in the same directory, with a number where the day has been used. A file
/// that is no image, and an image without a day, get no plan and leave the
/// counter as it is.
pub fn process_image(
    dir: &str,
    file_name: &str,
    content: Option<&[u8]>,
    counter: &mut NameCounter,
) -> (plan: Option<RenamePlan>)
    requires
        old(counter).wf(),
        old(counter).issued() < u64::MAX,
    ensures
        final(counter).wf(),
        plan_paths(plan) == image_plan(dir@, file_name@, bytes_of(content), old(counter)@),
        final(counter)@ == image_counts(file_name@, bytes_of(content), old(counter)@),
        final(counter).issued() == old(counter).issued() + (if plan is Some {
            1nat
        } else {
            0nat
        }),
{
    if !is_image(content) {
        return None;
    }
    let bytes = match content {
        Some(bytes) => bytes,
        None => { return None; },
    };
    match get_image_date(file_name, bytes) {
        Some(date) => {
            let destination = rename(dir, &date, counter);
            Some(RenamePlan { source: join(dir, file_name), destination })
        },
        None => None,
    }
}

} // verus!
