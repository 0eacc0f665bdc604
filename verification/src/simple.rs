//! The flat layout: every file stays in its directory and gets a new name.

use vstd::prelude::*;
use crate::classify::{same_file, FileClassification, FileEntry};
use crate::counter::{Counts, NameCounter};
use crate::date::DateKey;
use crate::image::{image_counts, image_plan, plan_paths, process_image};
use crate::path::{extension_or, join, joined, push_extension_or, RenamePlan};
use crate::text::{chars_of, find_last, last_index_of, push_range, push_str, str_of, string_of};
use crate::video::{film_name, get_video_metadata, push_film_name, video_metadata};

verus! {

/// `s` with each space replaced by `.`.
pub open spec fn dots_for_spaces(s: Seq<char>) -> Seq<char> {
    s.map_values(
        |c: char|
            if c == ' ' {
                '.'
            } else {
                c
            },
    )
}

/// The text of an optional string.
pub open spec fn option_text(s: Option<&String>) -> Option<Seq<char>> {
    match s {
        Some(text) => Some(text@),
        None => None,
    }
}

/// The text to add, nothing where there is none.
pub open spec fn added(s: Option<Seq<char>>) -> Seq<char> {
    match s {
        Some(text) => text,
        None => Seq::empty(),
    }
}

/// The new name of a plain file. The name is cut before its last `.`; the
/// prefix goes before the first part, the suffix behind it, and the rest of
/// the name (the `.` and the extension) follows unchanged. Where a suffix is
/// asked for, the spaces of the first part become `.`.
pub open spec fn new_name(
    name: Seq<char>,
    prefix: Option<Seq<char>>,
    suffix: Option<Seq<char>>,
) -> Seq<char> {
    let dot = last_index_of(name, '.');
    let cut = if dot < 0 {
        name.len() as int
    } else {
        dot
    };
    let base = if suffix is Some {
        dots_for_spaces(name.take(cut))
    } else {
        name.take(cut)
    };
    added(prefix) + base + added(suffix) + name.skip(cut)
}

/// Makes the new name of a plain file from its name and the prefix and
/// suffix asked for. Without either, the name comes back as it is; with a
/// prefix alone, the prefix and the name.
pub fn get_new_name(name: &str, prefix: Option<&String>, suffix: Option<&String>) -> (r: String)
    ensures
        r@ == new_name(name@, option_text(prefix), option_text(suffix)),
        prefix is None && suffix is None ==> r@ == name@,
        suffix is None ==> r@ == added(option_text(prefix)) + name@,
{
    let chars = chars_of(name);
    let cut = match find_last(&chars, '.') {
        Some(dot) => dot,
        None => chars.len(),
    };
    let mut out: Vec<char> = Vec::new();
    match prefix {
        Some(text) => {
            push_str(&mut out, text.as_str());
        },
        None => {},
    }
    let ghost front = out@;
    assert(front =~= added(option_text(prefix)));
    match suffix {
        Some(text) => {
            let mut at: usize = 0;
            while at < cut
                invariant
                    at <= cut <= chars.len(),
                    out@ == front + dots_for_spaces(chars@.take(cut as int)).take(at as int),
                decreases cut - at,
            {
                let c = chars[at];
                if c == ' ' {
                    out.push('.');
                } else {
                    out.push(c);
                }
                at = at + 1;
                assert(out@ =~= front + dots_for_spaces(chars@.take(cut as int)).take(at as int));
            }
            assert(dots_for_spaces(chars@.take(cut as int)).take(cut as int) =~= dots_for_spaces(
                chars@.take(cut as int),
            ));
            push_str(&mut out, text.as_str());
        },
        None => {
            push_range(&mut out, &chars, 0, cut);
            assert(chars@.subrange(0, cut as int) =~= chars@.take(cut as int));
        },
    }
    push_range(&mut out, &chars, cut, chars.len());
    assert(chars@.subrange(cut as int, chars.len() as int) =~= chars@.skip(cut as int));
    assert(out@ =~= new_name(name@, option_text(prefix), option_text(suffix)));
    assert(chars@.take(cut as int) + chars@.skip(cut as int) =~= chars@);
    if suffix.is_none() {
        assert(out@ =~= added(option_text(prefix)) + name@);
    }
    string_of(&out)
}

/// The plan for a plain file.
pub open spec fn plain_plan(
    dir: Seq<char>,
    name: Seq<char>,
    prefix: Option<Seq<char>>,
    suffix: Option<Seq<char>>,
) -> (Seq<char>, Seq<char>) {
    (joined(dir, name), joined(dir, new_name(name, prefix, suffix)))
}

/// Plans the new name of a plain file in its directory. Without a prefix
/// and without a suffix the plan leaves the file where it is.
pub fn rename_single_file(
    dir: &str,
    file_name: &str,
    prefix: Option<&String>,
    suffix: Option<&String>,
) -> (plan: RenamePlan)
    ensures
        plan.paths() == plain_plan(dir@, file_name@, option_text(prefix), option_text(suffix)),
        prefix is None && suffix is None ==> plan.destination@ == plan.source@,
{
    let name = get_new_name(file_name, prefix, suffix);
    RenamePlan { source: join(dir, file_name), destination: join(dir, name.as_str()) }
}

/// The name of a video file of a film: `Safe.Title.(Year).ext`, with the
/// extension of the file as it is named now, `mp4` where it has none.
pub open spec fn video_file_name(title: Seq<char>, date: DateKey, name: Seq<char>) -> Seq<char> {
    film_name(title, date) + "."@ + extension_or(name, "mp4"@)
}

/// The characters of `video_file_name`.
fn video_file_chars(title: &str, date: &DateKey, file_name: &str) -> (r: Vec<char>)
    ensures
        r@ == video_file_name(title@, *date, file_name@),
{
    let mut out: Vec<char> = Vec::new();
    push_film_name(&mut out, title, date);
    push_str(&mut out, ".");
    let name = chars_of(file_name);
    push_extension_or(&mut out, &name, "mp4");
    assert(out@ =~= video_file_name(title@, *date, file_name@));
    out
}

/// Makes the name of a video file from the title and release day of its
/// film.
pub fn format_video_filename(title: &str, date: &DateKey, file_name: &str) -> (r: String)
    ensures
        r@ == video_file_name(title@, *date, file_name@),
{
    let out = video_file_chars(title, date, file_name);
    string_of(&out)
}

/// The plan for a video in the flat layout, if its film is known.
pub open spec fn video_plan(dir: Seq<char>, name: Seq<char>, response: Option<Seq<char>>) -> Option<
    (Seq<char>, Seq<char>),
> {
    match video_metadata(name, response) {
        Some((title, date)) => Some(
            (joined(dir, name), joined(dir, video_file_name(title, date, name))),
        ),
        None => None,
    }
}

/// Plans the new name of a video in its directory, from the answer of the
/// title service. A video whose film is not known gets no plan.
pub fn rename_video_file(dir: &str, file_name: &str, response: Option<&str>) -> (plan: Option<
    RenamePlan,
>)
    ensures
        plan_paths(plan) == video_plan(dir@, file_name@, str_of(response)),
{
    match get_video_metadata(file_name, response) {
        Some(record) => {
            let name = format_video_filename(
                record.title.as_str(),
                &record.release_date,
                file_name,
            );
            Some(RenamePlan { source: join(dir, file_name), destination: join(dir, name.as_str()) })
        },
        None => None,
    }
}

/// The plan for a file in the flat layout. An image is named after its day;
/// an image without a day is renamed as a plain file is. A video is named
/// after its film and gets no plan where the film is not known. Any other
/// file gets the prefix and the suffix.
pub open spec fn flat_plan(
    entry: FileEntry,
    prefix: Option<Seq<char>>,
    suffix: Option<Seq<char>>,
    counts: Counts,
) -> Option<(Seq<char>, Seq<char>)> {
    match entry.kind() {
        FileClassification::Image => match image_plan(
            entry.dir@,
            entry.name@,
            entry.bytes(),
            counts,
        ) {
            Some(plan) => Some(plan),
            None => Some(plain_plan(entry.dir@, entry.name@, prefix, suffix)),
        },
        FileClassification::Video => video_plan(entry.dir@, entry.name@, entry.answer()),
        FileClassification::Plain => Some(plain_plan(entry.dir@, entry.name@, prefix, suffix)),
    }
}

/// The counts after `flat_plan`: an image with a day is counted under it.
pub open spec fn flat_counts(entry: FileEntry, counts: Counts) -> Counts {
    match entry.kind() {
        FileClassification::Image => image_counts(entry.name@, entry.bytes(), counts),
        _ => counts,
    }
}

/// Plans one file in the flat layout.
pub fn process_file(
    entry: &FileEntry,
    prefix: Option<&String>,
    suffix: Option<&String>,
    counter: &mut NameCounter,
) -> (plan: Option<RenamePlan>)
    requires
        old(counter).wf(),
        old(counter).issued() < u64::MAX,
    ensures
        final(counter).wf(),
        plan_paths(plan) == flat_plan(
            *entry,
            option_text(prefix),
            option_text(suffix),
            old(counter)@,
        ),
        final(counter)@ == flat_counts(*entry, old(counter)@),
        old(counter).issued() <= final(counter).issued() <= old(counter).issued() + 1,
{
    let dir = entry.dir.as_str();
    let name = entry.name.as_str();
    match entry.classify() {
        FileClassification::Image => {
            match process_image(dir, name, entry.content_bytes(), counter) {
                Some(plan) => Some(plan),
                None => Some(rename_single_file(dir, name, prefix, suffix)),
            }
        },
        FileClassification::Video => rename_video_file(dir, name, entry.lookup_text()),
        FileClassification::Plain => Some(rename_single_file(dir, name, prefix, suffix)),
    }
}

/// The counts that the first `upto` files of a flat run leave behind.
pub open spec fn flat_counts_before(files: Seq<FileEntry>, upto: int, start: Counts) -> Counts
    decreases upto,
{
    if upto <= 0 {
        start
    } else {
        flat_counts(files[upto - 1], flat_counts_before(files, upto - 1, start))
    }
}

/// Plans a run in the flat layout. The files are taken in their order, and
/// each is planned against the counts that the files before it left: plan
/// `i` is the plan of file `i` at that point, and the counter ends with the
/// counts of the whole run.
pub fn rename_files(
    files: &Vec<FileEntry>,
    prefix: Option<&String>,
    suffix: Option<&String>,
    counter: &mut NameCounter,
) -> (plans: Vec<Option<RenamePlan>>)
    requires
        old(counter).wf(),
        old(counter).issued() + files.len() <= u64::MAX,
    ensures
        final(counter).wf(),
        plans.len() == files.len(),
        forall|i: int|
            0 <= i < files.len() ==> plan_paths(#[trigger] plans[i]) == flat_plan(
                files[i],
                option_text(prefix),
                option_text(suffix),
                flat_counts_before(files@, i, old(counter)@),
            ),
        final(counter)@ == flat_counts_before(files@, files.len() as int, old(counter)@),
        final(counter).issued() <= old(counter).issued() + files.len(),
{
    let mut plans: Vec<Option<RenamePlan>> = Vec::new();
    let ghost start = counter@;
    let ghost issued = counter.issued();
    let mut at: usize = 0;
    while at < files.len()
        invariant
            at <= files.len(),
            counter.wf(),
            issued + files.len() <= u64::MAX,
            counter.issued() <= issued + at,
            plans.len() == at,
            counter@ == flat_counts_before(files@, at as int, start),
            forall|i: int|
                0 <= i < at ==> plan_paths(#[trigger] plans[i]) == flat_plan(
                    files[i],
                    option_text(prefix),
                    option_text(suffix),
                    flat_counts_before(files@, i, start),
                ),
        decreases files.len() - at,
    {
        let plan = process_file(&files[at], prefix, suffix, counter);
        plans.push(plan);
        at = at + 1;
    }
    plans
}

/// Planning is repeatable: a flat run that is planned a second time over
/// the same files, with the same options and from the same counts, leaves
/// the same counts and gives every file the same plan. A plan depends on
/// nothing but the files up to it.
pub proof fn lemma_flat_planning_repeats(
    first: Seq<FileEntry>,
    second: Seq<FileEntry>,
    prefix: Option<Seq<char>>,
    suffix: Option<Seq<char>>,
    start: Counts,
    i: int,
)
    requires
        first.len() == second.len(),
        forall|k: int| 0 <= k < first.len() ==> same_file(#[trigger] first[k], second[k]),
        0 <= i <= first.len(),
    ensures
        flat_counts_before(first, i, start) == flat_counts_before(second, i, start),
        i < first.len() ==> flat_plan(first[i], prefix, suffix, flat_counts_before(first, i, start))
            == flat_plan(second[i], prefix, suffix, flat_counts_before(second, i, start)),
    decreases i,
{
    if i > 0 {
        lemma_flat_planning_repeats(first, second, prefix, suffix, start, i - 1);
        assert(same_file(first[i - 1], second[i - 1]));
    }
    if i < first.len() {
        assert(same_file(first[i], second[i]));
    }
}

/// The pattern that matches every entry of a directory: `dir/*`.
pub open spec fn entries_pattern(dir: Seq<char>) -> Seq<char> {
    dir + "/*"@
}

/// Makes the pattern under which the entries of a directory are listed.
pub fn directory_pattern(dir: &str) -> (pattern: String)
    ensures
        pattern@ == entries_pattern(dir@),
{
    let mut out: Vec<char> = Vec::new();
    push_str(&mut out, dir);
    push_str(&mut out, "/*");
    assert(out@ =~= entries_pattern(dir@));
    string_of(&out)
}

} // verus!
