//! The organized layout: pictures and films move into a folder per year,
//! films into a folder of their own inside it.

use vstd::prelude::*;
use crate::classify::{same_file, FileClassification, FileEntry};
use crate::counter::{
    lemma_suffix_token_injective, lemma_suffix_token_shape, observed, push_suffix_token, suffix_after, suffix_token, Counts,
    NameCounter,
};
use crate::date::{push_year, DateKey};
use crate::image::{get_image_date, image_date, plan_paths};
use crate::path::{extension_or, join, join_chars, joined, push_extension_or, RenamePlan};
use crate::text::{chars_of, digit_char, push_range, push_str, str_of, string_of};
use crate::video::{film_name, get_video_metadata, push_film_name, video_metadata};

verus! {

/// The name of a picture of `date` that got the number `suffix`:
/// `YYYY-MM-DD`, the number's token, and the extension of the file as it is
/// named now, `jpg` where it has none.
pub open spec fn dated_name(date: DateKey, suffix: nat, name: Seq<char>) -> Seq<char> {
    date.dashed() + suffix_token(suffix) + "."@ + extension_or(name, "jpg"@)
}

/// The first picture of a day is named without a number, and the second to
/// the ninety-ninth with `-` and two digits before the extension.
pub proof fn lemma_dated_name_shape(date: DateKey, suffix: nat, name: Seq<char>)
    ensures
        suffix == 1 ==> dated_name(date, suffix, name) == date.dashed() + "."@ + extension_or(
            name,
            "jpg"@,
        ),
        2 <= suffix <= 99 ==> dated_name(date, suffix, name) == date.dashed() + seq![
            '-',
            digit_char(suffix / 10),
            digit_char(suffix % 10),
        ] + "."@ + extension_or(name, "jpg"@),
{
    lemma_suffix_token_shape(suffix);
    if suffix == 1 {
        assert(date.dashed() + Seq::<char>::empty() =~= date.dashed());
    }
}

/// Pictures of one day and one extension that got different numbers get
/// different names.
pub proof fn lemma_dated_names_differ(date: DateKey, a: nat, b: nat, name: Seq<char>)
    requires
        a >= 1,
        b >= 1,
        a != b,
    ensures
        dated_name(date, a, name) != dated_name(date, b, name),
{
    let front = date.dashed();
    let back = "."@ + extension_or(name, "jpg"@);
    let first = dated_name(date, a, name);
    let second = dated_name(date, b, name);
    if first == second {
        assert(first =~= front + suffix_token(a) + back);
        assert(second =~= front + suffix_token(b) + back);
        assert(first.len() == front.len() + suffix_token(a).len() + back.len());
        assert(second.len() == front.len() + suffix_token(b).len() + back.len());
        assert forall|i: int| 0 <= i < suffix_token(a).len() implies suffix_token(a)[i]
            == suffix_token(b)[i] by {
            assert(first[front.len() + i] == suffix_token(a)[i]);
            assert(second[front.len() + i] == suffix_token(b)[i]);
        }
        assert(suffix_token(a) =~= suffix_token(b));
        lemma_suffix_token_injective(a, b);
    }
}

/// Where a picture goes: into the folder of its year, beside where it is.
pub open spec fn dated_path(dir: Seq<char>, name: Seq<char>, date: DateKey, suffix: nat) -> Seq<
    char,
> {
    joined(joined(dir, date.year_name()), dated_name(date, suffix, name))
}

/// Makes the path of a picture in the organized layout. The day in the form
/// `YYYY-MM-DD` is the key under which the counter numbers the pictures.
pub fn create_new_path(dir: &str, file_name: &str, date: &DateKey, counter: &mut NameCounter) -> (path:
    String)
    requires
        old(counter).wf(),
        old(counter).issued() < u64::MAX,
    ensures
        final(counter).wf(),
        final(counter)@ == observed(old(counter)@, date.dashed()),
        final(counter).issued() == old(counter).issued() + 1,
        path@ == dated_path(dir@, file_name@, *date, suffix_after(old(counter)@, date.dashed())),
{
    let mut key: Vec<char> = Vec::new();
    date.push_dashed(&mut key);
    assert(key@ =~= date.dashed());
    let key_text = string_of(&key);
    let suffix = counter.next_suffix(key_text.as_str());
    let mut name: Vec<char> = Vec::new();
    push_range(&mut name, &key, 0, key.len());
    assert(key@.subrange(0, key.len() as int) =~= key@);
    push_suffix_token(&mut name, suffix);
    push_str(&mut name, ".");
    let old_name = chars_of(file_name);
    push_extension_or(&mut name, &old_name, "jpg");
    assert(name@ =~= dated_name(*date, suffix as nat, file_name@));
    let mut year: Vec<char> = Vec::new();
    push_year(&mut year, date.year);
    assert(year@ =~= date.year_name());
    let parent = chars_of(dir);
    let folder = join_chars(&parent, &year);
    let path = join_chars(&folder, &name);
    string_of(&path)
}

/// Where the file of a film goes: into the folder of the film, inside the
/// folder of the year of its release, beside where the file is.
pub open spec fn film_path(dir: Seq<char>, name: Seq<char>, title: Seq<char>, date: DateKey) -> Seq<
    char,
> {
    joined(
        joined(joined(dir, date.year_name()), film_name(title, date)),
        film_name(title, date) + "."@ + extension_or(name, "mp4"@),
    )
}

/// Makes the path of a video in the organized layout.
pub fn create_new_video_path(dir: &str, file_name: &str, title: &str, date: &DateKey) -> (path:
    String)
    ensures
        path@ == film_path(dir@, file_name@, title@, *date),
{
    let mut year: Vec<char> = Vec::new();
    push_year(&mut year, date.year);
    assert(year@ =~= date.year_name());
    let mut film: Vec<char> = Vec::new();
    push_film_name(&mut film, title, date);
    assert(film@ =~= film_name(title@, *date));
    let mut name: Vec<char> = Vec::new();
    push_range(&mut name, &film, 0, film.len());
    assert(film@.subrange(0, film.len() as int) =~= film@);
    push_str(&mut name, ".");
    let old_name = chars_of(file_name);
    push_extension_or(&mut name, &old_name, "mp4");
    assert(name@ =~= film_name(title@, *date) + "."@ + extension_or(file_name@, "mp4"@));
    let parent = chars_of(dir);
    let year_folder = join_chars(&parent, &year);
    let film_folder = join_chars(&year_folder, &film);
    let path = join_chars(&film_folder, &name);
    string_of(&path)
}

/// The plan for a picture in the organized layout, if it has a day.
pub open spec fn organized_image_plan(
    dir: Seq<char>,
    name: Seq<char>,
    content: Seq<u8>,
    counts: Counts,
) -> Option<(Seq<char>, Seq<char>)> {
    match image_date(name, content) {
        Some(date) => Some(
            (
                joined(dir, name),
                dated_path(dir, name, date, suffix_after(counts, date.dashed())),
            ),
        ),
        None => None,
    }
}

/// The counts after `organized_image_plan`.
pub open spec fn organized_image_counts(name: Seq<char>, content: Seq<u8>, counts: Counts) -> Counts {
    match image_date(name, content) {
        Some(date) => observed(counts, date.dashed()),
        None => counts,
    }
}

/// Plans the move of a picture into the folder of its year. A picture
/// without a day gets no plan: it stays where it is, and the counter stays
/// as it is.
pub fn organize_image(dir: &str, file_name: &str, content: &[u8], counter: &mut NameCounter) -> (plan:
    Option<RenamePlan>)
    requires
        old(counter).wf(),
        old(counter).issued() < u64::MAX,
    ensures
        final(counter).wf(),
        plan_paths(plan) == organized_image_plan(dir@, file_name@, content@, old(counter)@),
        final(counter)@ == organized_image_counts(file_name@, content@, old(counter)@),
        image_date(file_name@, content@) is None ==> plan is None && final(counter)@ == old(
            counter,
        )@,
        final(counter).issued() == old(counter).issued() + (if plan is Some {
            1nat
        } else {
            0nat
        }),
{
    match get_image_date(file_name, content) {
        Some(date) => {
            let destination = create_new_path(dir, file_name, &date, counter);
            Some(RenamePlan { source: join(dir, file_name), destination })
        },
        None => None,
    }
}

/// The plan for a video in the organized layout, if its film is known.
pub open spec fn organized_video_plan(
    dir: Seq<char>,
    name: Seq<char>,
    response: Option<Seq<char>>,
) -> Option<(Seq<char>, Seq<char>)> {
    match video_metadata(name, response) {
        Some((title, date)) => Some((joined(dir, name), film_path(dir, name, title, date))),
        None => None,
    }
}

/// Plans the move of a video into the folder of its film, from the answer
/// of the title service. A video whose film is not known gets no plan.
pub fn organize_video(dir: &str, file_name: &str, response: Option<&str>) -> (plan: Option<
    RenamePlan,
>)
    ensures
        plan_paths(plan) == organized_video_plan(dir@, file_name@, str_of(response)),
{
    match get_video_metadata(file_name, response) {
        Some(record) => {
            let destination = create_new_video_path(
                dir,
                file_name,
                record.title.as_str(),
                &record.release_date,
            );
            Some(RenamePlan { source: join(dir, file_name), destination })
        },
        None => None,
    }
}

/// The plan for a file in the organized layout. Only pictures with a day
/// and videos with a known film are moved; every other file is passed over.
pub open spec fn organized_plan(entry: FileEntry, counts: Counts) -> Option<(Seq<char>, Seq<char>)> {
    match entry.kind() {
        FileClassification::Image => organized_image_plan(
            entry.dir@,
            entry.name@,
            entry.bytes()->0,
            counts,
        ),
        FileClassification::Video => organized_video_plan(entry.dir@, entry.name@, entry.answer()),
        FileClassification::Plain => None,
    }
}

/// The counts after `organized_plan`: a picture with a day is counted under
/// it.
pub open spec fn organized_counts(entry: FileEntry, counts: Counts) -> Counts {
    match entry.kind() {
        FileClassification::Image => organized_image_counts(entry.name@, entry.bytes()->0, counts),
        _ => counts,
    }
}

/// Plans one file in the organized layout. A file that gets no plan is left
/// untouched, and leaves the counter as it is.
pub fn process_single_file(entry: &FileEntry, counter: &mut NameCounter) -> (plan: Option<
    RenamePlan,
>)
    requires
        old(counter).wf(),
        old(counter).issued() < u64::MAX,
    ensures
        final(counter).wf(),
        plan_paths(plan) == organized_plan(*entry, old(counter)@),
        final(counter)@ == organized_counts(*entry, old(counter)@),
        plan is None ==> final(counter)@ == old(counter)@,
        entry.kind() == FileClassification::Image && image_date(entry.name@, entry.bytes()->0)
            is None ==> plan is None,
        old(counter).issued() <= final(counter).issued() <= old(counter).issued() + 1,
{
    let dir = entry.dir.as_str();
    let name = entry.name.as_str();
    match entry.classify() {
        FileClassification::Image => match entry.content_bytes() {
            Some(content) => organize_image(dir, name, content, counter),
            None => None,
        },
        FileClassification::Video => organize_video(dir, name, entry.lookup_text()),
        FileClassification::Plain => None,
    }
}

/// The counts that the first `upto` files of an organized run leave behind.
pub open spec fn organized_counts_before(files: Seq<FileEntry>, upto: int, start: Counts) -> Counts
    decreases upto,
{
    if upto <= 0 {
        start
    } else {
        organized_counts(files[upto - 1], organized_counts_before(files, upto - 1, start))
    }
}

/// Plans a run in the organized layout. The files are taken in their order,
/// and each is planned against the counts that the files before it left:
/// plan `i` is the plan of file `i` at that point, and the counter ends with
/// the counts of the whole run.
pub fn organize_files(files: &Vec<FileEntry>, counter: &mut NameCounter) -> (plans: Vec<
    Option<RenamePlan>,
>)
    requires
        old(counter).wf(),
        old(counter).issued() + files.len() <= u64::MAX,
    ensures
        final(counter).wf(),
        plans.len() == files.len(),
        forall|i: int|
            0 <= i < files.len() ==> plan_paths(#[trigger] plans[i]) == organized_plan(
                files[i],
                organized_counts_before(files@, i, old(counter)@),
            ),
        final(counter)@ == organized_counts_before(files@, files.len() as int, old(counter)@),
        final(counter).issued() <= old(counter).issued() + files.len(),
{
    let mut plans: Vec<Option<RenamePlan>> = Vec::new();
    let ghost start = counter@;
    let ghost issued = counter.issued();
    let mut at: usize = 0;
    while at < files.len()
        invariant
            at <= files.len(),
            counter.wf(),
            issued + files.len() <= u64::MAX,
            counter.issued() <= issued + at,
            plans.len() == at,
            counter@ == organized_counts_before(files@, at as int, start),
            forall|i: int|
                0 <= i < at ==> plan_paths(#[trigger] plans[i]) == organized_plan(
                    files[i],
                    organized_counts_before(files@, i, start),
                ),
        decreases files.len() - at,
    {
        let plan = process_single_file(&files[at], counter);
        plans.push(plan);
        at = at + 1;
    }
    plans
}

/// Planning is repeatable: an organized run that is planned a second time
/// over the same files and from the same counts, before anything has been
/// moved, leaves the same counts and gives every file the same plan. A plan
/// depends on nothing but the files up to it.
pub proof fn lemma_organized_planning_repeats(
    first: Seq<FileEntry>,
    second: Seq<FileEntry>,
    start: Counts,
    i: int,
)
    requires
        first.len() == second.len(),
        forall|k: int| 0 <= k < first.len() ==> same_file(#[trigger] first[k], second[k]),
        0 <= i <= first.len(),
    ensures
        organized_counts_before(first, i, start) == organized_counts_before(second, i, start),
        i < first.len() ==> organized_plan(first[i], organized_counts_before(first, i, start))
            == organized_plan(second[i], organized_counts_before(second, i, start)),
    decreases i,
{
    if i > 0 {
        lemma_organized_planning_repeats(first, second, start, i - 1);
        assert(same_file(first[i - 1], second[i - 1]));
    }
    if i < first.len() {
        assert(same_file(first[i], second[i]));
    }
}

} // verus!
