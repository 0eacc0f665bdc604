use hoarder::classify::{classify, FileClassification, FileEntry};
use hoarder::counter::NameCounter;
use hoarder::date::DateKey;
use hoarder::organize::{
    create_new_path, create_new_video_path, organize_files, organize_image, organize_video,
    process_single_file,
};
use hoarder::path::RenamePlan;

const PNG: [u8; 12] = [0x89, 0x50, 0x4E, 0x47, 0x0D, 0x0A, 0x1A, 0x0A, 0, 0, 0, 0];
const ANSWER: &str = r#"{"results":[{"title":"Movie Title","release_date":"2020-05-01"}]}"#;

fn entry(dir: &str, name: &str, content: Option<&[u8]>, lookup: Option<&str>) -> FileEntry {
    FileEntry {
        dir: dir.to_string(),
        name: name.to_string(),
        content: content.map(|bytes| bytes.to_vec()),
        lookup: lookup.map(|body| body.to_string()),
    }
}

fn plan(source: &str, destination: &str) -> Option<RenamePlan> {
    Some(RenamePlan { source: source.to_string(), destination: destination.to_string() })
}

#[test]
fn kinds_of_files() {
    assert_eq!(classify("a.png", Some(&PNG)), FileClassification::Image);
    assert_eq!(classify("a.txt", Some(&PNG)), FileClassification::Image);
    assert_eq!(classify("a.mkv", Some(b"some bytes")), FileClassification::Video);
    assert_eq!(classify("a.MKV", Some(b"")), FileClassification::Video);
    assert_eq!(classify("a.txt", Some(b"some bytes")), FileClassification::Plain);
    assert_eq!(classify("a.png", Some(b"some bytes")), FileClassification::Plain);
}

#[test]
fn unreadable_files_are_plain() {
    assert_eq!(classify("a.png", None), FileClassification::Plain);
    assert_eq!(classify("a.mkv", None), FileClassification::Plain);
    assert_eq!(classify("a.txt", None), FileClassification::Plain);
}

#[test]
fn bytes_go_before_the_extension() {
    assert_eq!(classify("a.mkv", Some(&PNG)), FileClassification::Image);
    assert_eq!(entry("d", "a.mkv", Some(&PNG), None).classify(), FileClassification::Image);
    assert_eq!(entry("d", "a.mkv", Some(b"x"), None).classify(), FileClassification::Video);
    assert_eq!(entry("d", "a.mkv", None, None).classify(), FileClassification::Plain);
}

#[test]
fn requests_are_for_videos_only() {
    let video = entry("d", "Movie.Title.1080p.mkv", Some(b"film"), None);
    assert_eq!(
        video.lookup_request(Some("k")),
        Some("https://api.themoviedb.org/3/search/movie?api_key=k&query=Movie+Title".to_string())
    );
    assert_eq!(video.lookup_request(None), None);
    assert_eq!(entry("d", "Movie.Title.txt", Some(b"film"), None).lookup_request(Some("k")), None);
    assert_eq!(entry("d", "Movie.Title.mkv", None, None).lookup_request(Some("k")), None);
    assert_eq!(entry("d", "Movie.Title.mkv", Some(&PNG), None).lookup_request(Some("k")), None);
}

#[test]
fn picture_paths() {
    let mut counter = NameCounter::new();
    let day = DateKey { year: 2023, month: 6, day: 15 };
    assert_eq!(
        create_new_path("photos", "a.png", &day, &mut counter),
        "photos/2023/2023-06-15.png"
    );
    assert_eq!(
        create_new_path("photos", "b.JPG", &day, &mut counter),
        "photos/2023/2023-06-15-02.JPG"
    );
    assert_eq!(create_new_path("", "c", &day, &mut counter), "2023/2023-06-15-03.jpg");
    assert_eq!(counter.seen("2023-06-15"), 3);
}

#[test]
fn film_paths() {
    let day = DateKey { year: 2020, month: 5, day: 1 };
    assert_eq!(
        create_new_video_path("films", "x.mkv", "Movie Title", &day),
        "films/2020/Movie.Title.(2020)/Movie.Title.(2020).mkv"
    );
    assert_eq!(
        create_new_video_path("", "x", "Movie Title", &day),
        "2020/Movie.Title.(2020)/Movie.Title.(2020).mp4"
    );
}

#[test]
fn film_in_the_organized_layout() {
    assert_eq!(
        organize_video("parent", "Movie.Title.2020.1080p.BluRay.x264.mkv", Some(ANSWER)),
        plan(
            "parent/Movie.Title.2020.1080p.BluRay.x264.mkv",
            "parent/2020/Movie.Title.(2020)/Movie.Title.(2020).mkv"
        )
    );
}

#[test]
fn film_that_is_not_known_stays() {
    assert_eq!(organize_video("parent", "Movie.Title.mkv", None), None);
    assert_eq!(organize_video("parent", "Movie.Title.mkv", Some(r#"{"results":[]}"#)), None);
    assert_eq!(organize_video("parent", "1080p.mkv", Some(ANSWER)), None);
}

#[test]
fn picture_without_a_day_stays() {
    let mut counter = NameCounter::new();
    counter.next_suffix("2023-06-15");
    assert_eq!(organize_image("photos", "holiday.png", &PNG, &mut counter), None);
    assert_eq!(counter.total(), 1);
    assert_eq!(counter.seen("2023-06-15"), 1);
    let file = entry("photos", "holiday.png", Some(&PNG), None);
    assert_eq!(process_single_file(&file, &mut counter), None);
    assert_eq!(counter.total(), 1);
}

#[test]
fn picture_with_a_day_moves() {
    let mut counter = NameCounter::new();
    assert_eq!(
        organize_image("photos", "holiday 20230615.png", &PNG, &mut counter),
        plan("photos/holiday 20230615.png", "photos/2023/2023-06-15.png")
    );
}

#[test]
fn organized_run_over_all_kinds() {
    let files = vec![
        entry("d", "notes.txt", Some(b"hello"), None),
        entry("d", "pic.20230615.png", Some(&PNG), None),
        entry("d/sub", "Movie.Title.1080p.mkv", Some(b"not sniffed"), Some(ANSWER)),
        entry("d", "Unknown.mkv", Some(b"not sniffed"), None),
        entry("d", "pic.png", Some(&PNG), None),
        entry("d", "locked.20230615.jpg", None, None),
        entry("d", "pic2.20230615.gif", Some(&PNG), None),
    ];
    let mut counter = NameCounter::new();
    let plans = organize_files(&files, &mut counter);
    assert_eq!(
        plans,
        vec![
            None,
            plan("d/pic.20230615.png", "d/2023/2023-06-15.png"),
            plan(
                "d/sub/Movie.Title.1080p.mkv",
                "d/sub/2020/Movie.Title.(2020)/Movie.Title.(2020).mkv"
            ),
            None,
            None,
            None,
            plan("d/pic2.20230615.gif", "d/2023/2023-06-15-02.gif"),
        ]
    );
    assert_eq!(counter.total(), 2);
    assert_eq!(counter.seen("2023-06-15"), 2);
}

#[test]
fn organizing_twice_from_fresh_counters_agrees() {
    let files = vec![
        entry("d", "pic.20230615.png", Some(&PNG), None),
        entry("d", "pic2.20230615.png", Some(&PNG), None),
        entry("d", "Movie.Title.1080p.mkv", Some(b"film"), Some(ANSWER)),
    ];
    let first = organize_files(&files, &mut NameCounter::new());
    let second = organize_files(&files, &mut NameCounter::new());
    assert_eq!(first, second);
}
