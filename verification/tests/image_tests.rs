use hoarder::counter::NameCounter;
use hoarder::date::DateKey;
use hoarder::image::{
    find_digit_run, get_exif_date, get_fallback_date, get_image_date, is_image, is_image_mime,
    process_image, rename,
};
use hoarder::path::RenamePlan;
use hoarder::text::chars_of;

const PNG: [u8; 12] = [0x89, 0x50, 0x4E, 0x47, 0x0D, 0x0A, 0x1A, 0x0A, 0, 0, 0, 0];
const JPEG: [u8; 4] = [0xFF, 0xD8, 0xFF, 0xAA];

/// A TIFF file whose only content is the time the picture was taken.
fn tiff_taken_at(stamp: &str) -> Vec<u8> {
    assert_eq!(stamp.len(), 19);
    let mut bytes: Vec<u8> = vec![0x49, 0x49, 0x2A, 0x00, 8, 0, 0, 0];
    // first directory: one entry, the pointer to the Exif directory at 26
    bytes.extend_from_slice(&[1, 0, 0x69, 0x87, 4, 0, 1, 0, 0, 0, 26, 0, 0, 0, 0, 0, 0, 0]);
    // Exif directory: one entry, the capture time, 20 bytes of text at 44
    bytes.extend_from_slice(&[1, 0, 0x03, 0x90, 2, 0, 20, 0, 0, 0, 44, 0, 0, 0, 0, 0, 0, 0]);
    bytes.extend_from_slice(stamp.as_bytes());
    bytes.push(0);
    bytes
}

#[test]
fn image_mime_types() {
    assert!(is_image_mime("image/jpeg"));
    assert!(is_image_mime("image/"));
    assert!(!is_image_mime("video/mp4"));
    assert!(!is_image_mime("image"));
    assert!(!is_image_mime(" image/png"));
    assert!(!is_image_mime(""));
}

#[test]
fn images_are_told_by_their_bytes() {
    assert!(is_image(Some(&PNG)));
    assert!(is_image(Some(&JPEG)));
    assert!(is_image(Some(&tiff_taken_at("2021:03:04 05:06:07"))));
}

#[test]
fn other_bytes_are_no_images() {
    assert!(!is_image(Some(b"just some text")));
    assert!(!is_image(Some(b"")));
    // the signature of a PDF, which is known and no image
    assert!(!is_image(Some(b"%PDF-1.7 and so on")));
}

#[test]
fn unreadable_files_are_no_images() {
    assert!(!is_image(None));
}

#[test]
fn digit_runs() {
    assert_eq!(find_digit_run(&chars_of("vacation.20230615.jpg")), Some(9));
    assert_eq!(find_digit_run(&chars_of("20230615")), Some(0));
    assert_eq!(find_digit_run(&chars_of("a1234567b12345678")), Some(9));
    assert_eq!(find_digit_run(&chars_of("123456789")), Some(0));
    assert_eq!(find_digit_run(&chars_of("1234567")), None);
    assert_eq!(find_digit_run(&chars_of("1234-5678")), None);
    assert_eq!(find_digit_run(&chars_of("")), None);
}

#[test]
fn day_from_the_file_name() {
    assert_eq!(
        get_fallback_date("vacation.20230615.jpg"),
        Some(DateKey { year: 2023, month: 6, day: 15 })
    );
    assert_eq!(
        get_fallback_date("IMG_20191231_235959.jpg"),
        Some(DateKey { year: 2019, month: 12, day: 31 })
    );
}

#[test]
fn only_the_first_run_is_tried() {
    assert_eq!(get_fallback_date("99999999_20230615.jpg"), None);
    assert_eq!(get_fallback_date("20231301.jpg"), None);
    assert_eq!(get_fallback_date("20230230.jpg"), None);
    assert_eq!(get_fallback_date("holiday.jpg"), None);
    assert_eq!(get_fallback_date("1202306159.jpg"), None);
}

#[test]
fn day_from_the_metadata() {
    assert_eq!(
        get_exif_date(&tiff_taken_at("2021:03:04 05:06:07")),
        Some(DateKey { year: 2021, month: 3, day: 4 })
    );
}

#[test]
fn metadata_without_a_usable_day() {
    assert_eq!(get_exif_date(&tiff_taken_at("2021:13:04 05:06:07")), None);
    assert_eq!(get_exif_date(&tiff_taken_at("    :  :     :  :  ")), None);
    assert_eq!(get_exif_date(&tiff_taken_at("not a time at all!!")), None);
    assert_eq!(get_exif_date(&PNG), None);
    assert_eq!(get_exif_date(b""), None);
    assert_eq!(get_exif_date(b"plain text"), None);
}

#[test]
fn metadata_goes_before_the_name() {
    let taken = tiff_taken_at("2021:03:04 05:06:07");
    assert_eq!(
        get_image_date("vacation.20230615.tif", &taken),
        Some(DateKey { year: 2021, month: 3, day: 4 })
    );
    let broken = tiff_taken_at("2021:13:04 05:06:07");
    assert_eq!(
        get_image_date("vacation.20230615.tif", &broken),
        Some(DateKey { year: 2023, month: 6, day: 15 })
    );
    assert_eq!(
        get_image_date("vacation.20230615.jpg", &PNG),
        Some(DateKey { year: 2023, month: 6, day: 15 })
    );
    assert_eq!(get_image_date("vacation.jpg", &PNG), None);
}

#[test]
fn pictures_are_named_after_their_day() {
    let mut counter = NameCounter::new();
    let day = DateKey { year: 2023, month: 6, day: 15 };
    assert_eq!(rename("photos", &day, &mut counter), "photos/IMG_20230615.jpg");
    assert_eq!(rename("photos", &day, &mut counter), "photos/IMG_20230615-02.jpg");
    assert_eq!(rename("", &day, &mut counter), "IMG_20230615-03.jpg");
    let other = DateKey { year: 2023, month: 6, day: 16 };
    assert_eq!(rename("photos/", &other, &mut counter), "photos/IMG_20230616.jpg");
    assert_eq!(counter.seen("20230615"), 3);
    assert_eq!(counter.seen("20230616"), 1);
}

#[test]
fn picture_with_the_day_in_its_name() {
    let mut counter = NameCounter::new();
    let plan = process_image("trip", "vacation.20230615.jpg", Some(&JPEG), &mut counter);
    assert_eq!(
        plan,
        Some(RenamePlan {
            source: "trip/vacation.20230615.jpg".to_string(),
            destination: "trip/IMG_20230615.jpg".to_string(),
        })
    );
}

#[test]
fn extension_gives_way_to_jpg() {
    let mut counter = NameCounter::new();
    let plan = process_image("", "scan-20230615.PNG", Some(&PNG), &mut counter);
    assert_eq!(
        plan,
        Some(RenamePlan {
            source: "scan-20230615.PNG".to_string(),
            destination: "IMG_20230615.jpg".to_string(),
        })
    );
}

#[test]
fn no_plan_without_image_or_day() {
    let mut counter = NameCounter::new();
    assert_eq!(process_image("d", "vacation.20230615.jpg", Some(b"text"), &mut counter), None);
    assert_eq!(process_image("d", "vacation.20230615.jpg", None, &mut counter), None);
    assert_eq!(process_image("d", "vacation.jpg", Some(&PNG), &mut counter), None);
    assert_eq!(counter.total(), 0);
    assert_eq!(counter.seen("20230615"), 0);
}
