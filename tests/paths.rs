use rusty_film::capture::{parse_exif_date, time_from_unix, CaptureTime};
use rusty_film::image::ImageInfo;
use rusty_film::metadata::{sidecar_output_path, xmp_pattern};
use rusty_film::text::{directory, extension, file_name, file_stem, join, replace_text};

fn may_first() -> CaptureTime {
    CaptureTime { year: 2023, month: 5, day: 1, hour: 10, minute: 30, second: 0 }
}

fn sample_image() -> ImageInfo {
    ImageInfo {
        filename: "/photos/IMG_0001.CR3".to_string(),
        original_date: Some(may_first()),
        hash: 0xDEADBEEF,
    }
}

#[test]
fn image_output_path_example() {
    let image = sample_image();
    let rel = ImageInfo::compute_output_path(
        image.filename(),
        image.original_date(),
        None,
        image.hash(),
    );
    assert_eq!(rel.as_deref(), Some("2023/05/01/20230501_103000_DEADBEEF.CR3"));
    assert_eq!(
        image.output_path("/dest", None).as_deref(),
        Some("/dest/2023/05/01/20230501_103000_DEADBEEF.CR3")
    );
}

#[test]
fn sidecar_output_path_example() {
    let image = sample_image();
    let out = sidecar_output_path(&image, "/dest", None, "/photos/IMG_0001.xmp");
    assert_eq!(out.as_deref(), Some("/dest/2023/05/01/20230501_103000_DEADBEEF.xmp"));
}

#[test]
fn sidecar_keeps_suffix_and_case() {
    let image = sample_image();
    let out = sidecar_output_path(&image, "/dest/", None, "/photos/IMG_0001.CR3_01.XMP");
    assert_eq!(
        out.as_deref(),
        Some("/dest/2023/05/01/20230501_103000_DEADBEEF.CR3_01.XMP")
    );
}

#[test]
fn output_path_is_deterministic() {
    let a = sample_image();
    let b = ImageInfo {
        filename: "/elsewhere/other_name.CR3".to_string(),
        original_date: Some(may_first()),
        hash: 0xDEADBEEF,
    };
    let first = a.output_path("/dest", None);
    let second = a.output_path("/dest", None);
    assert_eq!(first, second);
    assert_eq!(first, b.output_path("/dest", None));
}

#[test]
fn no_extension_gives_no_output_path() {
    let image = ImageInfo {
        filename: "/photos/README".to_string(),
        original_date: Some(may_first()),
        hash: 1,
    };
    assert_eq!(image.output_path("/dest", None), None);
}

#[test]
fn no_time_at_all_gives_no_output_path() {
    let image = ImageInfo { filename: "/photos/a.jpg".to_string(), original_date: None, hash: 1 };
    assert_eq!(image.output_path("/dest", None), None);
}

#[test]
fn creation_time_is_the_fallback() {
    let image = ImageInfo { filename: "/photos/a.jpg".to_string(), original_date: None, hash: 0x1F };
    assert_eq!(
        image.output_path("/dest", Some(86_400 + 3_661)).as_deref(),
        Some("/dest/1970/01/02/19700102_010101_0000001F.jpg")
    );
}

#[test]
fn unix_time_conversion() {
    assert_eq!(
        time_from_unix(0),
        Some(CaptureTime { year: 1970, month: 1, day: 1, hour: 0, minute: 0, second: 0 })
    );
    assert_eq!(
        time_from_unix(1_682_937_000),
        Some(may_first())
    );
}

#[test]
fn exif_date_parses() {
    assert_eq!(parse_exif_date("2023:05:01 10:30:00"), Some(may_first()));
    assert_eq!(ImageInfo::get_exif_date("2023:05:01 10:30:00"), Some(may_first()));
}

#[test]
fn bad_exif_date_is_none() {
    assert_eq!(parse_exif_date("2023-05-01 10:30:00"), None);
    assert_eq!(parse_exif_date("2023:13:01 10:30:00"), None);
    assert_eq!(parse_exif_date(""), None);
}

#[test]
fn load_keeps_fields_and_parses_tag() {
    let image = ImageInfo::load("/p/x.CR3".to_string(), 7, Some("2023:05:01 10:30:00".to_string()));
    assert_eq!(image.filename(), "/p/x.CR3");
    assert_eq!(image.hash(), 7);
    assert_eq!(image.original_date(), Some(may_first()));
    let undated = ImageInfo::load("/p/x.CR3".to_string(), 7, Some("garbage".to_string()));
    assert_eq!(undated.original_date(), None);
    let untagged = ImageInfo::load("/p/x.CR3".to_string(), 7, None);
    assert_eq!(untagged.original_date(), None);
}

#[test]
fn years_outside_four_digits_carry_sign() {
    let late = CaptureTime { year: 12345, month: 12, day: 31, hour: 23, minute: 59, second: 59 };
    assert_eq!(late.day_directory(), "+12345/12/31");
    let early = CaptureTime { year: -5, month: 1, day: 2, hour: 3, minute: 4, second: 5 };
    assert_eq!(early.stamp(), "-00050102_030405");
    let small = CaptureTime { year: 7, month: 1, day: 2, hour: 3, minute: 4, second: 5 };
    assert_eq!(small.stamp(), "00070102_030405");
}

#[test]
fn path_pieces() {
    assert_eq!(file_name("/a/b.tar.gz").as_deref(), Some("b.tar.gz"));
    assert_eq!(file_stem("/a/b.tar.gz").as_deref(), Some("b.tar"));
    assert_eq!(extension("/a/b.tar.gz").as_deref(), Some("gz"));
    assert_eq!(extension("/a/.bashrc"), None);
    assert_eq!(file_stem("/a/.bashrc").as_deref(), Some(".bashrc"));
    assert_eq!(extension("/a/b."), Some(String::new()));
    assert_eq!(file_name("/a/.."), None);
    assert_eq!(file_name("/a/"), None);
    assert_eq!(directory("/a/b.txt"), "/a");
    assert_eq!(directory("b.txt"), "");
}

#[test]
fn joining_paths() {
    assert_eq!(join("/dest", "x/y"), "/dest/x/y");
    assert_eq!(join("/dest/", "x/y"), "/dest/x/y");
    assert_eq!(join("", "x"), "x");
    assert_eq!(join("/dest", "/abs"), "/abs");
}

#[test]
fn replacing_every_occurrence() {
    assert_eq!(replace_text("IMG_1.IMG_1", "IMG_1", "Z"), "Z.Z");
    assert_eq!(replace_text("aaa", "aa", "b"), "ba");
    assert_eq!(replace_text("none here", "xyz", "q"), "none here");
}

#[test]
fn xmp_search_pattern() {
    assert_eq!(
        xmp_pattern("/photos/IMG_0001.CR3").as_deref(),
        Some("/photos/IMG_0001*.[Xx][Mm][Pp]")
    );
    assert_eq!(xmp_pattern("/photos/"), None);
}

#[test]
fn xmp_pattern_in_current_directory() {
    assert_eq!(xmp_pattern("IMG_0001.CR3").as_deref(), Some("IMG_0001*.[Xx][Mm][Pp]"));
    assert_eq!(xmp_pattern("/IMG.CR3").as_deref(), Some("/IMG*.[Xx][Mm][Pp]"));
}

#[test]
fn xmp_pattern_escapes_names() {
    assert_eq!(
        xmp_pattern("/a[1]/b*?.CR3").as_deref(),
        Some("/a[[]1[]]/b[*][?]*.[Xx][Mm][Pp]")
    );
}

#[test]
fn sidecar_example_in_relative_directory() {
    let image = ImageInfo {
        filename: "shots/IMG_0001.CR3".to_string(),
        original_date: Some(may_first()),
        hash: 0xDEADBEEF,
    };
    assert_eq!(
        image.output_path("out", None).as_deref(),
        Some("out/2023/05/01/20230501_103000_DEADBEEF.CR3")
    );
    assert_eq!(
        sidecar_output_path(&image, "out", None, "shots/IMG_0001.xmp").as_deref(),
        Some("out/2023/05/01/20230501_103000_DEADBEEF.xmp")
    );
}
