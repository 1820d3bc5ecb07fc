use rusty_film::cache::{decode_record, encode_record, load_from_cache, CacheLookup};
use rusty_film::capture::CaptureTime;
use rusty_film::copy::{plan_safe_copy, temp_path, CopyPlan};
use rusty_film::image::{ContentHasher, ImageInfo};
use rusty_film::import::{image_step, sidecar_needs_copy, ImageStep};
use rusty_film::metadata::{collect_discovered, FileTime, ImageMetadataFile};
use std::collections::HashSet;

fn dated_image() -> ImageInfo {
    ImageInfo {
        filename: "/photos/IMG_0001.CR3".to_string(),
        original_date: Some(CaptureTime {
            year: 2023,
            month: 5,
            day: 1,
            hour: 10,
            minute: 30,
            second: 0,
        }),
        hash: 0xDEADBEEF,
    }
}

fn sample_bytes() -> Vec<u8> {
    (0..10_000u32).map(|i| (i * 31 % 251) as u8).collect()
}

#[test]
fn checksum_known_value() {
    assert_eq!(ImageInfo::compute_hash(b"123456789"), 0xE306_9283);
    assert_eq!(ImageInfo::compute_chunked_hash(b"123456789", 4096), 0xE306_9283);
}

#[test]
fn checksum_ignores_chunk_size() {
    let data = sample_bytes();
    let whole = ImageInfo::compute_hash(&data);
    for size in [1usize, 7, 64, 4096, 10_000, 20_000] {
        assert_eq!(ImageInfo::compute_chunked_hash(&data, size), whole);
    }
}

#[test]
fn streaming_hasher_matches_whole() {
    let data = sample_bytes();
    let mut hasher = ContentHasher::new();
    for piece in data.chunks(333) {
        hasher.update(piece);
    }
    assert_eq!(hasher.finish(), ImageInfo::compute_hash(&data));
    assert_ne!(hasher.finish(), 0);
}

#[test]
fn empty_content_hashes_to_zero() {
    assert_eq!(ImageInfo::compute_hash(&[]), 0);
    assert_eq!(ImageInfo::compute_chunked_hash(&[], 4096), 0);
}

#[test]
fn record_round_trips() {
    let image = dated_image();
    let bytes = encode_record(&image);
    assert_eq!(bytes.len(), 15);
    let back = decode_record("/photos/IMG_0001.CR3", &bytes).expect("reads back");
    assert_eq!(back.filename(), "/photos/IMG_0001.CR3");
    assert_eq!(back.original_date(), image.original_date());
    assert_eq!(back.hash(), 0xDEADBEEF);

    let undated = ImageInfo { filename: "/p/a.jpg".to_string(), original_date: None, hash: 42 };
    let bytes = encode_record(&undated);
    assert_eq!(bytes, vec![1, 0, 42, 0, 0, 0]);
    let back = decode_record("/p/a.jpg", &bytes).expect("reads back");
    assert_eq!(back.original_date(), None);
    assert_eq!(back.hash(), 42);
}

#[test]
fn cache_hit_needs_no_file() {
    let image = dated_image();
    let stored = encode_record(&image);
    match load_from_cache("/photos/IMG_0001.CR3", Some(stored)) {
        CacheLookup::Hit(found) => {
            assert_eq!(found.hash(), image.hash());
            assert_eq!(found.original_date(), image.original_date());
            assert_eq!(
                found.output_path("/dest", None),
                image.output_path("/dest", None)
            );
        }
        _ => panic!("expected a hit"),
    }
}

#[test]
fn cache_miss_when_nothing_stored() {
    assert!(matches!(load_from_cache("/p/a.jpg", None), CacheLookup::Miss));
}

#[test]
fn corrupt_entry_is_stale_then_heals() {
    let image = dated_image();
    let mut stored = encode_record(&image);
    stored[6] = 13;
    assert!(matches!(load_from_cache("/photos/IMG_0001.CR3", Some(stored)), CacheLookup::Stale));
    assert!(matches!(
        load_from_cache("/photos/IMG_0001.CR3", Some(vec![9, 9, 9])),
        CacheLookup::Stale
    ));
    assert!(matches!(load_from_cache("/p", Some(Vec::new())), CacheLookup::Stale));
    let healed = encode_record(&image);
    assert!(matches!(load_from_cache("/photos/IMG_0001.CR3", Some(healed)), CacheLookup::Hit(_)));
}

#[test]
fn copy_goes_through_temp_file() {
    match plan_safe_copy("/src/a.CR3", "/dest/2023/05/01/x.CR3", false) {
        Some(CopyPlan::Copy { directory, temp, destination }) => {
            assert_eq!(directory, "/dest/2023/05/01");
            assert_eq!(temp, "/dest/2023/05/01/x.CR3.tmp");
            assert_eq!(destination, "/dest/2023/05/01/x.CR3");
            assert_ne!(temp, destination);
        }
        _ => panic!("expected a copy"),
    }
    assert_eq!(temp_path("/d/noext").as_deref(), Some("/d/noext..tmp"));
    assert!(plan_safe_copy("/src/a", "/dest/", false).is_none());
}

#[test]
fn dry_run_only_reports() {
    match plan_safe_copy("/src/a.CR3", "/dest/x.CR3", true) {
        Some(CopyPlan::Report(line)) => assert_eq!(line, "Would copy /src/a.CR3 to /dest/x.CR3"),
        _ => panic!("expected a report"),
    }
}

#[test]
fn second_import_copies_nothing() {
    let images = vec![
        dated_image(),
        ImageInfo { filename: "/p/b.jpg".to_string(), original_date: None, hash: 5 },
        ImageInfo { filename: "/p/noext".to_string(), original_date: None, hash: 6 },
    ];
    let created = [None, Some(0i64), Some(0i64)];
    let mut present: HashSet<String> = HashSet::new();
    let run = |present: &mut HashSet<String>| -> usize {
        let mut copies = 0;
        for (image, c) in images.iter().zip(created.iter()) {
            let out = image.output_path("/dest", *c);
            let exists = out.as_ref().map(|p| present.contains(p)).unwrap_or(false);
            match image_step(out, exists) {
                ImageStep::Copy(p) => {
                    copies += 1;
                    present.insert(p);
                }
                ImageStep::AlreadyExists(_) | ImageStep::NoOutputPath => {}
            }
        }
        copies
    };
    assert_eq!(run(&mut present), 2);
    assert_eq!(run(&mut present), 0);
}

#[test]
fn image_steps() {
    assert!(matches!(image_step(None, false), ImageStep::NoOutputPath));
    assert!(matches!(image_step(Some("x".to_string()), true), ImageStep::AlreadyExists(p) if p == "x"));
    assert!(matches!(image_step(Some("x".to_string()), false), ImageStep::Copy(p) if p == "x"));
}

#[test]
fn stale_sidecar_is_copied_again() {
    let file = ImageMetadataFile::new(
        "/p/IMG_0001.xmp".to_string(),
        "/dest/2023/05/01/20230501_103000_DEADBEEF.xmp".to_string(),
        Some(FileTime { secs: 100, nanos: 0 }),
        FileTime { secs: 200, nanos: 0 },
    );
    assert!(!file.is_up_to_date());
    assert!(sidecar_needs_copy(&file));
    assert_eq!(file.filename(), "/p/IMG_0001.xmp");
    assert_eq!(file.output_path(), "/dest/2023/05/01/20230501_103000_DEADBEEF.xmp");
}

#[test]
fn freshness_rules() {
    let at = |secs, nanos| FileTime { secs, nanos };
    let mk = |out: Option<FileTime>, src: FileTime| {
        ImageMetadataFile::new("a".to_string(), "b".to_string(), out, src)
    };
    assert!(mk(Some(at(200, 0)), at(200, 0)).is_up_to_date());
    assert!(mk(Some(at(300, 0)), at(200, 5)).is_up_to_date());
    assert!(!mk(Some(at(200, 4)), at(200, 5)).is_up_to_date());
    assert!(!mk(None, at(0, 0)).is_up_to_date());
    assert!(mk(Some(at(0, 1_500_000_000)), at(1, 0)).is_up_to_date());
    assert!(!mk(Some(at(-1, 999_999_999)), at(0, 0)).is_up_to_date());
    assert_eq!(at(-2, 500_000_000).nanos_since_epoch(), -1_500_000_000);
}

#[test]
fn discoveries_keep_order() {
    let f = |n: &str| ImageMetadataFile::new(n.to_string(), n.to_string(), None, FileTime { secs: 0, nanos: 0 });
    let all = collect_discovered(vec![vec![f("a"), f("b")], vec![], vec![f("c")]]);
    let names: Vec<&str> = all.iter().map(|m| m.filename().as_str()).collect();
    assert_eq!(names, vec!["a", "b", "c"]);
}
