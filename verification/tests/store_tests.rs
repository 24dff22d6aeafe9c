use docker_rs_desktop::model::StoredImageRecord;
use docker_rs_desktop::store::{
    display_record, find_record, list_images, remove_image_entry, shorten_digest, upsert_record,
    EngineState,
};
use docker_rs_desktop::units::format_bytes;

fn record(canonical: &str, repo: &str, tag: &str, size: u64) -> StoredImageRecord {
    StoredImageRecord {
        canonical_reference: canonical.to_string(),
        repository: repo.to_string(),
        tag: tag.to_string(),
        manifest_digest: String::from("sha256:m"),
        config_digest: String::from("sha256:0123456789abcdef0123"),
        size_bytes: size,
        source: String::from("pulled-native"),
        architecture: String::from("Amd64"),
        os: String::from("Linux"),
        created_at_epoch: 1,
    }
}

#[test]
fn upsert_replaces_same_tag_and_puts_the_record_last() {
    let mut state = EngineState::new();
    upsert_record(&mut state, record("docker.io/library/a:1", "library/a", "1", 1));
    upsert_record(&mut state, record("docker.io/library/b:1", "library/b", "1", 2));
    upsert_record(&mut state, record("docker.io/library/a:1", "library/a", "1", 3));
    assert_eq!(state.images.len(), 2);
    assert_eq!(state.images[0].repository, "library/b");
    assert_eq!(state.images[1].size_bytes, 3);
    let found = find_record(&state, "docker.io/library/a:1").unwrap();
    assert_eq!(found.size_bytes, 3);
    assert!(find_record(&state, "docker.io/library/z:1").is_none());
}

#[test]
fn removal_finds_by_reference_or_display_name() {
    let mut state = EngineState {
        images: vec![
            record("docker.io/library/a:1", "library/a", "1", 1),
            record("docker.io/library/b:2", "library/b", "2", 2),
        ],
    };
    let removed = remove_image_entry(&mut state, "library/b:2").unwrap();
    assert_eq!(removed.repository, "library/b");
    assert_eq!(state.images.len(), 1);
    let err = remove_image_entry(&mut state, "library/b:2").unwrap_err();
    assert_eq!(err, "image `library/b:2` was not found in the native store");
    assert!(remove_image_entry(&mut state, "docker.io/library/a:1").is_ok());
    assert!(state.images.is_empty());
}

#[test]
fn image_list_is_sorted_by_repository_then_tag() {
    let state = EngineState {
        images: vec![
            record("r3", "library/b", "1", 10),
            record("r1", "library/a", "2", 2048),
            record("r2", "library/a", "10", 1),
        ],
    };
    let list = list_images(&state);
    let keys: Vec<(String, String)> = list.iter().map(|i| (i.repository.clone(), i.tag.clone())).collect();
    assert_eq!(
        keys,
        vec![
            (String::from("library/a"), String::from("10")),
            (String::from("library/a"), String::from("2")),
            (String::from("library/b"), String::from("1")),
        ]
    );
    assert_eq!(list[1].size, "2.0 KB");
    assert_eq!(list[1].image_id, "sha256:0123456789ab");
}

#[test]
fn digests_and_names_are_shortened_for_display() {
    assert_eq!(shorten_digest("sha256:0123456789abcdef"), "sha256:0123456789ab");
    assert_eq!(shorten_digest("0123456789abcdef0123456789"), "0123456789abcdef01");
    assert_eq!(display_record(&record("x", "library/a", "1", 0)), "library/a:1");
}

#[test]
fn byte_sizes_match_one_decimal_float_formatting() {
    let units = ["B", "KB", "MB", "GB", "TB"];
    let mut samples: Vec<u64> = vec![0, 1, 1023, 1024, 1535, 1536, 1587, 1588, 10 * 1024 * 1024 - 1];
    let mut x: u64 = 1;
    for _ in 0..60 {
        x = x.wrapping_mul(6364136223846793005).wrapping_add(1442695040888963407);
        samples.push(x >> (x % 64));
    }
    samples.push(u64::MAX);
    for bytes in samples {
        let mut value = bytes as f64;
        let mut unit = 0usize;
        while value >= 1024.0 && unit + 1 < units.len() {
            value /= 1024.0;
            unit += 1;
        }
        let expected = if unit == 0 {
            format!("{bytes} {}", units[unit])
        } else {
            format!("{value:.1} {}", units[unit])
        };
        assert_eq!(format_bytes(bytes), expected, "{bytes}");
    }
}
