use docker_rs_desktop::oci::{bad_context_message, dockerfile_missing_message, inspect_image_named};
use docker_rs_desktop::dockerfile::{parse_dockerfile, read_instructions};
use docker_rs_desktop::model::{RuntimeConfig, StoredImageRecord};
use docker_rs_desktop::oci::{
    base_image_of, built_record, digest_blob_path, digest_json_path, find_stored_image,
    garbage_collect_store, git_clone_failure, image_unavailable_message, inspect_image_entry,
    looks_like_container_id, looks_like_git_url, parse_image_reference, pulled_record,
    resolve_dockerfile_path, select_platform, sha256_digest, split_digest, CpuArch, ImageReference,
    Platform, PlatformEntry,
};

fn record(repo: &str, tag: &str, manifest: &str, config: &str) -> StoredImageRecord {
    StoredImageRecord {
        canonical_reference: format!("docker.io/{repo}:{tag}"),
        repository: repo.to_string(),
        tag: tag.to_string(),
        manifest_digest: manifest.to_string(),
        config_digest: config.to_string(),
        size_bytes: 1536,
        source: String::from("pulled-native"),
        architecture: String::from("Amd64"),
        os: String::from("Linux"),
        created_at_epoch: 1700000000,
    }
}

fn strings(items: &[&str]) -> Vec<String> {
    items.iter().map(|s| s.to_string()).collect()
}

#[test]
fn references_are_read_with_default_registry_and_tag() {
    let r = parse_image_reference("alpine", "invalid image reference").unwrap();
    assert_eq!(r.whole, "docker.io/library/alpine:latest");
    assert_eq!(r.repository, "library/alpine");
    assert_eq!(r.tag, Some(String::from("latest")));
    let q = parse_image_reference("ghcr.io/org/app:1.2", "x").unwrap();
    assert_eq!(q.whole, "ghcr.io/org/app:1.2");
    assert_eq!(q.repository, "org/app");
}

#[test]
fn bad_references_give_the_callers_message() {
    assert_eq!(parse_image_reference("", "invalid image reference").unwrap_err(), "invalid image reference");
    assert_eq!(
        parse_image_reference("not a reference", "invalid output image tag").unwrap_err(),
        "invalid output image tag"
    );
}

#[test]
fn sha256_digest_of_known_input() {
    assert_eq!(
        sha256_digest(&vec![]),
        "sha256:e3b0c44298fc1c149afbf4c8996fb92427ae41e4649b934ca495991b7852b855"
    );
    assert_eq!(
        sha256_digest(&b"abc".to_vec()),
        "sha256:ba7816bf8f01cfea414140de5dae2223b00361a396177a9cb410ff61f20015ad"
    );
}

#[test]
fn digests_split_and_locate_their_files() {
    assert_eq!(
        split_digest("sha256:abcd").unwrap(),
        (String::from("sha256"), String::from("abcd"))
    );
    assert_eq!(split_digest("abcd").unwrap_err(), "invalid OCI digest `abcd`");
    assert_eq!(digest_json_path("/store/configs", "sha256:abcd").unwrap(), "/store/configs/sha256/abcd.json");
    assert_eq!(digest_blob_path("/store/blobs", "sha256:abcd").unwrap(), "/store/blobs/sha256/abcd");
    assert_eq!(digest_blob_path("/store/blobs", "nope").unwrap_err(), "invalid OCI digest `nope`");
}

#[test]
fn pulled_and_built_records_count_layers_and_config() {
    let reference = ImageReference {
        whole: String::from("docker.io/library/hello-world:latest"),
        repository: String::from("library/hello-world"),
        tag: None,
    };
    let pulled = pulled_record(
        &reference,
        String::from("sha256:m"),
        String::from("sha256:c"),
        &vec![100, -5, 20],
        7,
        String::from("Amd64"),
        String::from("Linux"),
        42,
    );
    assert_eq!(pulled.size_bytes, 127);
    assert_eq!(pulled.tag, "latest");
    assert_eq!(pulled.source, "pulled-native");
    assert_eq!(pulled.canonical_reference, "docker.io/library/hello-world:latest");
    let built = built_record(
        &reference,
        String::from("sha256:m2"),
        String::from("sha256:c2"),
        &vec![100, 20],
        3,
        String::from("Arm64"),
        String::from("Linux"),
        43,
    );
    assert_eq!(built.size_bytes, 123);
    assert_eq!(built.source, "built-native");
}

#[test]
fn inspected_image_details() {
    let r = record("library/nginx", "1.25", "sha256:m", "sha256:0123456789abcdef");
    let config = RuntimeConfig {
        env: Some(strings(&["PATH=/bin"])),
        labels: Some(vec![
            (String::from("z"), String::from("1")),
            (String::from("a"), String::from("2")),
        ]),
        exposed_ports: Some(strings(&["80/tcp", "443/tcp"])),
        user: None,
        working_dir: Some(String::from("/srv")),
        cmd: Some(strings(&["nginx", "-g", "daemon off;"])),
        entrypoint: None,
    };
    let d = inspect_image_entry(&r, &config, 3);
    assert_eq!(d.reference, "library/nginx:1.25");
    assert_eq!(d.image_id, "sha256:0123456789ab");
    assert_eq!(d.size, "1.5 KB");
    assert_eq!(d.created, "1700000000");
    assert_eq!(d.layer_count, 3);
    assert_eq!(d.labels[0].0, "a");
    assert_eq!(d.exposed_ports, strings(&["443/tcp", "80/tcp"]));
    assert_eq!(d.user, "");
    assert_eq!(d.command, "nginx -g daemon off;");
    assert_eq!(d.entrypoint, "");
}

#[test]
fn platforms_prefer_the_host_architecture() {
    let entries = vec![
        PlatformEntry { digest: String::from("sha256:win"), platform: Some(Platform { linux: false, arch: CpuArch::Amd64 }) },
        PlatformEntry { digest: String::from("sha256:amd"), platform: Some(Platform { linux: true, arch: CpuArch::Amd64 }) },
        PlatformEntry { digest: String::from("sha256:arm"), platform: Some(Platform { linux: true, arch: CpuArch::Arm64 }) },
        PlatformEntry { digest: String::from("sha256:none"), platform: None },
    ];
    assert_eq!(select_platform(&entries, "aarch64"), Some(String::from("sha256:arm")));
    assert_eq!(select_platform(&entries, "x86_64"), Some(String::from("sha256:amd")));
    assert_eq!(select_platform(&entries, "riscv64"), Some(String::from("sha256:amd")));
    let arm_only = vec![PlatformEntry {
        digest: String::from("sha256:arm"),
        platform: Some(Platform { linux: true, arch: CpuArch::Arm64 }),
    }];
    assert_eq!(select_platform(&arm_only, "x86_64"), None);
}

#[test]
fn garbage_collection_keeps_what_is_used() {
    let kept = vec![record("a", "1", "sha256:m1", "sha256:c1")];
    let removed = record("b", "1", "sha256:m2", "sha256:c1");
    let plan = garbage_collect_store(
        &kept,
        &strings(&["sha256:l1", "sha256:l2"]),
        &removed,
        &strings(&["sha256:l2", "sha256:l3"]),
    );
    assert!(plan.manifest);
    assert!(!plan.config);
    assert_eq!(plan.layers, strings(&["sha256:l3"]));
    let shared = record("c", "2", "sha256:m1", "sha256:c9");
    let plan2 = garbage_collect_store(&kept, &strings(&["sha256:l1"]), &shared, &strings(&["sha256:l1"]));
    assert!(!plan2.manifest);
    assert!(plan2.config);
    assert!(plan2.layers.is_empty());
}

#[test]
fn git_urls_and_container_ids_are_recognised() {
    assert!(looks_like_git_url("https://github.com/a/b"));
    assert!(looks_like_git_url("git@github.com:a/b"));
    assert!(looks_like_git_url("/src/repo.git"));
    assert!(!looks_like_git_url("/src/app"));
    assert!(looks_like_container_id("0123456789abCDEF"));
    assert!(!looks_like_container_id("0123456789a"));
    assert!(!looks_like_container_id("0123456789abg"));
}

#[test]
fn dockerfile_is_looked_for_in_the_context() {
    assert_eq!(resolve_dockerfile_path("/ctx", None), "/ctx/Dockerfile");
    assert_eq!(resolve_dockerfile_path("/ctx", Some("  ")), "/ctx/Dockerfile");
    assert_eq!(resolve_dockerfile_path("/ctx", Some(" docker/Dev ")), "/ctx/docker/Dev");
    assert_eq!(resolve_dockerfile_path("/ctx", Some("/abs/File")), "/abs/File");
}

#[test]
fn builds_need_exactly_one_from_stage() {
    let one = parse_dockerfile("FROM alpine:3.20\nUSER app\n").unwrap();
    assert_eq!(base_image_of(&read_instructions(&one)).unwrap(), "alpine:3.20");
    let two = parse_dockerfile("FROM a\nFROM b\n").unwrap();
    assert_eq!(
        base_image_of(&read_instructions(&two)).unwrap_err(),
        "native builder currently supports exactly one FROM stage"
    );
    let none = parse_dockerfile("USER app\n").unwrap();
    assert!(base_image_of(&read_instructions(&none)).is_err());
}

#[test]
fn store_lookups_and_messages() {
    let images = vec![record("library/a", "1", "m", "c"), record("library/b", "2", "m", "c")];
    assert_eq!(find_stored_image(&images, "library/b:2").unwrap(), 1);
    assert_eq!(find_stored_image(&images, "docker.io/library/a:1").unwrap(), 0);
    assert_eq!(
        find_stored_image(&images, "zzz").unwrap_err(),
        "image `zzz` was not found in the native store"
    );
    assert_eq!(
        image_unavailable_message("x:1"),
        "image `x:1` is not available in the native OCI store yet"
    );
    assert_eq!(git_clone_failure("  "), "git clone failed");
    assert_eq!(git_clone_failure("fatal: nope\n"), "git clone failed: fatal: nope");
}

#[test]
fn build_context_messages() {
    assert_eq!(
        bad_context_message("/nope"),
        "build context `/nope` is not a directory or supported Git URL"
    );
    assert_eq!(dockerfile_missing_message("/ctx/Dockerfile"), "Dockerfile not found at /ctx/Dockerfile");
}

#[test]
fn inspect_by_name_loads_the_first_matching_record() {
    let images = vec![
        record("library/alpine", "3.20", "sha256:a", "sha256:aaaaaaaaaaaaaaaa"),
        record("library/nginx", "1.25", "sha256:m", "sha256:0123456789abcdef"),
    ];
    let asked = std::cell::Cell::new(usize::MAX);
    let load = |i: usize| {
        asked.set(i);
        let mut config = RuntimeConfig {
            env: None,
            labels: None,
            exposed_ports: Some(strings(&["80/tcp", "443/tcp"])),
            user: None,
            working_dir: None,
            cmd: None,
            entrypoint: None,
        };
        config.user = Some(String::from("www"));
        Ok((config, 4))
    };
    let d = inspect_image_named(&images, "library/nginx:1.25", &load).unwrap();
    assert_eq!(asked.get(), 1);
    assert_eq!(d.reference, "library/nginx:1.25");
    assert_eq!(d.layer_count, 4);
    assert_eq!(d.user, "www");
    assert_eq!(d.exposed_ports, strings(&["443/tcp", "80/tcp"]));
    let by_full = inspect_image_named(&images, "docker.io/library/alpine:3.20", &load).unwrap();
    assert_eq!(by_full.reference, "library/alpine:3.20");
}

#[test]
fn inspect_by_name_reports_a_missing_image_without_loading() {
    let images = vec![record("library/alpine", "3.20", "sha256:a", "sha256:a")];
    let load = |_i: usize| -> Result<(RuntimeConfig, usize), String> { panic!("nothing to load") };
    let error = inspect_image_named(&images, "redis", &load).unwrap_err();
    assert_eq!(error, "image `redis` was not found in the native store");
}

#[test]
fn inspect_by_name_passes_on_a_load_failure() {
    let images = vec![record("library/alpine", "3.20", "sha256:a", "sha256:a")];
    let load = |_i: usize| -> Result<(RuntimeConfig, usize), String> { Err(String::from("unable to read manifest")) };
    let error = inspect_image_named(&images, "library/alpine:3.20", &load).unwrap_err();
    assert_eq!(error, "unable to read manifest");
}
