use docker_rs_desktop::model::{DockerImageInfo, RuntimeStatusInfo};
use docker_rs_desktop::ui::{
    compact_path, compact_runtime_detail, default_ports_for_image, empty_as_dash,
    filtered_images, filtered_total_label, matches_filter, normalize_filter,
    parse_requested_host_ports, primary_project_target, published_urls, runtime_badge_text,
    shorten_container_id, state_rgb, used_host_ports, workspace_title, WorkspaceTab,
};

fn status(native: bool, bridge: bool) -> RuntimeStatusInfo {
    RuntimeStatusInfo {
        summary: String::new(),
        detail: String::new(),
        native_ready: native,
        bridge_ready: bridge,
    }
}

#[test]
fn ids_and_titles() {
    assert_eq!(shorten_container_id("0123456789abcdef"), "0123456789ab");
    assert_eq!(shorten_container_id("abc"), "abc");
    assert_eq!(workspace_title(WorkspaceTab::Build), "Build & Run");
    assert_eq!(workspace_title(WorkspaceTab::Images), "Images");
}

#[test]
fn runtime_texts_follow_readiness() {
    assert_eq!(runtime_badge_text(&status(true, true)), "Native + Docker fallback online");
    assert_eq!(runtime_badge_text(&status(false, false)), "Runtime offline");
    assert_eq!(compact_runtime_detail(&status(true, false)), "Native first, Docker fallback offline.");
    assert_eq!(compact_runtime_detail(&status(false, false)), "Runtime is currently unavailable.");
}

#[test]
fn long_paths_keep_their_last_three_parts() {
    assert_eq!(compact_path("/a/b/c/d/e"), ".../c/d/e");
    assert_eq!(compact_path("C:\\x\\y"), "C:/x/y");
    assert_eq!(compact_path("/a/b"), "/a/b");
}

#[test]
fn blank_values_show_a_dash() {
    assert_eq!(empty_as_dash("  "), "-");
    assert_eq!(empty_as_dash(" x "), "x");
}

#[test]
fn published_ports_become_local_urls() {
    assert_eq!(
        published_urls("0.0.0.0:8080->80/tcp, :::8080->80/tcp, 443/tcp, 0.0.0.0:3000->3000/tcp"),
        vec![String::from("http://localhost:3000/"), String::from("http://localhost:8080/")]
    );
    assert_eq!(used_host_ports("0.0.0.0:8080->80/tcp, 443/tcp"), vec![String::from("8080")]);
    assert_eq!(
        parse_requested_host_ports("8080:80, 127.0.0.1:9090:90 7000"),
        vec![String::from("8080"), String::from("9090")]
    );
}

#[test]
fn filters_and_labels() {
    assert_eq!(filtered_total_label(3, 3), "3 total");
    assert_eq!(filtered_total_label(1, 3), "1 shown of 3");
    assert_eq!(normalize_filter("  NgInX "), "nginx");
    assert!(matches_filter(&vec![String::from("Library/NGINX")], "nginx"));
    let images = vec![
        DockerImageInfo {
            repository: String::from("library/nginx"),
            tag: String::from("latest"),
            image_id: String::from("sha256:1"),
            size: String::from("1 B"),
            source: String::from("pulled-native"),
        },
        DockerImageInfo {
            repository: String::from("library/redis"),
            tag: String::from("7"),
            image_id: String::from("sha256:2"),
            size: String::from("1 B"),
            source: String::from("pulled-native"),
        },
    ];
    assert_eq!(filtered_images(&images, " REDIS ").len(), 1);
    assert_eq!(filtered_images(&images, "   ").len(), 2);
}

#[test]
fn run_defaults_and_colours() {
    assert_eq!(default_ports_for_image("NGINX:latest"), "8080:80");
    assert_eq!(default_ports_for_image("alpine-nginx"), "");
    assert_eq!(default_ports_for_image("postgres:16"), "5432:5432");
    assert_eq!(state_rgb("RUNNING"), (46, 204, 113));
    assert_eq!(state_rgb("paused"), (149, 165, 166));
    assert_eq!(primary_project_target(" , a.yml,b.yml"), "a.yml");
}

#[test]
fn normalizing_a_filter_twice_changes_nothing() {
    for value in ["  NgInX ", "\tMy App\n", "", "   ", "ÄBC Def"] {
        let once = normalize_filter(value);
        assert_eq!(normalize_filter(&once), once);
    }
    assert_eq!(normalize_filter("\tMy App\n"), "my app");
}
