use docker_rs_desktop::desktop::RunRequest;
use docker_rs_desktop::model::StoredImageRecord;
use docker_rs_desktop::tasks::{
    build_outcome, compose_outcome, container_outcome, launch_failure, pull_outcome,
    remove_image_outcome, run_outcome, trimmed_run_request, ComposeAction, ContainerAction,
};

fn record() -> StoredImageRecord {
    StoredImageRecord {
        canonical_reference: String::from("docker.io/library/alpine:3.20"),
        repository: String::from("library/alpine"),
        tag: String::from("3.20"),
        manifest_digest: String::new(),
        config_digest: String::new(),
        size_bytes: 0,
        source: String::new(),
        architecture: String::new(),
        os: String::new(),
        created_at_epoch: 0,
    }
}

#[test]
fn container_action_messages() {
    let id = "0123456789abcdef";
    assert_eq!(
        container_outcome(ContainerAction::Stop, id, Ok(())).unwrap(),
        "Stopped container 0123456789ab"
    );
    assert_eq!(
        container_outcome(ContainerAction::FetchLogs, id, Ok(())).unwrap(),
        "Fetched logs for container 0123456789ab."
    );
    assert_eq!(
        container_outcome(ContainerAction::Exec, id, Err(String::from("boom"))).unwrap_err(),
        "Exec failed for `0123456789abcdef`: boom"
    );
    assert_eq!(
        container_outcome(ContainerAction::Restart, id, Err(String::from("x"))).unwrap_err(),
        "Restart failed for `0123456789abcdef`: x"
    );
}

#[test]
fn image_action_messages() {
    assert_eq!(
        pull_outcome("alpine:3.20", Ok(record())).unwrap(),
        "Pulled `library/alpine:3.20` into the native OCI store."
    );
    assert_eq!(
        pull_outcome("alpine", Err(String::from("invalid image reference"))).unwrap_err(),
        "Native pull failed for `alpine`: invalid image reference"
    );
    assert_eq!(
        build_outcome("demo:dev", Ok(record())).unwrap(),
        "Built `library/alpine:3.20` with the native metadata-only builder."
    );
    assert_eq!(
        build_outcome("demo:dev", Err(String::from("e"))).unwrap_err(),
        "Native build failed for `demo:dev`: e"
    );
    assert_eq!(
        remove_image_outcome("alpine", Ok(record())).unwrap(),
        "Removed native image `library/alpine:3.20` from the local store."
    );
    assert_eq!(
        remove_image_outcome("alpine", Err(String::from("e"))).unwrap_err(),
        "Image delete failed for `alpine`: e"
    );
}

#[test]
fn compose_and_run_messages() {
    assert_eq!(
        compose_outcome(ComposeAction::Up, "/srv/app", Ok(String::from("app"))).unwrap(),
        "Compose project `app` is up."
    );
    assert_eq!(
        compose_outcome(ComposeAction::Logs, "/srv/app", Ok(String::from("app"))).unwrap(),
        "Fetched logs for compose project `app`."
    );
    assert_eq!(
        compose_outcome(ComposeAction::Down, "/srv/app", Err(String::from("e"))).unwrap_err(),
        "Compose down failed for `/srv/app`: e"
    );
    assert_eq!(
        run_outcome("nginx", Ok(String::from("native-123456789abcdef"))).unwrap(),
        "Started container native-12345 from `nginx`."
    );
    assert_eq!(
        run_outcome("nginx", Err(String::from("e"))).unwrap_err(),
        "Container run failed for `nginx`: e"
    );
    assert_eq!(launch_failure(" "), "Failed to launch Docker Desktop runtime.");
    assert_eq!(launch_failure("denied\n"), "Failed to launch Docker Desktop runtime: denied");
}

#[test]
fn run_options_are_trimmed_and_blank_ones_dropped() {
    let r = trimmed_run_request(&RunRequest {
        image: String::from(" nginx "),
        container_name: Some(String::from("  ")),
        ports: Some(String::from(" 80:80 ")),
        env_vars: None,
        volume_mounts: Some(String::new()),
        command_override: Some(String::from(" sh ")),
        restart_policy: Some(String::from("always")),
        auto_remove: true,
    });
    assert_eq!(r.image, "nginx");
    assert_eq!(r.container_name, None);
    assert_eq!(r.ports, Some(String::from("80:80")));
    assert_eq!(r.volume_mounts, None);
    assert_eq!(r.command_override, Some(String::from("sh")));
    assert!(r.auto_remove);
}
