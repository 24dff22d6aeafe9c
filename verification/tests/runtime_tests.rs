use docker_rs_desktop::runtime::{parse_exit_code, parse_i32_text, resolve_native_image_named};
use docker_rs_desktop::model::StoredImageRecord;
use docker_rs_desktop::desktop::RunRequest;
use docker_rs_desktop::model::{NativeContainerRecord, RuntimeConfig};
use docker_rs_desktop::runtime::{
    fetch_native_container_logs_lines, find_native_index, immediate_exit_error,
    insert_native_record, inspect_native_container_entry, is_native_container_id,
    list_native_containers, native_container_id, native_launch_script, native_run_notes,
    native_stats, new_log_lines, new_native_record, parse_env_assignments, parse_env_pairs,
    parse_port_mappings, parse_u64_text, parse_volume_mounts, refresh_native_runtime_state,
    remove_native_record, render_native_ports, resolve_native_image_spec, shell_single_quote,
    start_native_record, state_is_exited, stop_native_record, sync_native_record,
    NativeImageSpec, NativeRuntimeState, ProcessObservation,
};

fn record(id: &str) -> NativeContainerRecord {
    NativeContainerRecord {
        id: id.to_string(),
        name: format!("name-{id}"),
        image: String::from("alpine:latest"),
        state: String::from("created"),
        status: String::from("Created (native)"),
        ports: vec![],
        env: vec![],
        volumes: vec![],
        command: String::from("sleep 1"),
        entrypoint: String::new(),
        working_dir: String::new(),
        user: String::new(),
        restart_policy: String::from("no"),
        auto_remove: false,
        pid: None,
        created_at_epoch: 10,
        started_at_epoch: None,
        finished_at_epoch: None,
        last_exit_code: None,
        log_path: String::from("/tmp/x.log"),
        exit_code_path: String::from("/tmp/x.exit"),
    }
}

fn request(image: &str) -> RunRequest {
    RunRequest {
        image: image.to_string(),
        container_name: None,
        ports: None,
        env_vars: None,
        volume_mounts: None,
        command_override: None,
        restart_policy: None,
        auto_remove: false,
    }
}

fn no_config() -> RuntimeConfig {
    RuntimeConfig {
        env: None,
        labels: None,
        exposed_ports: None,
        user: None,
        working_dir: None,
        cmd: None,
        entrypoint: None,
    }
}

#[test]
fn native_ids_carry_the_prefix() {
    assert!(is_native_container_id("native-1a2b"));
    assert!(!is_native_container_id("1a2b3c4d5e6f"));
    assert!(!is_native_container_id("native"));
    assert_eq!(native_container_id(255), "native-ff");
    assert_eq!(native_container_id(0), "native-0");
}

#[test]
fn native_ports_render_as_list_or_dash() {
    assert_eq!(render_native_ports(&vec![]), "-");
    assert_eq!(
        render_native_ports(&vec![String::from("80:80"), String::from("443:443")]),
        "80:80, 443:443"
    );
}

#[test]
fn env_pairs_split_at_first_equals_and_trim_keys() {
    let pairs = parse_env_pairs(&vec![
        String::from("A=1"),
        String::from("noeq"),
        String::from(" B =x=y"),
    ]);
    assert_eq!(
        pairs,
        vec![
            (String::from("A"), String::from("1")),
            (String::from("B"), String::from("x=y")),
        ]
    );
}

#[test]
fn single_quotes_are_escaped_for_sh() {
    assert_eq!(shell_single_quote("it's"), "it'\"'\"'s");
    assert_eq!(shell_single_quote("plain text"), "plain text");
}

#[test]
fn port_mappings_split_on_commas_and_whitespace() {
    assert_eq!(
        parse_port_mappings(Some("80:80, 443:443 8080\t,,")),
        vec![String::from("80:80"), String::from("443:443"), String::from("8080")]
    );
    assert!(parse_port_mappings(None).is_empty());
}

#[test]
fn env_and_mounts_are_nonblank_trimmed_lines() {
    assert_eq!(
        parse_env_assignments(Some("A=1\n\n  B=2  \r\n")),
        vec![String::from("A=1"), String::from("B=2")]
    );
    assert_eq!(
        parse_volume_mounts(Some(" /a:/b \n/c:/d")),
        vec![String::from("/a:/b"), String::from("/c:/d")]
    );
    assert!(parse_env_assignments(None).is_empty());
}

#[test]
fn exited_is_read_without_case() {
    assert!(state_is_exited("EXITED"));
    assert!(state_is_exited("exited"));
    assert!(!state_is_exited("running"));
}

#[test]
fn sync_of_running_process_reports_uptime() {
    let mut r = record("native-1");
    r.pid = Some(42);
    r.started_at_epoch = Some(100);
    sync_native_record(&mut r, ProcessObservation { running: true, exit_code: None }, 105);
    assert_eq!(r.state, "running");
    assert_eq!(r.status, "Up 5s (native)");
    assert_eq!(r.pid, Some(42));
}

#[test]
fn sync_of_dead_process_reports_exit() {
    let mut r = record("native-1");
    r.pid = Some(42);
    r.started_at_epoch = Some(100);
    sync_native_record(&mut r, ProcessObservation { running: false, exit_code: Some(3) }, 120);
    assert_eq!(r.state, "exited");
    assert_eq!(r.status, "Exited (3) (native)");
    assert_eq!(r.pid, None);
    assert_eq!(r.last_exit_code, Some(3));
    assert_eq!(r.finished_at_epoch, Some(120));
}

#[test]
fn sync_of_never_started_record_changes_nothing() {
    let mut r = record("native-1");
    sync_native_record(&mut r, ProcessObservation { running: false, exit_code: Some(1) }, 120);
    assert_eq!(r.state, "created");
    assert_eq!(r.status, "Created (native)");
    assert_eq!(r.finished_at_epoch, None);
}

#[test]
fn refresh_drops_exited_auto_removed_containers() {
    let mut a = record("native-a");
    a.auto_remove = true;
    a.started_at_epoch = Some(1);
    let mut b = record("native-b");
    b.started_at_epoch = Some(1);
    let mut c = record("native-c");
    c.auto_remove = true;
    c.pid = Some(7);
    c.started_at_epoch = Some(1);
    let mut state = NativeRuntimeState { containers: vec![a, b, c] };
    let observations = vec![
        ProcessObservation { running: false, exit_code: Some(0) },
        ProcessObservation { running: false, exit_code: None },
        ProcessObservation { running: true, exit_code: None },
    ];
    refresh_native_runtime_state(&mut state, &observations, 11);
    let ids: Vec<&str> = state.containers.iter().map(|r| r.id.as_str()).collect();
    assert_eq!(ids, vec!["native-b", "native-c"]);
    assert_eq!(state.containers[0].status, "Exited (native)");
    assert_eq!(state.containers[1].status, "Up 10s (native)");
}

#[test]
fn start_then_stop_leaves_an_exited_record() {
    let mut r = record("native-1");
    start_native_record(&mut r, 99, 50);
    assert_eq!(r.state, "running");
    assert_eq!(r.status, "Up 0s (native)");
    assert_eq!(r.pid, Some(99));
    stop_native_record(&mut r, Some(143), 60);
    assert_eq!(r.state, "exited");
    assert_eq!(r.pid, None);
    assert_eq!(r.started_at_epoch, Some(50));
    assert_eq!(r.finished_at_epoch, Some(60));
    assert_eq!(r.status, "Exited (143) (native)");
}

#[test]
fn launch_script_quotes_command_and_exit_path() {
    assert_eq!(
        native_launch_script("echo 'hi'", "/tmp/a.exit"),
        "#!/bin/sh\n/bin/sh -lc 'echo '\"'\"'hi'\"'\"''\nstatus=$?\necho \"$status\" > '/tmp/a.exit'\nexit \"$status\"\n"
    );
}

#[test]
fn image_spec_joins_entrypoint_and_command() {
    let mut config = no_config();
    config.entrypoint = Some(vec![String::from("/bin/app")]);
    config.cmd = Some(vec![String::from("--port"), String::from("80")]);
    config.env = Some(vec![String::from("A=1")]);
    config.user = Some(String::from("app"));
    let spec = resolve_native_image_spec(&config, false);
    assert_eq!(spec.command, Some(String::from("/bin/app --port 80")));
    assert_eq!(spec.entrypoint, "/bin/app");
    assert_eq!(spec.env, vec![String::from("A=1")]);
    assert_eq!(spec.user, "app");
    assert_eq!(spec.working_dir, "");
    let overridden = resolve_native_image_spec(&config, true);
    assert_eq!(overridden.command, None);
    assert_eq!(resolve_native_image_spec(&no_config(), false).command, None);
}

#[test]
fn new_record_takes_defaults_from_request_and_image() {
    let spec = NativeImageSpec {
        command: Some(String::from("nginx -g daemon off;")),
        entrypoint: String::new(),
        env: vec![String::from("PATH=/bin")],
        working_dir: String::from("/srv"),
        user: String::new(),
    };
    let mut req = request("nginx:latest");
    req.env_vars = Some(String::from("A=1\nB=2"));
    req.ports = Some(String::from("8080:80"));
    let r = new_native_record(
        "native-123456789abc",
        &req,
        &spec,
        77,
        String::from("/logs/x.log"),
        String::from("/meta/x.exit"),
    )
    .unwrap();
    assert_eq!(r.name, "native-12345678");
    assert_eq!(r.command, "nginx -g daemon off;");
    assert_eq!(r.env, vec!["PATH=/bin", "A=1", "B=2"]);
    assert_eq!(r.ports, vec!["8080:80"]);
    assert_eq!(r.restart_policy, "no");
    assert_eq!(r.state, "created");
    assert_eq!(r.status, "Created (native)");
    assert_eq!(r.created_at_epoch, 77);
    assert_eq!(r.working_dir, "/srv");

    req.container_name = Some(String::from("  web  "));
    req.command_override = Some(String::from(" sleep 5 "));
    req.restart_policy = Some(String::from("always"));
    let r2 = new_native_record("native-1", &req, &spec, 1, String::new(), String::new()).unwrap();
    assert_eq!(r2.name, "web");
    assert_eq!(r2.command, "sleep 5");
    assert_eq!(r2.restart_policy, "always");
}

#[test]
fn new_record_without_command_is_refused() {
    let spec = NativeImageSpec {
        command: None,
        entrypoint: String::new(),
        env: vec![],
        working_dir: String::new(),
        user: String::new(),
    };
    let err = new_native_record("native-1", &request("x"), &spec, 1, String::new(), String::new())
        .unwrap_err();
    assert_eq!(err, "native runtime needs a command override or an image CMD/ENTRYPOINT");
}

#[test]
fn saving_a_record_replaces_the_one_with_its_id() {
    let mut state = NativeRuntimeState::new();
    insert_native_record(&mut state, record("native-a"));
    insert_native_record(&mut state, record("native-b"));
    let mut newer = record("native-a");
    newer.status = String::from("new");
    insert_native_record(&mut state, newer);
    let ids: Vec<&str> = state.containers.iter().map(|r| r.id.as_str()).collect();
    assert_eq!(ids, vec!["native-b", "native-a"]);
    assert_eq!(find_native_index(&state, "native-a"), Some(1));
    assert_eq!(state.containers[1].status, "new");
    assert_eq!(find_native_index(&state, "native-z"), None);
}

#[test]
fn removing_a_record_returns_it_or_names_the_missing_id() {
    let mut state = NativeRuntimeState { containers: vec![record("native-a"), record("native-b")] };
    let removed = remove_native_record(&mut state, "native-a").unwrap();
    assert_eq!(removed.id, "native-a");
    assert_eq!(state.containers.len(), 1);
    let err = remove_native_record(&mut state, "native-a").unwrap_err();
    assert_eq!(err, "native container `native-a` was not found");
    assert_eq!(state.containers.len(), 1);
}

#[test]
fn native_containers_list_and_inspect() {
    let mut r = record("native-a");
    r.ports = vec![String::from("80:80")];
    let state = NativeRuntimeState { containers: vec![r] };
    let list = list_native_containers(&state);
    assert_eq!(list.len(), 1);
    assert_eq!(list[0].runtime, "native");
    assert_eq!(list[0].ports, "80:80");
    let details = inspect_native_container_entry(&state, "native-a").unwrap();
    assert_eq!(details.ip_address, "host");
    assert_eq!(details.created, "10");
    assert_eq!(details.labels[0], (String::from("runtime"), String::from("native-prototype")));
    assert_eq!(
        inspect_native_container_entry(&state, "native-x").unwrap_err(),
        "native container `native-x` was not found"
    );
}

#[test]
fn native_stats_read_ps_output() {
    let stats = native_stats("native-a", Some("\n  12.5  2048\n"));
    assert_eq!(stats.cpu_percent, "12.5%");
    assert_eq!(stats.memory_usage, "2.0 MB");
    assert_eq!(stats.pids, "1");
    let odd = native_stats("native-a", Some("-\n"));
    assert_eq!(odd.cpu_percent, "-");
    assert_eq!(odd.memory_usage, "0 B");
    let stopped = native_stats("native-a", None);
    assert_eq!(stopped.cpu_percent, "0%");
    assert_eq!(stopped.memory_usage, "0 B");
    assert_eq!(stopped.pids, "0");
}

#[test]
fn u64_text_parses_like_str_parse() {
    for text in ["42", "+42", "", "+", "-1", "12a", "18446744073709551615", "18446744073709551616", "007"] {
        assert_eq!(parse_u64_text(text), text.parse::<u64>().ok(), "{text}");
    }
}

#[test]
fn log_tail_keeps_last_two_hundred_nonblank_lines() {
    let text: String = (0..250).map(|i| format!("line {i}\n\n")).collect();
    let lines = fetch_native_container_logs_lines(&text);
    assert_eq!(lines.len(), 200);
    assert_eq!(lines[0], "line 50");
    assert_eq!(lines[199], "line 249");
    assert_eq!(fetch_native_container_logs_lines(" a \n  \nb"), vec![" a ", "b"]);
}

#[test]
fn new_log_lines_are_those_past_the_shared_start() {
    let prev = vec![String::from("a"), String::from("b")];
    let cur = vec![String::from("a"), String::from("b"), String::from("c")];
    assert_eq!(new_log_lines(&prev, &cur), vec![String::from("c")]);
    assert!(new_log_lines(&prev, &prev).is_empty());
    assert_eq!(new_log_lines(&vec![], &cur), cur);
    let rotated = vec![String::from("b"), String::from("c")];
    assert_eq!(new_log_lines(&prev, &rotated), rotated);
}

#[test]
fn failed_immediate_exit_is_reported() {
    let mut r = record("native-a");
    r.state = String::from("exited");
    r.last_exit_code = Some(2);
    assert_eq!(
        immediate_exit_error(&r),
        Some(String::from(
            "native process exited immediately with code 2. Check logs for `name-native-a`."
        ))
    );
    r.last_exit_code = Some(0);
    assert_eq!(immediate_exit_error(&r), None);
    r.state = String::from("running");
    r.last_exit_code = Some(1);
    assert_eq!(immediate_exit_error(&r), None);
}

#[test]
fn run_notes_mention_ports_and_mounts() {
    let mut req = request("x");
    assert!(native_run_notes(&req).is_empty());
    req.ports = Some(String::from("80:80"));
    req.volume_mounts = Some(String::from("/a:/b"));
    let notes = native_run_notes(&req);
    assert_eq!(notes.len(), 2);
    assert!(notes[0].contains("does not virtualize ports"));
    assert!(notes[1].contains("records volume mounts"));
}

#[test]
fn exit_codes_parse_like_str_parse() {
    for text in ["0", "-1", "+7", "-", "+", "-+1", "2147483647", "2147483648", "-2147483648", "-2147483649", "1 2", ""] {
        assert_eq!(parse_i32_text(text), text.parse::<i32>().ok(), "{text}");
    }
    assert_eq!(parse_exit_code(" 137\n"), Some(137));
    assert_eq!(parse_exit_code("oops"), None);
}

fn stored(repo: &str, tag: &str) -> StoredImageRecord {
    StoredImageRecord {
        canonical_reference: format!("docker.io/{repo}:{tag}"),
        repository: repo.to_string(),
        tag: tag.to_string(),
        manifest_digest: String::from("sha256:m"),
        config_digest: String::from("sha256:c"),
        size_bytes: 0,
        source: String::from("pulled-native"),
        architecture: String::from("Amd64"),
        os: String::from("Linux"),
        created_at_epoch: 0,
    }
}

#[test]
fn image_spec_by_name_uses_the_matching_record() {
    let images = vec![stored("library/busybox", "latest"), stored("library/app", "1")];
    let load = |i: usize| {
        assert_eq!(i, 1);
        let mut config = no_config();
        config.entrypoint = Some(vec![String::from("/bin/app")]);
        config.cmd = Some(vec![String::from("serve")]);
        Ok(config)
    };
    let spec = resolve_native_image_named(&images, "library/app:1", false, &load).unwrap();
    assert_eq!(spec.command, Some(String::from("/bin/app serve")));
    assert_eq!(spec.entrypoint, "/bin/app");
    let overridden = resolve_native_image_named(&images, "docker.io/library/app:1", true, &load).unwrap();
    assert_eq!(overridden.command, None);
}

#[test]
fn image_spec_by_name_reports_an_image_the_store_lacks() {
    let images = vec![stored("library/busybox", "latest")];
    let load = |_i: usize| -> Result<RuntimeConfig, String> { panic!("nothing to load") };
    let error = resolve_native_image_named(&images, "redis:7", false, &load).unwrap_err();
    assert_eq!(error, "image `redis:7` is not available in the native OCI store yet");
    let failing = |_i: usize| -> Result<RuntimeConfig, String> { Err(String::from("unable to read config")) };
    let error = resolve_native_image_named(&images, "library/busybox:latest", false, &failing).unwrap_err();
    assert_eq!(error, "unable to read config");
}
