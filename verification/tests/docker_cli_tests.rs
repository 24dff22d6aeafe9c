use docker_rs_desktop::docker_cli::{ compose_action_args, docker_exec_args, docker_logs_args, ComposeCommand, };
use docker_rs_desktop::docker_cli::{json_list_form, stats_row_line, JsonListForm};
use docker_rs_desktop::desktop::RunRequest;
use docker_rs_desktop::docker_cli::{
    check_run_request, command_failure, command_output_lines, compose_command_args,
    compose_project_display_name, compose_target_working_dir, container_details_from_inspect,
    container_from_ps_row, docker_run_args, engine_status, format_command, format_inspect_ports,
    list_containers, list_projects_from_rows, primary_compose_target, remove_container_entry,
    render_command, restart_container_entry, runtime_status, start_container_entry,
    stats_from_row, stop_container_entry, strip_leading_slashes, ComposeRow, ContainerCommand,
    InspectRow, PortBinding, PortEntry, PsRow, StatsRow,
};
use docker_rs_desktop::model::ContainerInfo;

fn strings(items: &[&str]) -> Vec<String> {
    items.iter().map(|s| s.to_string()).collect()
}

fn request(image: &str) -> RunRequest {
    RunRequest {
        image: image.to_string(),
        container_name: None,
        ports: None,
        env_vars: None,
        volume_mounts: None,
        command_override: None,
        restart_policy: None,
        auto_remove: false,
    }
}

fn container(name: &str, runtime: &str) -> ContainerInfo {
    ContainerInfo {
        id: format!("{name}-{runtime}"),
        name: name.to_string(),
        image: String::from("img"),
        state: String::from("running"),
        status: String::from("Up"),
        ports: String::from("-"),
        runtime: runtime.to_string(),
    }
}

#[test]
fn command_line_is_program_and_arguments() {
    assert_eq!(render_command("docker", &strings(&["ps", "-a"])), "docker ps -a");
    assert_eq!(render_command("docker", &vec![]), "docker");
}

#[test]
fn failure_message_prefers_error_output() {
    assert_eq!(command_failure("  \n", "docker logs failed"), "docker logs failed");
    assert_eq!(command_failure("boom\n", "docker logs failed"), "boom");
}

#[test]
fn run_requests_are_checked_before_starting() {
    assert_eq!(check_run_request(&request("  ")).unwrap_err(), "image reference is required");
    let mut req = request("nginx");
    req.auto_remove = true;
    req.restart_policy = Some(String::from("always"));
    assert_eq!(
        check_run_request(&req).unwrap_err(),
        "auto-remove (`--rm`) cannot be combined with a restart policy"
    );
    req.restart_policy = None;
    assert!(check_run_request(&req).is_ok());
}

#[test]
fn docker_run_arguments_follow_the_request() {
    let req = RunRequest {
        image: String::from("nginx:latest"),
        container_name: Some(String::from("web")),
        ports: Some(String::from("8080:80, 8443:443")),
        env_vars: Some(String::from("A=1\nB=2")),
        volume_mounts: Some(String::from("/data:/data")),
        command_override: Some(String::from("nginx -g 'daemon off;'")),
        restart_policy: Some(String::from("always")),
        auto_remove: false,
    };
    assert_eq!(
        docker_run_args(&req),
        strings(&[
            "run", "-d", "--name", "web", "--restart", "always", "-p", "8080:80", "-p",
            "8443:443", "-e", "A=1", "-e", "B=2", "-v", "/data:/data", "nginx:latest", "sh",
            "-lc", "nginx -g 'daemon off;'",
        ])
    );
    let mut plain = request("alpine");
    plain.auto_remove = true;
    assert_eq!(docker_run_args(&plain), strings(&["run", "-d", "--rm", "alpine"]));
}

#[test]
fn compose_arguments_pick_file_or_folder() {
    assert_eq!(
        compose_command_args("  ", None, false).unwrap_err(),
        "compose file or project folder is required"
    );
    assert_eq!(
        compose_command_args(" /srv/app/compose.yml ", Some(" demo "), false).unwrap(),
        strings(&["compose", "-f", "/srv/app/compose.yml", "--project-directory", "/srv/app", "-p", "demo"])
    );
    assert_eq!(
        compose_command_args("/srv/app", Some("   "), true).unwrap(),
        strings(&["compose", "--project-directory", "/srv/app"])
    );
    assert_eq!(
        compose_command_args("compose.yml", None, false).unwrap(),
        strings(&["compose", "-f", "compose.yml"])
    );
}

#[test]
fn compose_display_name_falls_back_to_the_folder() {
    assert_eq!(compose_project_display_name("/srv/app/compose.yml", Some(" named "), false), "named");
    assert_eq!(compose_project_display_name("/srv/app/compose.yml", None, false), "app");
    assert_eq!(compose_project_display_name("/srv/app", None, true), "app");
    assert_eq!(compose_project_display_name("compose.yml", None, false), "compose");
}

#[test]
fn compose_targets_and_working_dirs() {
    assert_eq!(primary_compose_target(" , a.yml, b.yml"), "a.yml");
    assert_eq!(primary_compose_target(" , "), "");
    assert_eq!(compose_target_working_dir("/srv/app/compose.yml", false), "/srv/app");
    assert_eq!(compose_target_working_dir("/srv/app", true), "/srv/app");
    assert_eq!(compose_target_working_dir("", false), "");
}

#[test]
fn inspected_command_prefers_path_and_arguments() {
    let args = strings(&[" -g ", "", "daemon off;"]);
    let cmd = strings(&["sh", "-c", "x"]);
    assert_eq!(format_command(Some(" nginx "), Some(&args), Some(&cmd)), "nginx -g daemon off;");
    assert_eq!(format_command(Some("  "), Some(&args), Some(&cmd)), "sh -c x");
    assert_eq!(format_command(None, None, None), "-");
    assert_eq!(format_command(None, None, Some(&strings(&[" ", ""]))), "-");
}

#[test]
fn inspected_ports_are_sorted_and_defaulted() {
    let entries = vec![
        PortEntry {
            container_port: String::from("80/tcp"),
            bindings: Some(vec![PortBinding { host_ip: None, host_port: Some(String::from("8080")) }]),
        },
        PortEntry { container_port: String::from("443/tcp"), bindings: None },
        PortEntry {
            container_port: String::from("53/udp"),
            bindings: Some(vec![PortBinding {
                host_ip: Some(String::from("127.0.0.1")),
                host_port: Some(String::from(" ")),
            }]),
        },
    ];
    assert_eq!(
        format_inspect_ports(&entries),
        "0.0.0.0:8080->80/tcp, 127.0.0.1:?->53/udp, 443/tcp"
    );
    assert_eq!(format_inspect_ports(&vec![]), "");
}

#[test]
fn inspected_container_details() {
    let row = InspectRow {
        id: String::from("abc123"),
        name: String::from("/web"),
        created: Some(String::from("2024-01-01")),
        path: Some(String::from("nginx")),
        args: Some(strings(&["-g", "daemon off;"])),
        status: None,
        image: Some(String::from("nginx:latest")),
        cmd: None,
        entrypoint: Some(strings(&["/docker-entrypoint.sh"])),
        env: Some(strings(&["A=1"])),
        working_dir: None,
        user: None,
        labels: Some(vec![
            (String::from("b"), String::from("2")),
            (String::from("a"), String::from("1")),
        ]),
        restart_policy: None,
        ip_address: Some(String::from("172.17.0.2")),
        ports: Some(vec![]),
    };
    let d = container_details_from_inspect(&row);
    assert_eq!(d.name, "web");
    assert_eq!(d.command, "nginx -g daemon off;");
    assert_eq!(d.entrypoint, "/docker-entrypoint.sh");
    assert_eq!(d.status, "unknown");
    assert_eq!(d.ports, "-");
    assert_eq!(d.restart_policy, "no");
    assert_eq!(d.runtime, "docker");
    assert_eq!(
        d.labels,
        vec![(String::from("a"), String::from("1")), (String::from("b"), String::from("2"))]
    );
    assert_eq!(strip_leading_slashes("//x/y"), "x/y");
}

#[test]
fn ps_rows_become_containers() {
    let row = PsRow {
        id: String::from("abc"),
        image: String::from("nginx"),
        names: String::from("web"),
        state: String::from("running"),
        status: String::from("Up 1 minute"),
        ports: String::from("  "),
    };
    let c = container_from_ps_row(&row);
    assert_eq!(c.ports, "-");
    assert_eq!(c.runtime, "docker");
    assert_eq!(c.name, "web");
}

#[test]
fn stats_rows_default_to_dash() {
    let row = StatsRow {
        container: None,
        cpu_percent: Some(String::from("1.5%")),
        memory_usage: None,
        memory_percent: None,
        net_io: None,
        block_io: None,
        pids: Some(String::from("3")),
    };
    let s = stats_from_row("abc", &row);
    assert_eq!(s.container_id, "abc");
    assert_eq!(s.cpu_percent, "1.5%");
    assert_eq!(s.memory_usage, "-");
    assert_eq!(s.pids, "3");
}

#[test]
fn compose_projects_are_sorted_by_name() {
    let rows = vec![
        ComposeRow {
            name: String::from("zeta"),
            status: None,
            config_files: Some(String::from("/z/compose.yml")),
        },
        ComposeRow { name: String::from("alpha"), status: Some(String::from("running(1)")), config_files: None },
    ];
    let projects = list_projects_from_rows(&rows, &vec![false, false]);
    assert_eq!(projects[0].name, "alpha");
    assert_eq!(projects[0].status, "running(1)");
    assert_eq!(projects[0].working_dir, "");
    assert_eq!(projects[1].name, "zeta");
    assert_eq!(projects[1].status, "Unknown");
    assert_eq!(projects[1].working_dir, "/z");
}

#[test]
fn container_list_is_sorted_by_name_then_runtime() {
    let native = vec![container("web", "native"), container("api", "native")];
    let docker = vec![container("web", "docker"), container("db", "docker")];
    let all = list_containers(&native, &docker);
    let keys: Vec<(String, String)> = all.iter().map(|c| (c.name.clone(), c.runtime.clone())).collect();
    assert_eq!(
        keys,
        vec![
            (String::from("api"), String::from("native")),
            (String::from("db"), String::from("docker")),
            (String::from("web"), String::from("docker")),
            (String::from("web"), String::from("native")),
        ]
    );
}

#[test]
fn runtime_and_engine_status_texts() {
    let with_bridge = runtime_status(Some("27.0.1"));
    assert_eq!(with_bridge.summary, "Native runtime prototype ready; Docker bridge ready (27.0.1)");
    assert!(with_bridge.bridge_ready);
    assert!(with_bridge.native_ready);
    let empty_version = runtime_status(Some(""));
    assert_eq!(empty_version.summary, "Native runtime prototype ready");
    assert!(empty_version.bridge_ready);
    let without = runtime_status(None);
    assert!(!without.bridge_ready);
    assert!(without.detail.contains("currently unavailable"));
    let engine = engine_status("/data/engine");
    assert_eq!(engine.summary, "Native OCI engine ready");
    assert_eq!(engine.store_path, "/data/engine");
}

#[test]
fn command_output_keeps_nonblank_lines_in_order() {
    assert_eq!(
        command_output_lines("a\n\n b \n", "  \nerr\n"),
        strings(&["a", " b ", "err"])
    );
}

#[test]
fn container_actions_go_native_or_through_docker() {
    assert!(matches!(stop_container_entry("native-1"), ContainerCommand::Native));
    match stop_container_entry("abc") {
        ContainerCommand::Docker(args) => assert_eq!(args, strings(&["stop", "abc"])),
        ContainerCommand::Native => panic!("expected a docker command"),
    }
    match start_container_entry("abc") {
        ContainerCommand::Docker(args) => assert_eq!(args, strings(&["start", "abc"])),
        ContainerCommand::Native => panic!("expected a docker command"),
    }
    match restart_container_entry("abc") {
        ContainerCommand::Docker(args) => assert_eq!(args, strings(&["restart", "abc"])),
        ContainerCommand::Native => panic!("expected a docker command"),
    }
    match remove_container_entry("abc") {
        ContainerCommand::Docker(args) => assert_eq!(args, strings(&["rm", "abc"])),
        ContainerCommand::Native => panic!("expected a docker command"),
    }
}

#[test]
fn exec_logs_and_compose_arguments() {
    assert_eq!(docker_exec_args("abc", "uname -a"), strings(&["exec", "abc", "sh", "-lc", "uname -a"]));
    assert_eq!(docker_logs_args("abc"), strings(&["logs", "--tail", "200", "abc"]));
    assert_eq!(
        compose_action_args("/srv/app", None, true, ComposeCommand::Up).unwrap(),
        strings(&["compose", "--project-directory", "/srv/app", "up", "-d", "--remove-orphans"])
    );
    assert_eq!(
        compose_action_args("/srv/app", Some("p"), true, ComposeCommand::Logs).unwrap(),
        strings(&["compose", "--project-directory", "/srv/app", "-p", "p", "logs", "--tail", "200", "--no-color"])
    );
    assert!(compose_action_args(" ", None, true, ComposeCommand::Down).is_err());
}

#[test]
fn stats_output_and_json_lists() {
    assert_eq!(stats_row_line("\n  \n{\"a\":1}\n").unwrap(), "{\"a\":1}");
    assert_eq!(stats_row_line(" \n").unwrap_err(), "docker stats returned no rows");
    assert!(matches!(json_list_form("  \n"), JsonListForm::Empty));
    assert!(matches!(json_list_form(" [1,2] "), JsonListForm::Array(t) if t == "[1,2]"));
    match json_list_form("{\"a\":1}\n\n{\"b\":2}\n") {
        JsonListForm::Rows(rows) => assert_eq!(rows, strings(&["{\"a\":1}", "{\"b\":2}"])),
        other => panic!("unexpected {other:?}"),
    }
}
