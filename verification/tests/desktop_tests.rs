use docker_rs_desktop::desktop::{DockerDesktopApp, EngineRequest, OpenOutcome, ShortcutKeys, ToastKind};
use docker_rs_desktop::model::{ContainerInfo, DockerImageInfo, WorkerEvent};
use docker_rs_desktop::ui::WorkspaceTab;

fn keys() -> ShortcutKeys {
    ShortcutKeys {
        go_home: false,
        go_projects: false,
        go_containers: false,
        go_images: false,
        go_build: false,
        go_logs: false,
        go_back: false,
        refresh: false,
    }
}

fn image(repo: &str, tag: &str) -> DockerImageInfo {
    DockerImageInfo {
        repository: repo.to_string(),
        tag: tag.to_string(),
        image_id: String::from("sha256:0"),
        size: String::from("0 B"),
        source: String::from("pulled-native"),
    }
}

#[test]
fn a_new_desktop_asks_for_status_and_lists() {
    let mut app = DockerDesktopApp::new();
    assert_eq!(app.logs, vec![String::from("Docker RS Desktop native engine started.")]);
    assert_eq!(app.pull_image_name, "nginx:latest");
    assert_eq!(app.workspace_tab, WorkspaceTab::Home);
    let requests = app.take_requests();
    assert_eq!(requests.len(), 5);
    assert!(matches!(requests[0], EngineRequest::CheckEngineStatus));
    assert!(matches!(requests[2], EngineRequest::RefreshImages));
    assert!(app.take_requests().is_empty());
}

#[test]
fn navigating_away_and_back_returns_to_the_page() {
    let mut app = DockerDesktopApp::new();
    app.navigate_to(WorkspaceTab::Images);
    app.navigate_to(WorkspaceTab::Containers);
    assert_eq!(app.page_history, vec![WorkspaceTab::Home, WorkspaceTab::Images]);
    app.navigate_back();
    assert_eq!(app.workspace_tab, WorkspaceTab::Images);
    app.navigate_back();
    assert_eq!(app.workspace_tab, WorkspaceTab::Home);
    app.navigate_back();
    assert_eq!(app.workspace_tab, WorkspaceTab::Home);
}

#[test]
fn page_history_keeps_the_last_twenty_four_pages() {
    let mut app = DockerDesktopApp::new();
    for i in 0..40 {
        if i % 2 == 0 {
            app.navigate_to(WorkspaceTab::Images);
        } else {
            app.navigate_to(WorkspaceTab::Logs);
        }
    }
    assert_eq!(app.page_history.len(), 24);
}

#[test]
fn pull_without_a_name_is_aborted() {
    let mut app = DockerDesktopApp::new();
    app.take_requests();
    app.pull_image_name = String::from("   ");
    app.start_pull();
    let toast = app.toast.as_ref().unwrap();
    assert_eq!(toast.message, "Pull aborted: image name is required.");
    assert_eq!(toast.kind, ToastKind::Error);
    assert!(app.take_requests().is_empty());
    app.pull_image_name = String::from(" alpine ");
    app.start_pull();
    assert_eq!(app.running_task, Some(String::from("Pulling alpine")));
    let requests = app.take_requests();
    assert!(matches!(&requests[0], EngineRequest::PullImage(image) if image == "alpine"));
}

#[test]
fn run_with_auto_remove_and_restart_policy_is_aborted() {
    let mut app = DockerDesktopApp::new();
    app.take_requests();
    app.run_image_name = String::from("nginx");
    app.run_auto_remove = true;
    app.run_restart_policy = String::from("always");
    app.start_run();
    assert_eq!(
        app.toast.as_ref().unwrap().message,
        "Run aborted: auto-remove (`--rm`) cannot be combined with a restart policy."
    );
    assert!(app.take_requests().is_empty());
    app.run_restart_policy = String::new();
    app.run_ports = String::from(" 8080:80 ");
    app.start_run();
    let requests = app.take_requests();
    match &requests[0] {
        EngineRequest::RunContainer(r) => {
            assert_eq!(r.image, "nginx");
            assert_eq!(r.ports, Some(String::from("8080:80")));
            assert_eq!(r.restart_policy, None);
            assert!(r.auto_remove);
        },
        _ => panic!("expected a run request"),
    }
}

#[test]
fn finished_actions_toast_log_and_refresh() {
    let mut app = DockerDesktopApp::new();
    app.take_requests();
    app.running_task = Some(String::from("Pulling x"));
    app.selected_container_id = Some(String::from("abc"));
    app.poll_events(vec![
        WorkerEvent::LogLine(String::from("step 1")),
        WorkerEvent::ActionFinished(Ok(String::from("done"))),
    ]);
    assert_eq!(app.running_task, None);
    let toast = app.toast.as_ref().unwrap();
    assert_eq!(toast.message, "done");
    assert_eq!(toast.kind, ToastKind::Success);
    assert_eq!(app.logs[app.logs.len() - 2], "step 1");
    assert_eq!(app.logs[app.logs.len() - 1], "done");
    let requests = app.take_requests();
    assert_eq!(requests.len(), 6);
    assert!(matches!(requests[0], EngineRequest::RefreshImages));
    assert!(matches!(&requests[4], EngineRequest::InspectContainer(id) if id == "abc"));
}

#[test]
fn image_list_clears_a_selection_that_is_gone() {
    let mut app = DockerDesktopApp::new();
    app.selected_image_ref = Some(String::from("library/a:1"));
    app.handle_event(WorkerEvent::ImageList(Ok(vec![image("library/a", "1")])));
    assert_eq!(app.selected_image_ref, Some(String::from("library/a:1")));
    app.handle_event(WorkerEvent::ImageList(Ok(vec![image("library/b", "1")])));
    assert_eq!(app.selected_image_ref, None);
    assert_eq!(app.images.len(), 1);
}

#[test]
fn failed_refreshes_are_logged() {
    let mut app = DockerDesktopApp::new();
    app.handle_event(WorkerEvent::ContainerList(Err(String::from("no docker"))));
    assert_eq!(app.logs.last().unwrap(), "Container refresh failed: no docker");
    app.handle_event(WorkerEvent::EngineStatus(Err(String::from("disk full"))));
    assert!(!app.engine_ready);
    assert_eq!(app.engine_status.summary, "Native engine unavailable");
    assert_eq!(app.engine_status.detail, "disk full");
}

#[test]
fn shortcuts_change_page_and_refresh() {
    let mut app = DockerDesktopApp::new();
    app.take_requests();
    let mut k = keys();
    k.go_images = true;
    k.refresh = true;
    app.apply_shortcuts(&k);
    assert_eq!(app.workspace_tab, WorkspaceTab::Images);
    assert_eq!(app.toast.as_ref().unwrap().message, "Refreshed Images.");
    let requests = app.take_requests();
    assert!(requests.iter().any(|r| matches!(r, EngineRequest::RefreshImages)));
}

#[test]
fn opening_a_url_reports_the_outcome() {
    let mut app = DockerDesktopApp::new();
    app.open_url_action("http://localhost:8080", OpenOutcome::Opened);
    assert_eq!(app.toast.as_ref().unwrap().message, "Opened http://localhost:8080");
    app.open_url_action("http://x", OpenOutcome::Failed(String::from("  no browser \n")));
    assert_eq!(app.toast.as_ref().unwrap().message, "Failed to open http://x: no browser");
    assert_eq!(app.toast.as_ref().unwrap().kind, ToastKind::Error);
}

#[test]
fn port_conflicts_are_warned_about() {
    let mut app = DockerDesktopApp::new();
    app.containers = vec![ContainerInfo {
        id: String::from("c1"),
        name: String::from("web"),
        image: String::from("nginx"),
        state: String::from("running"),
        status: String::from("Up"),
        ports: String::from("0.0.0.0:8080->80/tcp"),
        runtime: String::from("docker"),
    }];
    app.run_ports = String::from("8080:80");
    assert_eq!(
        app.port_conflict_hint(),
        Some(String::from("Port conflict warning: 8080 (web) already in use."))
    );
    app.run_ports = String::from("9090:80");
    assert_eq!(app.port_conflict_hint(), None);
}
