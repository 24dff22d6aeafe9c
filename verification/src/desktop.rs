//! The desktop controller: its state, how it reacts to the user and to engine
//! events, and the engine work it asks for.

use vstd::prelude::*;
use crate::model::{
    ContainerDetailsInfo, ContainerDetailsInfoView, ContainerInfo, ContainerInfoView,
    ContainerStatsInfo, ContainerStatsInfoView, DockerImageInfo, DockerImageInfoView,
    EngineStatusInfo, EngineStatusInfoView, ImageDetailsInfo, ImageDetailsInfoView, ProjectInfo,
    ProjectInfoView, RuntimeStatusInfo, RuntimeStatusInfoView, WorkerEvent,
};
use crate::text::{concat_str, join, join_strings, opt_trimmed, str_eq, trim, trim_str, trimmed_option};
use crate::order::{first_where, lemma_first_where};
use crate::ui::{
    parse_requested_host_ports, requested_host_ports_spec, used_host_ports, used_host_ports_spec,
    default_ports_spec, default_ports_for_image, primary_project_target, primary_target_spec,
    shorten_container_id, shorten_id_spec, workspace_title, workspace_title_spec, WorkspaceTab,
};

verus! {

/// How a toast is coloured.
#[derive(PartialEq, Eq, Structural, Clone, Copy, Debug)]
pub enum ToastKind {
    Success,
    Error,
    Info,
}

/// A short message shown over the workspace.
#[derive(Debug)]
pub struct ToastMessage {
    pub message: String,
    pub kind: ToastKind,
}

pub struct ToastMessageView {
    pub message: Seq<char>,
    pub kind: ToastKind,
}

impl View for ToastMessage {
    type V = ToastMessageView;

    open spec fn view(&self) -> ToastMessageView {
        ToastMessageView { message: self.message@, kind: self.kind }
    }
}

/// The options of a container run.
#[derive(Debug)]
pub struct RunRequest {
    pub image: String,
    pub container_name: Option<String>,
    pub ports: Option<String>,
    pub env_vars: Option<String>,
    pub volume_mounts: Option<String>,
    pub command_override: Option<String>,
    pub restart_policy: Option<String>,
    pub auto_remove: bool,
}

pub struct RunRequestView {
    pub image: Seq<char>,
    pub container_name: Option<Seq<char>>,
    pub ports: Option<Seq<char>>,
    pub env_vars: Option<Seq<char>>,
    pub volume_mounts: Option<Seq<char>>,
    pub command_override: Option<Seq<char>>,
    pub restart_policy: Option<Seq<char>>,
    pub auto_remove: bool,
}

impl View for RunRequest {
    type V = RunRequestView;

    open spec fn view(&self) -> RunRequestView {
        RunRequestView {
            image: self.image@,
            container_name: self.container_name.deep_view(),
            ports: self.ports.deep_view(),
            env_vars: self.env_vars.deep_view(),
            volume_mounts: self.volume_mounts.deep_view(),
            command_override: self.command_override.deep_view(),
            restart_policy: self.restart_policy.deep_view(),
            auto_remove: self.auto_remove,
        }
    }
}

/// Engine work the desktop asks for; the shell around it carries each out in
/// the background and reports back with [`WorkerEvent`]s.
#[derive(Debug)]
pub enum EngineRequest {
    CheckEngineStatus,
    CheckRuntimeStatus,
    RefreshImages,
    RefreshProjects,
    RefreshContainers,
    StartRuntime,
    PullImage(String),
    BuildImage { context: String, tag: String, dockerfile: Option<String> },
    ComposeUp { target: String, project_name: Option<String> },
    ComposeDown { target: String, project_name: Option<String> },
    FetchProjectLogs { target: String, project_name: Option<String> },
    RunContainer(RunRequest),
    StartContainer(String),
    StopContainer(String),
    RestartContainer(String),
    FetchContainerLogs(String),
    FollowContainerLogs(String),
    StopLiveLogs,
    RemoveImage(String),
    RemoveContainer(String),
    InspectContainer(String),
    InspectContainerStats(String),
    InspectImage(String),
    ExecInContainer { container_id: String, command: String },
}

pub enum EngineRequestView {
    CheckEngineStatus,
    CheckRuntimeStatus,
    RefreshImages,
    RefreshProjects,
    RefreshContainers,
    StartRuntime,
    PullImage(Seq<char>),
    BuildImage { context: Seq<char>, tag: Seq<char>, dockerfile: Option<Seq<char>> },
    ComposeUp { target: Seq<char>, project_name: Option<Seq<char>> },
    ComposeDown { target: Seq<char>, project_name: Option<Seq<char>> },
    FetchProjectLogs { target: Seq<char>, project_name: Option<Seq<char>> },
    RunContainer(RunRequestView),
    StartContainer(Seq<char>),
    StopContainer(Seq<char>),
    RestartContainer(Seq<char>),
    FetchContainerLogs(Seq<char>),
    FollowContainerLogs(Seq<char>),
    StopLiveLogs,
    RemoveImage(Seq<char>),
    RemoveContainer(Seq<char>),
    InspectContainer(Seq<char>),
    InspectContainerStats(Seq<char>),
    InspectImage(Seq<char>),
    ExecInContainer { container_id: Seq<char>, command: Seq<char> },
}

impl View for EngineRequest {
    type V = EngineRequestView;

    open spec fn view(&self) -> EngineRequestView {
        match self {
            EngineRequest::CheckEngineStatus => EngineRequestView::CheckEngineStatus,
            EngineRequest::CheckRuntimeStatus => EngineRequestView::CheckRuntimeStatus,
            EngineRequest::RefreshImages => EngineRequestView::RefreshImages,
            EngineRequest::RefreshProjects => EngineRequestView::RefreshProjects,
            EngineRequest::RefreshContainers => EngineRequestView::RefreshContainers,
            EngineRequest::StartRuntime => EngineRequestView::StartRuntime,
            EngineRequest::PullImage(s) => EngineRequestView::PullImage(s@),
            EngineRequest::BuildImage { context, tag, dockerfile } => EngineRequestView::BuildImage {
                context: context@,
                tag: tag@,
                dockerfile: dockerfile.deep_view(),
            },
            EngineRequest::ComposeUp { target, project_name } => EngineRequestView::ComposeUp {
                target: target@,
                project_name: project_name.deep_view(),
            },
            EngineRequest::ComposeDown { target, project_name } => EngineRequestView::ComposeDown {
                target: target@,
                project_name: project_name.deep_view(),
            },
            EngineRequest::FetchProjectLogs { target, project_name } =>
                EngineRequestView::FetchProjectLogs {
                target: target@,
                project_name: project_name.deep_view(),
            },
            EngineRequest::RunContainer(r) => EngineRequestView::RunContainer(r@),
            EngineRequest::StartContainer(s) => EngineRequestView::StartContainer(s@),
            EngineRequest::StopContainer(s) => EngineRequestView::StopContainer(s@),
            EngineRequest::RestartContainer(s) => EngineRequestView::RestartContainer(s@),
            EngineRequest::FetchContainerLogs(s) => EngineRequestView::FetchContainerLogs(s@),
            EngineRequest::FollowContainerLogs(s) => EngineRequestView::FollowContainerLogs(s@),
            EngineRequest::StopLiveLogs => EngineRequestView::StopLiveLogs,
            EngineRequest::RemoveImage(s) => EngineRequestView::RemoveImage(s@),
            EngineRequest::RemoveContainer(s) => EngineRequestView::RemoveContainer(s@),
            EngineRequest::InspectContainer(s) => EngineRequestView::InspectContainer(s@),
            EngineRequest::InspectContainerStats(s) => EngineRequestView::InspectContainerStats(s@),
            EngineRequest::InspectImage(s) => EngineRequestView::InspectImage(s@),
            EngineRequest::ExecInContainer { container_id, command } =>
                EngineRequestView::ExecInContainer { container_id: container_id@, command: command@ },
        }
    }
}

/// The state of the desktop, as its contracts see it.
#[verifier::ext_equal]
pub struct DesktopView {
    pub engine_status: EngineStatusInfoView,
    pub engine_ready: bool,
    pub runtime_status: RuntimeStatusInfoView,
    pub runtime_ready: bool,
    pub workspace_tab: WorkspaceTab,
    pub page_history: Seq<WorkspaceTab>,
    pub running_task: Option<Seq<char>>,
    pub toast: Option<ToastMessageView>,
    pub pull_image_name: Seq<char>,
    pub build_context: Seq<char>,
    pub build_tag: Seq<char>,
    pub dockerfile_path: Seq<char>,
    pub run_image_name: Seq<char>,
    pub run_container_name: Seq<char>,
    pub run_ports: Seq<char>,
    pub run_env: Seq<char>,
    pub run_volumes: Seq<char>,
    pub run_command: Seq<char>,
    pub run_restart_policy: Seq<char>,
    pub run_auto_remove: bool,
    pub run_ports_auto: bool,
    pub exec_command_input: Seq<char>,
    pub logs: Seq<Seq<char>>,
    pub images: Seq<DockerImageInfoView>,
    pub projects: Seq<ProjectInfoView>,
    pub containers: Seq<ContainerInfoView>,
    pub image_filter: Seq<char>,
    pub project_filter: Seq<char>,
    pub container_filter: Seq<char>,
    pub compose_target: Seq<char>,
    pub compose_project_name: Seq<char>,
    pub live_log_stream_container: Option<Seq<char>>,
    pub live_log_active: bool,
    pub selected_project_name: Option<Seq<char>>,
    pub selected_image_ref: Option<Seq<char>>,
    pub selected_image_details: Option<ImageDetailsInfoView>,
    pub selected_container_id: Option<Seq<char>>,
    pub selected_container_details: Option<ContainerDetailsInfoView>,
    pub selected_container_stats: Option<ContainerStatsInfoView>,
    pub requests: Seq<EngineRequestView>,
}

/// The state of the desktop: what it shows, what the user typed, and the
/// engine work it has asked for but not yet handed out (`requests`).
#[derive(Debug)]
pub struct DockerDesktopApp {
    pub engine_status: EngineStatusInfo,
    pub engine_ready: bool,
    pub runtime_status: RuntimeStatusInfo,
    pub runtime_ready: bool,
    pub workspace_tab: WorkspaceTab,
    pub page_history: Vec<WorkspaceTab>,
    pub running_task: Option<String>,
    pub toast: Option<ToastMessage>,
    pub pull_image_name: String,
    pub build_context: String,
    pub build_tag: String,
    pub dockerfile_path: String,
    pub run_image_name: String,
    pub run_container_name: String,
    pub run_ports: String,
    pub run_env: String,
    pub run_volumes: String,
    pub run_command: String,
    pub run_restart_policy: String,
    pub run_auto_remove: bool,
    pub run_ports_auto: bool,
    pub exec_command_input: String,
    pub logs: Vec<String>,
    pub images: Vec<DockerImageInfo>,
    pub projects: Vec<ProjectInfo>,
    pub containers: Vec<ContainerInfo>,
    pub image_filter: String,
    pub project_filter: String,
    pub container_filter: String,
    pub compose_target: String,
    pub compose_project_name: String,
    pub live_log_stream_container: Option<String>,
    pub live_log_active: bool,
    pub selected_project_name: Option<String>,
    pub selected_image_ref: Option<String>,
    pub selected_image_details: Option<ImageDetailsInfo>,
    pub selected_container_id: Option<String>,
    pub selected_container_details: Option<ContainerDetailsInfo>,
    pub selected_container_stats: Option<ContainerStatsInfo>,
    pub requests: Vec<EngineRequest>,
}

impl View for DockerDesktopApp {
    type V = DesktopView;

    open spec fn view(&self) -> DesktopView {
        DesktopView {
            engine_status: self.engine_status@,
            engine_ready: self.engine_ready,
            runtime_status: self.runtime_status@,
            runtime_ready: self.runtime_ready,
            workspace_tab: self.workspace_tab,
            page_history: self.page_history@,
            running_task: self.running_task.deep_view(),
            toast: match &self.toast { Some(x) => Some(x@), None => None },
            pull_image_name: self.pull_image_name@,
            build_context: self.build_context@,
            build_tag: self.build_tag@,
            dockerfile_path: self.dockerfile_path@,
            run_image_name: self.run_image_name@,
            run_container_name: self.run_container_name@,
            run_ports: self.run_ports@,
            run_env: self.run_env@,
            run_volumes: self.run_volumes@,
            run_command: self.run_command@,
            run_restart_policy: self.run_restart_policy@,
            run_auto_remove: self.run_auto_remove,
            run_ports_auto: self.run_ports_auto,
            exec_command_input: self.exec_command_input@,
            logs: self.logs.deep_view(),
            images: self.images@.map_values(|x: DockerImageInfo| x@),
            projects: self.projects@.map_values(|x: ProjectInfo| x@),
            containers: self.containers@.map_values(|x: ContainerInfo| x@),
            image_filter: self.image_filter@,
            project_filter: self.project_filter@,
            container_filter: self.container_filter@,
            compose_target: self.compose_target@,
            compose_project_name: self.compose_project_name@,
            live_log_stream_container: self.live_log_stream_container.deep_view(),
            live_log_active: self.live_log_active,
            selected_project_name: self.selected_project_name.deep_view(),
            selected_image_ref: self.selected_image_ref.deep_view(),
            selected_image_details: match &self.selected_image_details { Some(x) => Some(x@), None => None },
            selected_container_id: self.selected_container_id.deep_view(),
            selected_container_details: match &self.selected_container_details { Some(x) => Some(x@), None => None },
            selected_container_stats: match &self.selected_container_stats { Some(x) => Some(x@), None => None },
            requests: self.requests@.map_values(|x: EngineRequest| x@),
        }
    }
}

/// The most pages kept for going back.
pub const HISTORY_LIMIT: usize = 24;

fn push_request(reqs: &mut Vec<EngineRequest>, r: EngineRequest)
    ensures
        final(reqs)@.map_values(|x: EngineRequest| x@) == old(reqs)@.map_values(
            |x: EngineRequest| x@,
        ).push(r@),
{
    let ghost before = reqs@.map_values(|x: EngineRequest| x@);
    reqs.push(r);
    assert(reqs@.map_values(|x: EngineRequest| x@) =~= before.push(r@));
}

fn push_log(logs: &mut Vec<String>, line: String)
    ensures
        final(logs).deep_view() == old(logs).deep_view().push(line@),
{
    let ghost before = logs.deep_view();
    logs.push(line);
    assert(logs.deep_view() =~= before.push(line@));
}

/// The state after showing `message` as a toast.
pub open spec fn toast_spec(s: DesktopView, message: Seq<char>, kind: ToastKind) -> DesktopView {
    DesktopView { toast: Some(ToastMessageView { message, kind }), ..s }
}

/// The state after an aborted action: an error toast and the same line in the log.
pub open spec fn abort_spec(s: DesktopView, message: Seq<char>) -> DesktopView {
    DesktopView {
        toast: Some(ToastMessageView { message, kind: ToastKind::Error }),
        logs: s.logs.push(message),
        ..s
    }
}

/// The state after asking for some engine work.
pub open spec fn request_spec(s: DesktopView, rs: Seq<EngineRequestView>) -> DesktopView {
    DesktopView { requests: s.requests + rs, ..s }
}

/// The page history after leaving `from`: it grows by one and keeps the last
/// `HISTORY_LIMIT` pages.
pub open spec fn history_after(h: Seq<WorkspaceTab>, from: WorkspaceTab) -> Seq<WorkspaceTab> {
    let g = h.push(from);
    if g.len() > 24 {
        g.skip(g.len() - 24)
    } else {
        g
    }
}

/// The state after `navigate_to(tab)`.
pub open spec fn navigate_spec(s: DesktopView, tab: WorkspaceTab) -> DesktopView {
    if s.workspace_tab != tab {
        DesktopView {
            page_history: history_after(s.page_history, s.workspace_tab),
            workspace_tab: tab,
            ..s
        }
    } else {
        s
    }
}

/// The state after `navigate_back`.
pub open spec fn back_spec(s: DesktopView) -> DesktopView {
    if s.page_history.len() > 0 {
        DesktopView {
            workspace_tab: s.page_history.last(),
            page_history: s.page_history.drop_last(),
            ..s
        }
    } else {
        s
    }
}

/// Going to another page and back returns to where one was.
pub proof fn law_navigate_then_back(s: DesktopView, tab: WorkspaceTab)
    requires
        s.workspace_tab != tab,
    ensures
        back_spec(navigate_spec(s, tab)).workspace_tab == s.workspace_tab,
        s.page_history.len() < 24 ==> back_spec(navigate_spec(s, tab)).page_history
            == s.page_history,
{
    let g = s.page_history.push(s.workspace_tab);
    if g.len() > 24 {
        assert(g.skip(g.len() - 24).last() == g.last());
    } else {
        assert(g.drop_last() =~= s.page_history);
    }
}

/// The page history never holds more than `HISTORY_LIMIT` pages.
pub proof fn law_history_bounded(s: DesktopView, tab: WorkspaceTab)
    requires
        s.page_history.len() <= 24,
    ensures
        navigate_spec(s, tab).page_history.len() <= 24,
        back_spec(s).page_history.len() <= 24,
{
}

impl DockerDesktopApp {
    /// Hands out the engine work asked for so far, oldest first.
    pub fn take_requests(&mut self) -> (res: Vec<EngineRequest>)
        ensures
            res@.map_values(|x: EngineRequest| x@) == old(self)@.requests,
            final(self)@ == (DesktopView { requests: Seq::empty(), ..old(self)@ }),
    {
        let mut out: Vec<EngineRequest> = Vec::new();
        std::mem::swap(&mut out, &mut self.requests);
        assert(self.requests@.map_values(|x: EngineRequest| x@) =~= Seq::<EngineRequestView>::empty());
        out
    }

    /// `refresh_images`: asks for the image list.
    pub fn refresh_images(&mut self)
        ensures
            final(self)@ == (DesktopView {
                requests: old(self)@.requests.push(EngineRequestView::RefreshImages),
                ..old(self)@
            }),
    {
        push_request(&mut self.requests, EngineRequest::RefreshImages);
    }

    /// `refresh_projects`: asks for the compose project list.
    pub fn refresh_projects(&mut self)
        ensures
            final(self)@ == (DesktopView {
                requests: old(self)@.requests.push(EngineRequestView::RefreshProjects),
                ..old(self)@
            }),
    {
        push_request(&mut self.requests, EngineRequest::RefreshProjects);
    }
}

impl DockerDesktopApp {
    /// `show_toast`: shows a message over the workspace.
    pub fn show_toast(&mut self, message: String, kind: ToastKind)
        ensures
            final(self)@ == toast_spec(old(self)@, message@, kind),
    {
        self.toast = Some(ToastMessage { message, kind });
    }

    fn abort(&mut self, message: &str)
        ensures
            final(self)@ == abort_spec(old(self)@, message@),
    {
        self.show_toast(String::from_str(message), ToastKind::Error);
        push_log(&mut self.logs, String::from_str(message));
    }

    /// `refresh_engine`: logs the refresh and asks for the store status and the image list.
    pub fn refresh_engine(&mut self)
        ensures
            final(self)@ == request_spec(
                DesktopView {
                    logs: old(self)@.logs.push("Refreshing native OCI engine state..."@),
                    ..old(self)@
                },
                seq![EngineRequestView::CheckEngineStatus, EngineRequestView::RefreshImages],
            ),
    {
        push_log(&mut self.logs, String::from_str("Refreshing native OCI engine state..."));
        push_request(&mut self.requests, EngineRequest::CheckEngineStatus);
        push_request(&mut self.requests, EngineRequest::RefreshImages);
        assert(self@.requests =~= old(self)@.requests + seq![EngineRequestView::CheckEngineStatus, EngineRequestView::RefreshImages]);
    }

    /// `refresh_runtime`: logs the refresh and asks for the runtime status and the container list.
    pub fn refresh_runtime(&mut self)
        ensures
            final(self)@ == request_spec(
                DesktopView {
                    logs: old(self)@.logs.push("Refreshing runtime bridge state..."@),
                    ..old(self)@
                },
                seq![EngineRequestView::CheckRuntimeStatus, EngineRequestView::RefreshContainers],
            ),
    {
        push_log(&mut self.logs, String::from_str("Refreshing runtime bridge state..."));
        push_request(&mut self.requests, EngineRequest::CheckRuntimeStatus);
        push_request(&mut self.requests, EngineRequest::RefreshContainers);
        assert(self@.requests =~= old(self)@.requests + seq![EngineRequestView::CheckRuntimeStatus, EngineRequestView::RefreshContainers]);
    }

    /// `navigate_to`: goes to a page, remembering the one left.
    pub fn navigate_to(&mut self, tab: WorkspaceTab)
        ensures
            final(self)@ == navigate_spec(old(self)@, tab),
    {
        if self.workspace_tab != tab {
            self.page_history.push(self.workspace_tab);
            if self.page_history.len() > HISTORY_LIMIT {
                let overflow = self.page_history.len() - HISTORY_LIMIT;
                let mut kept: Vec<WorkspaceTab> = Vec::new();
                let mut i = overflow;
                while i < self.page_history.len()
                    invariant
                        overflow <= i <= self.page_history.len(),
                        kept@ =~= self.page_history@.subrange(overflow as int, i as int),
                    decreases self.page_history.len() - i,
                {
                    kept.push(self.page_history[i]);
                    i = i + 1;
                }
                self.page_history = kept;
            }
            self.workspace_tab = tab;
        }
    }

    /// `navigate_back`: returns to the page left last.
    pub fn navigate_back(&mut self)
        ensures
            final(self)@ == back_spec(old(self)@),
    {
        if let Some(previous) = self.page_history.pop() {
            self.workspace_tab = previous;
        }
    }
}


fn text(prefix: &str, rest: &str) -> (res: String)
    ensures
        res@ == prefix@ + rest@,
{
    concat_str(prefix, rest)
}

/// Position of the first project with the given name.
pub open spec fn find_project(projects: Seq<ProjectInfoView>, name: Seq<char>) -> Option<int> {
    first_where(projects, |p: ProjectInfoView| p.name == name)
}

/// The compose target to act on: the typed one, or else the first compose file
/// of the selected project.
pub open spec fn effective_target_spec(s: DesktopView) -> Option<Seq<char>> {
    let t = trim(s.compose_target);
    if t.len() > 0 {
        Some(t)
    } else {
        match s.selected_project_name {
            Some(name) => match find_project(s.projects, name) {
                Some(i) => {
                    let t2 = primary_target_spec(s.projects[i].config_files);
                    if t2.len() > 0 {
                        Some(t2)
                    } else {
                        None
                    }
                },
                None => None,
            },
            None => None,
        }
    }
}

/// The compose project name to act on: the typed one, or else the selected project.
pub open spec fn effective_name_spec(s: DesktopView) -> Option<Seq<char>> {
    let n = trim(s.compose_project_name);
    if n.len() > 0 {
        Some(n)
    } else {
        s.selected_project_name
    }
}

/// The run form filled in for an image.
pub open spec fn run_defaults_spec(s: DesktopView, image: Seq<char>) -> DesktopView {
    DesktopView {
        run_image_name: image,
        run_container_name: Seq::empty(),
        run_ports: default_ports_spec(image),
        run_env: Seq::empty(),
        run_volumes: Seq::empty(),
        run_command: Seq::empty(),
        run_restart_policy: Seq::empty(),
        run_auto_remove: false,
        run_ports_auto: true,
        ..s
    }
}

/// What `start_run` does.
pub open spec fn start_run_spec(s: DesktopView) -> DesktopView {
    let image = trim(s.run_image_name);
    if image.len() == 0 {
        abort_spec(s, "Run aborted: image name is required."@)
    } else {
        let s2 = DesktopView { running_task: Some("Running "@ + image), ..s };
        let policy = opt_trimmed(s.run_restart_policy);
        if s.run_auto_remove && policy is Some {
            abort_spec(
                s2,
                "Run aborted: auto-remove (`--rm`) cannot be combined with a restart policy."@,
            )
        } else {
            request_spec(
                s2,
                seq![
                    EngineRequestView::RunContainer(
                        RunRequestView {
                            image,
                            container_name: opt_trimmed(s.run_container_name),
                            ports: opt_trimmed(s.run_ports),
                            env_vars: opt_trimmed(s.run_env),
                            volume_mounts: opt_trimmed(s.run_volumes),
                            command_override: opt_trimmed(s.run_command),
                            restart_policy: policy,
                            auto_remove: s.run_auto_remove,
                        },
                    ),
                ],
            )
        }
    }
}

/// What ending the live log stream does.
pub open spec fn stop_live_logs_spec(s: DesktopView, log_message: bool) -> DesktopView {
    let s1 = if s.live_log_active {
        DesktopView {
            live_log_active: false,
            requests: s.requests.push(EngineRequestView::StopLiveLogs),
            ..s
        }
    } else {
        s
    };
    match s.live_log_stream_container {
        Some(id) => DesktopView {
            live_log_stream_container: None,
            logs: if log_message {
                s1.logs.push("Stopping live log stream for "@ + shorten_id_spec(id) + "..."@)
            } else {
                s1.logs
            },
            ..s1
        },
        None => s1,
    }
}

/// The published ports of running containers that the run form asks for too,
/// each with the container's name.
pub open spec fn conflicts_of(containers: Seq<ContainerInfoView>, requested: Seq<Seq<char>>) -> Seq<
    Seq<char>,
>
    decreases containers.len(),
{
    if containers.len() == 0 {
        Seq::empty()
    } else {
        let c = containers.last();
        conflicts_of(containers.drop_last(), requested) + used_host_ports_spec(c.ports).filter(
            |p: Seq<char>| requested.contains(p),
        ).map_values(|p: Seq<char>| p + " ("@ + c.name + ")"@)
    }
}

/// The warning shown when a requested host port is already published.
pub open spec fn port_conflict_spec(s: DesktopView) -> Option<Seq<char>> {
    let requested = requested_host_ports_spec(s.run_ports);
    if requested.len() == 0 {
        None
    } else {
        let c = conflicts_of(s.containers, requested);
        if c.len() == 0 {
            None
        } else {
            Some("Port conflict warning: "@ + join(c, ", "@) + " already in use."@)
        }
    }
}

fn contains_text(v: &Vec<String>, x: &str) -> (res: bool)
    ensures
        res == v.deep_view().contains(x@),
{
    let mut i: usize = 0;
    while i < v.len()
        invariant
            i <= v.len(),
            forall|j: int| 0 <= j < i ==> v.deep_view()[j] != x@,
        decreases v.len() - i,
    {
        if str_eq(v[i].as_str(), x) {
            assert(v.deep_view()[i as int] == x@);
            return true;
        }
        i = i + 1;
    }
    false
}

/// What a refresh of the current page asks for and logs.
pub open spec fn refresh_page_spec(s: DesktopView) -> DesktopView {
    let engine = seq![EngineRequestView::CheckEngineStatus, EngineRequestView::RefreshImages];
    let runtime = seq![EngineRequestView::CheckRuntimeStatus, EngineRequestView::RefreshContainers];
    let engine_log = "Refreshing native OCI engine state..."@;
    let runtime_log = "Refreshing runtime bridge state..."@;
    match s.workspace_tab {
        WorkspaceTab::Home | WorkspaceTab::Build => DesktopView {
            logs: s.logs.push(engine_log).push(runtime_log),
            requests: s.requests + engine + seq![EngineRequestView::RefreshImages, EngineRequestView::RefreshProjects] + runtime,
            ..s
        },
        WorkspaceTab::Projects => DesktopView {
            logs: s.logs.push(runtime_log),
            requests: s.requests + seq![EngineRequestView::RefreshProjects] + runtime,
            ..s
        },
        WorkspaceTab::Images => request_spec(s, seq![EngineRequestView::RefreshImages]),
        _ => DesktopView {
            logs: s.logs.push(runtime_log),
            requests: s.requests + runtime,
            ..s
        },
    }
}

/// Starting a run with a nonblank image, and not asking for both auto-remove
/// and a restart policy, queues exactly one request: a run of the trimmed
/// image under the trimmed container name typed in the form, or under no
/// name when that field is blank.
pub proof fn law_run_request_carries_typed_name(s: DesktopView)
    requires
        trim(s.run_image_name).len() > 0,
        !(s.run_auto_remove && trim(s.run_restart_policy).len() > 0),
    ensures
        ({
            let out = start_run_spec(s);
            let name = trim(s.run_container_name);
            &&& out.requests.len() == s.requests.len() + 1
            &&& out.requests.take(s.requests.len() as int) == s.requests
            &&& out.requests.last() matches EngineRequestView::RunContainer(r) && r.image == trim(
                s.run_image_name,
            ) && (name.len() > 0 ==> r.container_name == Some(name)) && (name.len() == 0
                ==> r.container_name is None) && r.auto_remove == s.run_auto_remove
        }),
{
    let out = start_run_spec(s);
    assert(out.requests.take(s.requests.len() as int) =~= s.requests);
}

/// What `start_compose_up` does.
pub open spec fn compose_up_spec(s: DesktopView) -> DesktopView {
    match effective_target_spec(s) {
        None => abort_spec(s, "Compose up aborted: choose a compose file or project folder."@),
        Some(target) => {
            let name = effective_name_spec(s);
            request_spec(
                DesktopView {
                    running_task: Some("Starting compose project "@ + match name { Some(n) => n, None => target }),
                    ..s
                },
                seq![EngineRequestView::ComposeUp { target, project_name: name }],
            )
        },
    }
}

/// Compose actions use the project name typed in the form, trimmed, whenever
/// it is not blank; only a blank field falls back to the selected project.
/// Bringing a project up with a target queues one request, for that target
/// under that name.
pub proof fn law_compose_uses_typed_project_name(s: DesktopView)
    ensures
        trim(s.compose_project_name).len() > 0 ==> effective_name_spec(s) == Some(
            trim(s.compose_project_name),
        ),
        trim(s.compose_project_name).len() == 0 ==> effective_name_spec(s)
            == s.selected_project_name,
        effective_target_spec(s) matches Some(t) ==> {
            let out = compose_up_spec(s);
            &&& out.requests.len() == s.requests.len() + 1
            &&& trim(s.compose_project_name).len() > 0 ==> out.requests.last()
                == EngineRequestView::ComposeUp { target: t, project_name: Some(trim(s.compose_project_name)) }
            &&& trim(s.compose_project_name).len() == 0 ==> out.requests.last()
                == EngineRequestView::ComposeUp { target: t, project_name: s.selected_project_name }
        },
{
}

/// A runtime status report makes running containers possible exactly when the
/// native runtime or the Docker bridge is ready, and is shown as reported; a
/// failed report makes it impossible.
pub proof fn law_runtime_ready_follows_status(s: DesktopView, info: RuntimeStatusInfo, message: String)
    ensures
        event_spec(s, WorkerEvent::RuntimeStatus(Ok(info))).runtime_ready == (info.native_ready
            || info.bridge_ready),
        event_spec(s, WorkerEvent::RuntimeStatus(Ok(info))).runtime_status == info@,
        !event_spec(s, WorkerEvent::RuntimeStatus(Err(message))).runtime_ready,
{
}

impl DockerDesktopApp {
    /// `start_pull`: asks to pull the typed image.
    pub fn start_pull(&mut self)
        ensures
            ({
                let s = old(self)@;
                let image = trim(s.pull_image_name);
                final(self)@ == if image.len() == 0 {
                    abort_spec(s, "Pull aborted: image name is required."@)
                } else {
                    request_spec(
                        DesktopView { running_task: Some("Pulling "@ + image), ..s },
                        seq![EngineRequestView::PullImage(image)],
                    )
                }
            }),
    {
        let image = trim_str(self.pull_image_name.as_str());
        if image.as_str().is_empty() {
            self.abort("Pull aborted: image name is required.");
            return;
        }
        self.running_task = Some(text("Pulling ", image.as_str()));
        push_request(&mut self.requests, EngineRequest::PullImage(image));
        assert(self@.requests =~= old(self)@.requests + seq![EngineRequestView::PullImage(trim(old(self)@.pull_image_name))]);
    }

    /// `start_build`: asks to build the typed context and tag.
    pub fn start_build(&mut self)
        ensures
            ({
                let s = old(self)@;
                let context = trim(s.build_context);
                let tag = trim(s.build_tag);
                final(self)@ == if context.len() == 0 {
                    abort_spec(s, "Build aborted: local folder or Git repo URL is required."@)
                } else if tag.len() == 0 {
                    abort_spec(s, "Build aborted: image tag is required."@)
                } else {
                    request_spec(
                        DesktopView { running_task: Some("Building "@ + tag), ..s },
                        seq![
                            EngineRequestView::BuildImage {
                                context,
                                tag,
                                dockerfile: opt_trimmed(s.dockerfile_path),
                            },
                        ],
                    )
                }
            }),
    {
        let context = trim_str(self.build_context.as_str());
        let tag = trim_str(self.build_tag.as_str());
        let dockerfile = trimmed_option(self.dockerfile_path.as_str());
        if context.as_str().is_empty() {
            self.abort("Build aborted: local folder or Git repo URL is required.");
            return;
        }
        if tag.as_str().is_empty() {
            self.abort("Build aborted: image tag is required.");
            return;
        }
        self.running_task = Some(text("Building ", tag.as_str()));
        let ghost r = EngineRequestView::BuildImage { context: context@, tag: tag@, dockerfile: dockerfile.deep_view() };
        push_request(&mut self.requests, EngineRequest::BuildImage { context, tag, dockerfile });
        assert(self@.requests =~= old(self)@.requests + seq![r]);
    }

    /// `refresh_current_page`: refreshes what the current page shows.
    pub fn refresh_current_page(&mut self)
        ensures
            final(self)@ == refresh_page_spec(old(self)@),
    {
        match self.workspace_tab {
            WorkspaceTab::Home | WorkspaceTab::Build => {
                self.refresh_engine();
                self.refresh_images();
                self.refresh_projects();
                self.refresh_runtime();
            },
            WorkspaceTab::Projects => {
                self.refresh_projects();
                self.refresh_runtime();
            },
            WorkspaceTab::Images => {
                self.refresh_images();
            },
            _ => {
                self.refresh_runtime();
            },
        }
        assert(self@.requests =~= match old(self)@.workspace_tab {
            WorkspaceTab::Home | WorkspaceTab::Build => old(self)@.requests + seq![EngineRequestView::CheckEngineStatus, EngineRequestView::RefreshImages] + seq![EngineRequestView::RefreshImages, EngineRequestView::RefreshProjects] + seq![EngineRequestView::CheckRuntimeStatus, EngineRequestView::RefreshContainers],
            WorkspaceTab::Projects => old(self)@.requests + seq![EngineRequestView::RefreshProjects] + seq![EngineRequestView::CheckRuntimeStatus, EngineRequestView::RefreshContainers],
            WorkspaceTab::Images => old(self)@.requests + seq![EngineRequestView::RefreshImages],
            _ => old(self)@.requests + seq![EngineRequestView::CheckRuntimeStatus, EngineRequestView::RefreshContainers],
        });
    }

    /// `start_runtime`: asks to launch the Docker fallback runtime.
    pub fn start_runtime(&mut self)
        ensures
            final(self)@ == request_spec(
                DesktopView { running_task: Some("Starting Docker runtime bridge"@), ..old(self)@ },
                seq![EngineRequestView::StartRuntime],
            ),
    {
        self.running_task = Some(String::from_str("Starting Docker runtime bridge"));
        push_request(&mut self.requests, EngineRequest::StartRuntime);
        assert(self@.requests =~= old(self)@.requests + seq![EngineRequestView::StartRuntime]);
    }

    /// `effective_project_target`.
    pub fn effective_project_target(&self) -> (res: Option<String>)
        ensures
            res.deep_view() == effective_target_spec(self@),
    {
        let target = trim_str(self.compose_target.as_str());
        if !target.as_str().is_empty() {
            return Some(target);
        }
        match &self.selected_project_name {
            Some(name) => {
                assert(self@.selected_project_name == Some(name@));
                let ghost pv = self.projects@.map_values(|x: ProjectInfo| x@);
                assert(pv == self@.projects);
                let ghost pred = |p: ProjectInfoView| p.name == name@;
                let mut i: usize = 0;
                while i < self.projects.len()
                    invariant
                        i <= self.projects.len(),
                        pv == self.projects@.map_values(|x: ProjectInfo| x@),
                        pred == (|p: ProjectInfoView| p.name == name@),
                        forall|j: int| 0 <= j < i ==> !pred(#[trigger] pv[j]),
                        trim(self@.compose_target).len() == 0,
                        self@.selected_project_name == Some(name@),
                    decreases self.projects.len() - i,
                {
                    if str_eq(self.projects[i].name.as_str(), name.as_str()) {
                        proof {
                            lemma_first_where(pv, pred, i as int);
                            assert(find_project(pv, name@) == Some(i as int));
                            assert(pv[i as int].config_files == self.projects@[i as int].config_files@);
                        }
                        let t = primary_project_target(self.projects[i].config_files.as_str());
                        if t.as_str().is_empty() {
                            return None;
                        }
                        return Some(t);
                    }
                    i = i + 1;
                }
                proof {
                    lemma_first_where(pv, pred, i as int);
                    assert(find_project(pv, name@) is None);
                }
                None
            },
            None => None,
        }
    }

    /// `effective_project_name`.
    pub fn effective_project_name(&self) -> (res: Option<String>)
        ensures
            res.deep_view() == effective_name_spec(self@),
    {
        let name = trim_str(self.compose_project_name.as_str());
        if !name.as_str().is_empty() {
            Some(name)
        } else {
            crate::text::clone_opt_string(&self.selected_project_name)
        }
    }

    /// `select_project`: selects a project and fills the compose form from it.
    pub fn select_project(&mut self, project: &ProjectInfo)
        ensures
            ({
                let s = old(self)@;
                let target = primary_target_spec(project.config_files@);
                final(self)@ == DesktopView {
                    selected_project_name: Some(project.name@),
                    compose_project_name: project.name@,
                    compose_target: if target.len() > 0 { target } else { s.compose_target },
                    ..s
                }
            }),
    {
        self.selected_project_name = Some(project.name.clone());
        self.compose_project_name = project.name.clone();
        let target = primary_project_target(project.config_files.as_str());
        if !target.as_str().is_empty() {
            self.compose_target = target;
        }
    }

    /// `start_compose_up`.
    pub fn start_compose_up(&mut self)
        ensures
            final(self)@ == compose_up_spec(old(self)@),
    {
        let target = match self.effective_project_target() {
            Some(t) => t,
            None => {
                self.abort("Compose up aborted: choose a compose file or project folder.");
                return;
            },
        };
        let name = self.effective_project_name();
        let shown = match &name {
            Some(n) => n.clone(),
            None => target.clone(),
        };
        self.running_task = Some(text("Starting compose project ", shown.as_str()));
        let ghost r = EngineRequestView::ComposeUp { target: target@, project_name: name.deep_view() };
        push_request(&mut self.requests, EngineRequest::ComposeUp { target, project_name: name });
        assert(self@.requests =~= old(self)@.requests + seq![r]);
    }

    /// `start_compose_down`.
    pub fn start_compose_down(&mut self)
        ensures
            ({
                let s = old(self)@;
                final(self)@ == match effective_target_spec(s) {
                    None => abort_spec(s, "Compose down aborted: choose a compose file or project folder."@),
                    Some(target) => {
                        let name = effective_name_spec(s);
                        request_spec(
                            DesktopView {
                                running_task: Some("Stopping compose project "@ + match name { Some(n) => n, None => target }),
                                ..s
                            },
                            seq![EngineRequestView::ComposeDown { target, project_name: name }],
                        )
                    },
                }
            }),
    {
        let target = match self.effective_project_target() {
            Some(t) => t,
            None => {
                self.abort("Compose down aborted: choose a compose file or project folder.");
                return;
            },
        };
        let name = self.effective_project_name();
        let shown = match &name {
            Some(n) => n.clone(),
            None => target.clone(),
        };
        self.running_task = Some(text("Stopping compose project ", shown.as_str()));
        let ghost r = EngineRequestView::ComposeDown { target: target@, project_name: name.deep_view() };
        push_request(&mut self.requests, EngineRequest::ComposeDown { target, project_name: name });
        assert(self@.requests =~= old(self)@.requests + seq![r]);
    }

    /// `fetch_compose_logs`: goes to the log page and asks for the project's logs.
    pub fn fetch_compose_logs(&mut self)
        ensures
            ({
                let s = old(self)@;
                final(self)@ == match effective_target_spec(s) {
                    None => abort_spec(s, "Compose logs aborted: choose a compose file or project folder."@),
                    Some(target) => {
                        let name = effective_name_spec(s);
                        request_spec(
                            DesktopView {
                                running_task: Some("Fetching compose logs for "@ + match name { Some(n) => n, None => target }),
                                ..navigate_spec(s, WorkspaceTab::Logs)
                            },
                            seq![EngineRequestView::FetchProjectLogs { target, project_name: name }],
                        )
                    },
                }
            }),
    {
        let target = match self.effective_project_target() {
            Some(t) => t,
            None => {
                self.abort("Compose logs aborted: choose a compose file or project folder.");
                return;
            },
        };
        let name = self.effective_project_name();
        self.navigate_to(WorkspaceTab::Logs);
        let shown = match &name {
            Some(n) => n.clone(),
            None => target.clone(),
        };
        self.running_task = Some(text("Fetching compose logs for ", shown.as_str()));
        let ghost r = EngineRequestView::FetchProjectLogs { target: target@, project_name: name.deep_view() };
        let ghost before = self@.requests;
        push_request(&mut self.requests, EngineRequest::FetchProjectLogs { target, project_name: name });
        assert(self@.requests =~= before + seq![r]);
    }

    /// `start_run`: asks to run a container with the options of the run form.
    pub fn start_run(&mut self)
        ensures
            final(self)@ == start_run_spec(old(self)@),
    {
        let image = trim_str(self.run_image_name.as_str());
        if image.as_str().is_empty() {
            self.abort("Run aborted: image name is required.");
            return;
        }
        self.running_task = Some(text("Running ", image.as_str()));
        let container_name = trimmed_option(self.run_container_name.as_str());
        let ports = trimmed_option(self.run_ports.as_str());
        let env_vars = trimmed_option(self.run_env.as_str());
        let volume_mounts = trimmed_option(self.run_volumes.as_str());
        let command_override = trimmed_option(self.run_command.as_str());
        let restart_policy = trimmed_option(self.run_restart_policy.as_str());
        if self.run_auto_remove && restart_policy.is_some() {
            self.abort("Run aborted: auto-remove (`--rm`) cannot be combined with a restart policy.");
            return;
        }
        let req = RunRequest {
            image,
            container_name,
            ports,
            env_vars,
            volume_mounts,
            command_override,
            restart_policy,
            auto_remove: self.run_auto_remove,
        };
        let ghost r = EngineRequestView::RunContainer(req@);
        let ghost before = self@.requests;
        push_request(&mut self.requests, EngineRequest::RunContainer(req));
        assert(self@.requests =~= before + seq![r]);
    }

    /// `apply_run_defaults_for_image`: fills the run form for an image.
    pub fn apply_run_defaults_for_image(&mut self, image: &str)
        ensures
            final(self)@ == run_defaults_spec(old(self)@, image@),
    {
        self.run_image_name = String::from_str(image);
        self.run_container_name = String::new();
        self.run_ports = default_ports_for_image(image);
        self.run_env = String::new();
        self.run_volumes = String::new();
        self.run_command = String::new();
        self.run_restart_policy = String::new();
        self.run_auto_remove = false;
        self.run_ports_auto = true;
    }

    /// `start_run_from_image`: fills the run form for an image and runs it.
    pub fn start_run_from_image(&mut self, image: String)
        ensures
            final(self)@ == start_run_spec(
                navigate_spec(run_defaults_spec(old(self)@, image@), WorkspaceTab::Build),
            ),
    {
        self.apply_run_defaults_for_image(image.as_str());
        self.navigate_to(WorkspaceTab::Build);
        self.start_run();
    }

    /// `prefill_run_from_image`: fills the run form for an image.
    pub fn prefill_run_from_image(&mut self, image: String)
        ensures
            final(self)@ == navigate_spec(run_defaults_spec(old(self)@, image@), WorkspaceTab::Build),
    {
        self.apply_run_defaults_for_image(image.as_str());
        self.navigate_to(WorkspaceTab::Build);
    }

    fn container_task(&mut self, prefix: &str, container_id: &str)
        ensures
            final(self)@ == (DesktopView {
                running_task: Some(prefix@ + shorten_id_spec(container_id@)),
                ..old(self)@
            }),
    {
        let short = shorten_container_id(container_id);
        self.running_task = Some(text(prefix, short.as_str()));
    }

    /// `start_container_action`.
    pub fn start_container_action(&mut self, container_id: String)
        ensures
            final(self)@ == request_spec(
                DesktopView {
                    running_task: Some("Starting container "@ + shorten_id_spec(container_id@)),
                    ..old(self)@
                },
                seq![EngineRequestView::StartContainer(container_id@)],
            ),
    {
        self.container_task("Starting container ", container_id.as_str());
        let ghost before = self@.requests;
        let ghost id = container_id@;
        push_request(&mut self.requests, EngineRequest::StartContainer(container_id));
        assert(self@.requests =~= before + seq![EngineRequestView::StartContainer(id)]);
    }

    /// `stop_container_action`.
    pub fn stop_container_action(&mut self, container_id: String)
        ensures
            final(self)@ == request_spec(
                DesktopView {
                    running_task: Some("Stopping container "@ + shorten_id_spec(container_id@)),
                    ..old(self)@
                },
                seq![EngineRequestView::StopContainer(container_id@)],
            ),
    {
        self.container_task("Stopping container ", container_id.as_str());
        let ghost before = self@.requests;
        let ghost id = container_id@;
        push_request(&mut self.requests, EngineRequest::StopContainer(container_id));
        assert(self@.requests =~= before + seq![EngineRequestView::StopContainer(id)]);
    }

    /// `restart_container_action`.
    pub fn restart_container_action(&mut self, container_id: String)
        ensures
            final(self)@ == request_spec(
                DesktopView {
                    running_task: Some("Restarting container "@ + shorten_id_spec(container_id@)),
                    ..old(self)@
                },
                seq![EngineRequestView::RestartContainer(container_id@)],
            ),
    {
        self.container_task("Restarting container ", container_id.as_str());
        let ghost before = self@.requests;
        let ghost id = container_id@;
        push_request(&mut self.requests, EngineRequest::RestartContainer(container_id));
        assert(self@.requests =~= before + seq![EngineRequestView::RestartContainer(id)]);
    }

    /// `logs_container_action`: goes to the log page and asks for the container's logs.
    pub fn logs_container_action(&mut self, container_id: String)
        ensures
            final(self)@ == request_spec(
                DesktopView {
                    running_task: Some("Fetching logs for "@ + shorten_id_spec(container_id@)),
                    ..navigate_spec(old(self)@, WorkspaceTab::Logs)
                },
                seq![EngineRequestView::FetchContainerLogs(container_id@)],
            ),
    {
        self.navigate_to(WorkspaceTab::Logs);
        self.container_task("Fetching logs for ", container_id.as_str());
        let ghost before = self@.requests;
        let ghost id = container_id@;
        push_request(&mut self.requests, EngineRequest::FetchContainerLogs(container_id));
        assert(self@.requests =~= before + seq![EngineRequestView::FetchContainerLogs(id)]);
    }

    /// `stop_live_logs_internal`: ends the live log stream, if any.
    pub fn stop_live_logs_internal(&mut self, log_message: bool)
        ensures
            final(self)@ == stop_live_logs_spec(old(self)@, log_message),
    {
        if self.live_log_active {
            self.live_log_active = false;
            push_request(&mut self.requests, EngineRequest::StopLiveLogs);
        }
        let taken = self.live_log_stream_container.take();
        if let Some(container_id) = taken {
            if log_message {
                let short = shorten_container_id(container_id.as_str());
                let mut line = text("Stopping live log stream for ", short.as_str());
                line.append("...");
                push_log(&mut self.logs, line);
            }
        }
    }

    /// `stop_live_logs_action`.
    pub fn stop_live_logs_action(&mut self)
        ensures
            final(self)@ == stop_live_logs_spec(old(self)@, true),
    {
        self.stop_live_logs_internal(true);
    }

    /// `follow_logs_action`: goes to the log page and starts a live log stream.
    pub fn follow_logs_action(&mut self, container_id: String)
        ensures
            ({
                let s = stop_live_logs_spec(navigate_spec(old(self)@, WorkspaceTab::Logs), false);
                final(self)@ == DesktopView {
                    live_log_stream_container: Some(container_id@),
                    live_log_active: true,
                    logs: s.logs.push(
                        "Starting live log stream for "@ + shorten_id_spec(container_id@) + "..."@,
                    ),
                    requests: s.requests.push(EngineRequestView::FollowContainerLogs(container_id@)),
                    ..s
                }
            }),
    {
        self.navigate_to(WorkspaceTab::Logs);
        self.stop_live_logs_internal(false);
        self.live_log_stream_container = Some(container_id.clone());
        self.live_log_active = true;
        let short = shorten_container_id(container_id.as_str());
        let mut line = text("Starting live log stream for ", short.as_str());
        line.append("...");
        push_log(&mut self.logs, line);
        push_request(&mut self.requests, EngineRequest::FollowContainerLogs(container_id));
    }

    /// `remove_image_action`: asks to remove an image, forgetting it if selected.
    pub fn remove_image_action(&mut self, image: String)
        ensures
            ({
                let s = old(self)@;
                let s1 = DesktopView { running_task: Some("Removing image "@ + image@), ..s };
                let s2 = if s.selected_image_ref == Some(image@) {
                    DesktopView { selected_image_ref: None, selected_image_details: None, ..s1 }
                } else {
                    s1
                };
                final(self)@ == request_spec(s2, seq![EngineRequestView::RemoveImage(image@)])
            }),
    {
        self.running_task = Some(text("Removing image ", image.as_str()));
        let same = match &self.selected_image_ref {
            Some(r) => str_eq(r.as_str(), image.as_str()),
            None => false,
        };
        if same {
            self.selected_image_ref = None;
            self.selected_image_details = None;
        }
        let ghost before = self@.requests;
        let ghost v = image@;
        push_request(&mut self.requests, EngineRequest::RemoveImage(image));
        assert(self@.requests =~= before + seq![EngineRequestView::RemoveImage(v)]);
    }

    /// `remove_container_action`: asks to remove a container, forgetting it if selected.
    pub fn remove_container_action(&mut self, container_id: String)
        ensures
            ({
                let s = old(self)@;
                let s1 = DesktopView {
                    running_task: Some("Removing container "@ + shorten_id_spec(container_id@)),
                    ..s
                };
                let s2 = if s.selected_container_id == Some(container_id@) {
                    DesktopView { selected_container_id: None, selected_container_details: None, ..s1 }
                } else {
                    s1
                };
                final(self)@ == request_spec(s2, seq![EngineRequestView::RemoveContainer(container_id@)])
            }),
    {
        self.container_task("Removing container ", container_id.as_str());
        let same = match &self.selected_container_id {
            Some(r) => str_eq(r.as_str(), container_id.as_str()),
            None => false,
        };
        if same {
            self.selected_container_id = None;
            self.selected_container_details = None;
        }
        let ghost before = self@.requests;
        let ghost v = container_id@;
        push_request(&mut self.requests, EngineRequest::RemoveContainer(container_id));
        assert(self@.requests =~= before + seq![EngineRequestView::RemoveContainer(v)]);
    }

    /// `inspect_container_action`: goes to the container page and asks for details.
    pub fn inspect_container_action(&mut self, container_id: String)
        ensures
            final(self)@ == request_spec(
                DesktopView {
                    running_task: Some("Inspecting container "@ + shorten_id_spec(container_id@)),
                    ..navigate_spec(old(self)@, WorkspaceTab::Containers)
                },
                seq![EngineRequestView::InspectContainer(container_id@)],
            ),
    {
        self.navigate_to(WorkspaceTab::Containers);
        self.container_task("Inspecting container ", container_id.as_str());
        let ghost before = self@.requests;
        let ghost id = container_id@;
        push_request(&mut self.requests, EngineRequest::InspectContainer(container_id));
        assert(self@.requests =~= before + seq![EngineRequestView::InspectContainer(id)]);
    }

    /// `exec_container_action`: asks to run the typed command in a container.
    pub fn exec_container_action(&mut self, container_id: String)
        ensures
            ({
                let s = old(self)@;
                let command = trim(s.exec_command_input);
                final(self)@ == if command.len() == 0 {
                    abort_spec(s, "Exec aborted: command is required."@)
                } else {
                    request_spec(
                        DesktopView {
                            running_task: Some("Executing in "@ + shorten_id_spec(container_id@)),
                            ..s
                        },
                        seq![EngineRequestView::ExecInContainer { container_id: container_id@, command }],
                    )
                }
            }),
    {
        let command = trim_str(self.exec_command_input.as_str());
        if command.as_str().is_empty() {
            self.abort("Exec aborted: command is required.");
            return;
        }
        self.container_task("Executing in ", container_id.as_str());
        let ghost r = EngineRequestView::ExecInContainer { container_id: container_id@, command: command@ };
        let ghost before = self@.requests;
        push_request(&mut self.requests, EngineRequest::ExecInContainer { container_id, command });
        assert(self@.requests =~= before + seq![r]);
    }

    /// `refresh_selected_container_details`.
    pub fn refresh_selected_container_details(&mut self)
        ensures
            final(self)@ == match old(self)@.selected_container_id {
                Some(id) => request_spec(old(self)@, seq![EngineRequestView::InspectContainer(id)]),
                None => old(self)@,
            },
    {
        if let Some(id) = &self.selected_container_id {
            let id = id.clone();
            let ghost before = self@.requests;
            let ghost v = id@;
            push_request(&mut self.requests, EngineRequest::InspectContainer(id));
            assert(self@.requests =~= before + seq![EngineRequestView::InspectContainer(v)]);
        }
    }

    /// `refresh_selected_container_stats`.
    pub fn refresh_selected_container_stats(&mut self)
        ensures
            final(self)@ == match old(self)@.selected_container_id {
                Some(id) => request_spec(old(self)@, seq![EngineRequestView::InspectContainerStats(id)]),
                None => old(self)@,
            },
    {
        if let Some(id) = &self.selected_container_id {
            let id = id.clone();
            let ghost before = self@.requests;
            let ghost v = id@;
            push_request(&mut self.requests, EngineRequest::InspectContainerStats(id));
            assert(self@.requests =~= before + seq![EngineRequestView::InspectContainerStats(v)]);
        }
    }

    /// `refresh_selected_image_details`.
    pub fn refresh_selected_image_details(&mut self)
        ensures
            final(self)@ == match old(self)@.selected_image_ref {
                Some(r) => request_spec(old(self)@, seq![EngineRequestView::InspectImage(r)]),
                None => old(self)@,
            },
    {
        if let Some(r) = &self.selected_image_ref {
            let r = r.clone();
            let ghost before = self@.requests;
            let ghost v = r@;
            push_request(&mut self.requests, EngineRequest::InspectImage(r));
            assert(self@.requests =~= before + seq![EngineRequestView::InspectImage(v)]);
        }
    }

    /// `refresh_container_stats_action`.
    pub fn refresh_container_stats_action(&mut self, container_id: String)
        ensures
            final(self)@ == request_spec(
                DesktopView {
                    running_task: Some("Refreshing stats for "@ + shorten_id_spec(container_id@)),
                    ..old(self)@
                },
                seq![EngineRequestView::InspectContainerStats(container_id@)],
            ),
    {
        self.container_task("Refreshing stats for ", container_id.as_str());
        let ghost before = self@.requests;
        let ghost id = container_id@;
        push_request(&mut self.requests, EngineRequest::InspectContainerStats(container_id));
        assert(self@.requests =~= before + seq![EngineRequestView::InspectContainerStats(id)]);
    }

    /// `inspect_image_action`: goes to the image page and asks for details.
    pub fn inspect_image_action(&mut self, image: String)
        ensures
            final(self)@ == request_spec(
                DesktopView {
                    running_task: Some("Inspecting image "@ + image@),
                    ..navigate_spec(old(self)@, WorkspaceTab::Images)
                },
                seq![EngineRequestView::InspectImage(image@)],
            ),
    {
        self.navigate_to(WorkspaceTab::Images);
        self.running_task = Some(text("Inspecting image ", image.as_str()));
        let ghost before = self@.requests;
        let ghost v = image@;
        push_request(&mut self.requests, EngineRequest::InspectImage(image));
        assert(self@.requests =~= before + seq![EngineRequestView::InspectImage(v)]);
    }

    /// `port_conflict_hint`: warns when a requested host port is already published.
    pub fn port_conflict_hint(&self) -> (res: Option<String>)
        ensures
            res.deep_view() == port_conflict_spec(self@),
    {
        broadcast use vstd::seq::Seq::lemma_filter_push;

        let requested = parse_requested_host_ports(self.run_ports.as_str());
        if requested.len() == 0 {
            return None;
        }
        let ghost req = requested.deep_view();
        let ghost cv = self@.containers;
        let mut conflicts: Vec<String> = Vec::new();
        let mut i: usize = 0;
        assert(cv.take(0) =~= Seq::<ContainerInfoView>::empty());
        assert(conflicts.deep_view() =~= conflicts_of(cv.take(0), req));
        while i < self.containers.len()
            invariant
                i <= self.containers.len(),
                cv == self@.containers,
                req == requested.deep_view(),
                conflicts.deep_view() == conflicts_of(cv.take(i as int), req),
            decreases self.containers.len() - i,
        {
            let c = &self.containers[i];
            assert(cv.take(i + 1).drop_last() =~= cv.take(i as int));
            assert(cv.take(i + 1).last() == c@);
            let ports = used_host_ports(c.ports.as_str());
            let ghost pv = ports.deep_view();
            let ghost pred = |p: Seq<char>| req.contains(p);
            let ghost f = |p: Seq<char>| p + " ("@ + c@.name + ")"@;
            let ghost base = conflicts.deep_view();
            let mut j: usize = 0;
            reveal_with_fuel(Seq::filter, 1);
            assert(pv.take(0).filter(pred) =~= Seq::<Seq<char>>::empty());
            assert(conflicts.deep_view() =~= base + pv.take(0).filter(pred).map_values(f));
            while j < ports.len()
                invariant
                    j <= ports.len(),
                    pv == ports.deep_view(),
                    req == requested.deep_view(),
                    pred == (|p: Seq<char>| req.contains(p)),
                    f == (|p: Seq<char>| p + " ("@ + c@.name + ")"@),
                    conflicts.deep_view() =~= base + pv.take(j as int).filter(pred).map_values(f),
                decreases ports.len() - j,
            {
                assert(pv.take(j + 1) =~= pv.take(j as int).push(pv[j as int]));
                proof {
                    pv.take(j as int).lemma_filter_push(pv[j as int], pred);
                }
                if contains_text(&requested, ports[j].as_str()) {
                    let mut item = text(ports[j].as_str(), " (");
                    item.append(c.name.as_str());
                    item.append(")");
                    let ghost before = conflicts.deep_view();
                    conflicts.push(item);
                    assert(conflicts.deep_view() =~= before.push(f(pv[j as int])));
                    assert(pv.take(j as int).filter(pred).push(pv[j as int]).map_values(f) =~= pv.take(j as int).filter(pred).map_values(f).push(f(pv[j as int])));
                }
                j = j + 1;
            }
            assert(pv.take(ports.len() as int) =~= pv);
            i = i + 1;
        }
        assert(cv.take(self.containers.len() as int) =~= cv);
        if conflicts.len() == 0 {
            return None;
        }
        let list = join_strings(&conflicts, ", ");
        let mut msg = text("Port conflict warning: ", list.as_str());
        msg.append(" already in use.");
        Some(msg)
    }
}


/// The desktop as it starts.
pub open spec fn initial_spec() -> DesktopView {
    DesktopView {
        engine_status: EngineStatusInfoView {
            summary: "Starting native OCI engine..."@,
            detail: "Creating the local image store and builder runtime."@,
            store_path: Seq::empty(),
        },
        engine_ready: false,
        runtime_status: RuntimeStatusInfoView {
            summary: "Checking runtime bridge..."@,
            detail: "Container execution uses Docker Desktop for now."@,
            native_ready: false,
            bridge_ready: false,
        },
        runtime_ready: false,
        workspace_tab: WorkspaceTab::Home,
        page_history: Seq::empty(),
        running_task: None,
        toast: None,
        pull_image_name: "nginx:latest"@,
        build_context: Seq::empty(),
        build_tag: "docker-rs:dev"@,
        dockerfile_path: Seq::empty(),
        run_image_name: Seq::empty(),
        run_container_name: Seq::empty(),
        run_ports: Seq::empty(),
        run_env: Seq::empty(),
        run_volumes: Seq::empty(),
        run_command: Seq::empty(),
        run_restart_policy: Seq::empty(),
        run_auto_remove: false,
        run_ports_auto: true,
        exec_command_input: "uname -a"@,
        logs: seq!["Docker RS Desktop native engine started."@],
        images: Seq::empty(),
        projects: Seq::empty(),
        containers: Seq::empty(),
        image_filter: Seq::empty(),
        project_filter: Seq::empty(),
        container_filter: Seq::empty(),
        compose_target: Seq::empty(),
        compose_project_name: Seq::empty(),
        live_log_stream_container: None,
        live_log_active: false,
        selected_project_name: None,
        selected_image_ref: None,
        selected_image_details: None,
        selected_container_id: None,
        selected_container_details: None,
        selected_container_stats: None,
        requests: seq![
            EngineRequestView::CheckEngineStatus,
            EngineRequestView::CheckRuntimeStatus,
            EngineRequestView::RefreshImages,
            EngineRequestView::RefreshProjects,
            EngineRequestView::RefreshContainers,
        ],
    }
}

/// The requests for the selected image and container, refreshed after an action.
pub open spec fn selection_requests(s: DesktopView) -> Seq<EngineRequestView> {
    let a = match s.selected_image_ref {
        Some(r) => seq![EngineRequestView::InspectImage(r)],
        None => Seq::empty(),
    };
    let b = match s.selected_container_id {
        Some(id) => seq![EngineRequestView::InspectContainer(id), EngineRequestView::InspectContainerStats(id)],
        None => Seq::empty(),
    };
    a + b
}

/// The state after an action finished with `message`.
pub open spec fn finished_spec(s: DesktopView, message: Seq<char>, kind: ToastKind) -> DesktopView {
    DesktopView {
        running_task: None,
        toast: Some(ToastMessageView { message, kind }),
        logs: s.logs.push(message),
        requests: s.requests + seq![
            EngineRequestView::RefreshImages,
            EngineRequestView::RefreshProjects,
            EngineRequestView::RefreshContainers,
            EngineRequestView::CheckRuntimeStatus,
        ] + selection_requests(s),
        ..s
    }
}

pub open spec fn image_name(i: DockerImageInfoView) -> Seq<char> {
    i.repository + seq![':'] + i.tag
}

/// The state after an event from the engine (`poll_events`, one event).
pub open spec fn event_spec(s: DesktopView, event: WorkerEvent) -> DesktopView {
    match event {
        WorkerEvent::EngineStatus(Ok(info)) => DesktopView { engine_ready: true, engine_status: info@, ..s },
        WorkerEvent::EngineStatus(Err(m)) => DesktopView {
            engine_ready: false,
            logs: s.logs.push("Engine startup failed: "@ + m@),
            engine_status: EngineStatusInfoView {
                summary: "Native engine unavailable"@,
                detail: m@,
                ..s.engine_status
            },
            ..s
        },
        WorkerEvent::ImageList(Ok(images)) => {
            let iv = images@.map_values(|x: DockerImageInfo| x@);
            let keep = match s.selected_image_ref {
                Some(r) => exists|i: int| 0 <= i < iv.len() && image_name(#[trigger] iv[i]) == r,
                None => true,
            };
            if keep {
                DesktopView { images: iv, ..s }
            } else {
                DesktopView { images: iv, selected_image_ref: None, selected_image_details: None, ..s }
            }
        },
        WorkerEvent::ImageList(Err(m)) => DesktopView { logs: s.logs.push("Image refresh failed: "@ + m@), ..s },
        WorkerEvent::ProjectList(Ok(projects)) => {
            let pv = projects@.map_values(|x: ProjectInfo| x@);
            let keep = match s.selected_project_name {
                Some(n) => exists|i: int| 0 <= i < pv.len() && (#[trigger] pv[i]).name == n,
                None => true,
            };
            if keep {
                DesktopView { projects: pv, ..s }
            } else {
                DesktopView { projects: pv, selected_project_name: None, ..s }
            }
        },
        WorkerEvent::ProjectList(Err(m)) => DesktopView { logs: s.logs.push("Project refresh failed: "@ + m@), ..s },
        WorkerEvent::ImageDetails(Ok(d)) => DesktopView {
            selected_image_ref: Some(d@.reference),
            selected_image_details: Some(d@),
            ..s
        },
        WorkerEvent::ImageDetails(Err(m)) => DesktopView { logs: s.logs.push("Image inspect failed: "@ + m@), ..s },
        WorkerEvent::RuntimeStatus(Ok(info)) => DesktopView {
            runtime_ready: info.native_ready || info.bridge_ready,
            runtime_status: info@,
            ..s
        },
        WorkerEvent::RuntimeStatus(Err(m)) => DesktopView {
            runtime_ready: false,
            runtime_status: RuntimeStatusInfoView {
                summary: "Runtime unavailable"@,
                detail: m@,
                native_ready: false,
                bridge_ready: false,
            },
            ..s
        },
        WorkerEvent::ContainerList(Ok(containers)) => {
            let cv = containers@.map_values(|x: ContainerInfo| x@);
            let keep = match s.selected_container_id {
                Some(id) => exists|i: int| 0 <= i < cv.len() && (#[trigger] cv[i]).id == id,
                None => true,
            };
            if keep {
                DesktopView { containers: cv, ..s }
            } else {
                DesktopView {
                    containers: cv,
                    selected_container_id: None,
                    selected_container_details: None,
                    selected_container_stats: None,
                    ..s
                }
            }
        },
        WorkerEvent::ContainerList(Err(m)) => DesktopView { logs: s.logs.push("Container refresh failed: "@ + m@), ..s },
        WorkerEvent::ContainerDetails(Ok(d)) => DesktopView {
            selected_container_id: Some(d@.id),
            selected_container_details: Some(d@),
            ..s
        },
        WorkerEvent::ContainerDetails(Err(m)) => DesktopView { logs: s.logs.push("Container inspect failed: "@ + m@), ..s },
        WorkerEvent::ContainerStats(Ok(stats)) => DesktopView { selected_container_stats: Some(stats@), ..s },
        WorkerEvent::ContainerStats(Err(m)) => DesktopView { logs: s.logs.push("Container stats failed: "@ + m@), ..s },
        WorkerEvent::LogLine(line) => DesktopView { logs: s.logs.push(line@), ..s },
        WorkerEvent::ActionFinished(Ok(m)) => finished_spec(s, m@, ToastKind::Success),
        WorkerEvent::ActionFinished(Err(m)) => finished_spec(s, m@, ToastKind::Error),
    }
}

/// The state after a run of events, taken in order.
pub open spec fn events_spec(s: DesktopView, events: Seq<WorkerEvent>) -> DesktopView
    decreases events.len(),
{
    if events.len() == 0 {
        s
    } else {
        event_spec(events_spec(s, events.drop_last()), events.last())
    }
}

/// Taking in events in two batches is the same as taking them in at once.
pub proof fn law_events_in_batches(s: DesktopView, first: Seq<WorkerEvent>, second: Seq<WorkerEvent>)
    ensures
        events_spec(events_spec(s, first), second) == events_spec(s, first + second),
    decreases second.len(),
{
    if second.len() == 0 {
        assert(first + second =~= first);
    } else {
        law_events_in_batches(s, first, second.drop_last());
        assert((first + second).drop_last() =~= first + second.drop_last());
        assert((first + second).last() == second.last());
    }
}

/// The keys pressed in one frame, as the shortcuts read them.
#[derive(Debug)]
pub struct ShortcutKeys {
    pub go_home: bool,
    pub go_projects: bool,
    pub go_containers: bool,
    pub go_images: bool,
    pub go_build: bool,
    pub go_logs: bool,
    pub go_back: bool,
    pub refresh: bool,
}

/// What the shortcuts do to the page (before a refresh).
pub open spec fn shortcut_pages_spec(s: DesktopView, k: ShortcutKeys) -> DesktopView {
    let s1 = if k.go_back && s.page_history.len() > 0 { back_spec(s) } else { s };
    let s2 = if k.go_home { navigate_spec(s1, WorkspaceTab::Home) } else { s1 };
    let s3 = if k.go_projects { navigate_spec(s2, WorkspaceTab::Projects) } else { s2 };
    let s4 = if k.go_containers { navigate_spec(s3, WorkspaceTab::Containers) } else { s3 };
    let s5 = if k.go_images { navigate_spec(s4, WorkspaceTab::Images) } else { s4 };
    let s6 = if k.go_build { navigate_spec(s5, WorkspaceTab::Build) } else { s5 };
    if k.go_logs { navigate_spec(s6, WorkspaceTab::Logs) } else { s6 }
}

/// The outcome of opening a URL in the browser.
#[derive(Debug)]
pub enum OpenOutcome {
    /// The opener reported success.
    Opened,
    /// The opener failed; its standard error output.
    Failed(String),
    /// The opener could not be started; the error's text.
    LaunchError(String),
}

/// The message shown when opening a URL.
pub open spec fn open_message(url: Seq<char>, outcome: OpenOutcome) -> Seq<char> {
    match outcome {
        OpenOutcome::Opened => "Opened "@ + url,
        OpenOutcome::Failed(stderr) => if trim(stderr@).len() == 0 {
            "Failed to open "@ + url
        } else {
            "Failed to open "@ + url + ": "@ + trim(stderr@)
        },
        OpenOutcome::LaunchError(err) => "Failed to open "@ + url + ": "@ + err@,
    }
}

impl DockerDesktopApp {
    /// A desktop with empty lists and the start-up work asked for.
    pub fn new() -> (res: Self)
        ensures
            res@ == initial_spec(),
    {
        let mut logs: Vec<String> = Vec::new();
        push_log(&mut logs, String::from_str("Docker RS Desktop native engine started."));
        let mut requests: Vec<EngineRequest> = Vec::new();
        push_request(&mut requests, EngineRequest::CheckEngineStatus);
        push_request(&mut requests, EngineRequest::CheckRuntimeStatus);
        push_request(&mut requests, EngineRequest::RefreshImages);
        push_request(&mut requests, EngineRequest::RefreshProjects);
        push_request(&mut requests, EngineRequest::RefreshContainers);
        let res = DockerDesktopApp {
            engine_status: EngineStatusInfo {
                summary: String::from_str("Starting native OCI engine..."),
                detail: String::from_str("Creating the local image store and builder runtime."),
                store_path: String::new(),
            },
            engine_ready: false,
            runtime_status: RuntimeStatusInfo {
                summary: String::from_str("Checking runtime bridge..."),
                detail: String::from_str("Container execution uses Docker Desktop for now."),
                native_ready: false,
                bridge_ready: false,
            },
            runtime_ready: false,
            workspace_tab: WorkspaceTab::Home,
            page_history: Vec::new(),
            running_task: None,
            toast: None,
            pull_image_name: String::from_str("nginx:latest"),
            build_context: String::new(),
            build_tag: String::from_str("docker-rs:dev"),
            dockerfile_path: String::new(),
            run_image_name: String::new(),
            run_container_name: String::new(),
            run_ports: String::new(),
            run_env: String::new(),
            run_volumes: String::new(),
            run_command: String::new(),
            run_restart_policy: String::new(),
            run_auto_remove: false,
            run_ports_auto: true,
            exec_command_input: String::from_str("uname -a"),
            logs,
            images: Vec::new(),
            projects: Vec::new(),
            containers: Vec::new(),
            image_filter: String::new(),
            project_filter: String::new(),
            container_filter: String::new(),
            compose_target: String::new(),
            compose_project_name: String::new(),
            live_log_stream_container: None,
            live_log_active: false,
            selected_project_name: None,
            selected_image_ref: None,
            selected_image_details: None,
            selected_container_id: None,
            selected_container_details: None,
            selected_container_stats: None,
            requests,
        };
        assert(res@.requests =~= initial_spec().requests);
        assert(res@.logs =~= initial_spec().logs);
        assert(res@ =~= initial_spec());
        res
    }

    fn finish_action(&mut self, message: String, kind: ToastKind)
        ensures
            final(self)@ == finished_spec(old(self)@, message@, kind),
    {
        self.running_task = None;
        self.show_toast(message.clone(), kind);
        push_log(&mut self.logs, message);
        self.refresh_images();
        self.refresh_projects();
        push_request(&mut self.requests, EngineRequest::RefreshContainers);
        push_request(&mut self.requests, EngineRequest::CheckRuntimeStatus);
        let ghost mid = self@.requests;
        self.refresh_selected_image_details();
        self.refresh_selected_container_details();
        self.refresh_selected_container_stats();
        assert(self@.requests =~= old(self)@.requests + seq![
            EngineRequestView::RefreshImages,
            EngineRequestView::RefreshProjects,
            EngineRequestView::RefreshContainers,
            EngineRequestView::CheckRuntimeStatus,
        ] + selection_requests(old(self)@));
    }

    /// Takes in one event from the engine (the body of `poll_events`).
    pub fn handle_event(&mut self, event: WorkerEvent)
        ensures
            final(self)@ == event_spec(old(self)@, event),
    {
        let ghost ev = event;
        match event {
            WorkerEvent::EngineStatus(Ok(info)) => {
                self.engine_ready = true;
                self.engine_status = info;
            },
            WorkerEvent::EngineStatus(Err(message)) => {
                self.engine_ready = false;
                push_log(&mut self.logs, text("Engine startup failed: ", message.as_str()));
                self.engine_status.summary = String::from_str("Native engine unavailable");
                self.engine_status.detail = message;
            },
            WorkerEvent::ImageList(Ok(images)) => {
                let ghost iv = images@.map_values(|x: DockerImageInfo| x@);
                let keep = match &self.selected_image_ref {
                    Some(r) => {
                        let mut found = false;
                        let mut i: usize = 0;
                        while i < images.len()
                            invariant
                                i <= images.len(),
                                iv == images@.map_values(|x: DockerImageInfo| x@),
                                !found ==> forall|j: int| 0 <= j < i ==> image_name(#[trigger] iv[j]) != r@,
                                found ==> exists|j: int| 0 <= j < iv.len() && image_name(#[trigger] iv[j]) == r@,
                            decreases images.len() - i,
                        {
                            proof {
                                reveal_strlit(":");
                            }
                            let mut name = text(images[i].repository.as_str(), ":");
                            name.append(images[i].tag.as_str());
                            proof {
                                assert(iv[i as int] == images@[i as int]@);
                                assert(name@ =~= image_name(iv[i as int]));
                            }
                            let same = str_eq(name.as_str(), r.as_str());
                            if same {
                                found = true;
                            }
                            i = i + 1;
                        }
                        found
                    },
                    None => true,
                };
                if !keep {
                    self.selected_image_ref = None;
                    self.selected_image_details = None;
                }
                self.images = images;
            },
            WorkerEvent::ImageList(Err(message)) => {
                push_log(&mut self.logs, text("Image refresh failed: ", message.as_str()));
            },
            WorkerEvent::ProjectList(Ok(projects)) => {
                let ghost pv = projects@.map_values(|x: ProjectInfo| x@);
                let keep = match &self.selected_project_name {
                    Some(n) => {
                        let mut found = false;
                        let mut i: usize = 0;
                        while i < projects.len()
                            invariant
                                i <= projects.len(),
                                pv == projects@.map_values(|x: ProjectInfo| x@),
                                !found ==> forall|j: int| 0 <= j < i ==> (#[trigger] pv[j]).name != n@,
                                found ==> exists|j: int| 0 <= j < pv.len() && (#[trigger] pv[j]).name == n@,
                            decreases projects.len() - i,
                        {
                            if str_eq(projects[i].name.as_str(), n.as_str()) {
                                assert(pv[i as int].name == n@);
                                found = true;
                            }
                            i = i + 1;
                        }
                        found
                    },
                    None => true,
                };
                if !keep {
                    self.selected_project_name = None;
                }
                self.projects = projects;
            },
            WorkerEvent::ProjectList(Err(message)) => {
                push_log(&mut self.logs, text("Project refresh failed: ", message.as_str()));
            },
            WorkerEvent::ImageDetails(Ok(details)) => {
                self.selected_image_ref = Some(details.reference.clone());
                self.selected_image_details = Some(details);
            },
            WorkerEvent::ImageDetails(Err(message)) => {
                push_log(&mut self.logs, text("Image inspect failed: ", message.as_str()));
            },
            WorkerEvent::RuntimeStatus(Ok(info)) => {
                self.runtime_ready = info.native_ready || info.bridge_ready;
                self.runtime_status = info;
            },
            WorkerEvent::RuntimeStatus(Err(message)) => {
                self.runtime_ready = false;
                self.runtime_status.summary = String::from_str("Runtime unavailable");
                self.runtime_status.detail = message;
                self.runtime_status.native_ready = false;
                self.runtime_status.bridge_ready = false;
            },
            WorkerEvent::ContainerList(Ok(containers)) => {
                let ghost cv = containers@.map_values(|x: ContainerInfo| x@);
                let keep = match &self.selected_container_id {
                    Some(id) => {
                        let mut found = false;
                        let mut i: usize = 0;
                        while i < containers.len()
                            invariant
                                i <= containers.len(),
                                cv == containers@.map_values(|x: ContainerInfo| x@),
                                !found ==> forall|j: int| 0 <= j < i ==> (#[trigger] cv[j]).id != id@,
                                found ==> exists|j: int| 0 <= j < cv.len() && (#[trigger] cv[j]).id == id@,
                            decreases containers.len() - i,
                        {
                            if str_eq(containers[i].id.as_str(), id.as_str()) {
                                assert(cv[i as int].id == id@);
                                found = true;
                            }
                            i = i + 1;
                        }
                        found
                    },
                    None => true,
                };
                if !keep {
                    self.selected_container_id = None;
                    self.selected_container_details = None;
                    self.selected_container_stats = None;
                }
                self.containers = containers;
            },
            WorkerEvent::ContainerList(Err(message)) => {
                push_log(&mut self.logs, text("Container refresh failed: ", message.as_str()));
            },
            WorkerEvent::ContainerDetails(Ok(details)) => {
                self.selected_container_id = Some(details.id.clone());
                self.selected_container_details = Some(details);
            },
            WorkerEvent::ContainerDetails(Err(message)) => {
                push_log(&mut self.logs, text("Container inspect failed: ", message.as_str()));
            },
            WorkerEvent::ContainerStats(Ok(stats)) => {
                self.selected_container_stats = Some(stats);
            },
            WorkerEvent::ContainerStats(Err(message)) => {
                push_log(&mut self.logs, text("Container stats failed: ", message.as_str()));
            },
            WorkerEvent::LogLine(line) => {
                push_log(&mut self.logs, line);
            },
            WorkerEvent::ActionFinished(Ok(message)) => {
                self.finish_action(message, ToastKind::Success);
            },
            WorkerEvent::ActionFinished(Err(message)) => {
                self.finish_action(message, ToastKind::Error);
            },
        }
    }

    fn apply_shortcut_pages(&mut self, keys: &ShortcutKeys)
        ensures
            final(self)@ == shortcut_pages_spec(old(self)@, *keys),
    {
        let ghost k = *keys;
        let ghost s0 = self@;
        if keys.go_back && self.page_history.len() > 0 {
            self.navigate_back();
        }
        let ghost s1 = self@;
        assert(s1 == (if k.go_back && s0.page_history.len() > 0 { back_spec(s0) } else { s0 }));
        if keys.go_home {
            self.navigate_to(WorkspaceTab::Home);
        }
        if keys.go_projects {
            self.navigate_to(WorkspaceTab::Projects);
        }
        if keys.go_containers {
            self.navigate_to(WorkspaceTab::Containers);
        }
        if keys.go_images {
            self.navigate_to(WorkspaceTab::Images);
        }
        if keys.go_build {
            self.navigate_to(WorkspaceTab::Build);
        }
        if keys.go_logs {
            self.navigate_to(WorkspaceTab::Logs);
        }
    }

    /// Takes in the events that arrived since the last frame, in order.
    pub fn poll_events(&mut self, events: Vec<WorkerEvent>)
        ensures
            final(self)@ == events_spec(old(self)@, events@),
    {
        let ghost all = events@;
        let n = events.len();
        let mut rest = events;
        let mut i: usize = 0;
        assert(all.take(0) =~= Seq::<WorkerEvent>::empty());
        while rest.len() > 0
            invariant
                i <= all.len(),
                all.len() == n,
                i + rest.len() == all.len(),
                rest@ == all.skip(i as int),
                self@ == events_spec(old(self)@, all.take(i as int)),
            decreases rest.len(),
        {
            let ev = rest.remove(0);
            assert(all.take(i + 1).drop_last() =~= all.take(i as int));
            assert(all.take(i + 1).last() == ev);
            self.handle_event(ev);
            assert(rest@ =~= all.skip(i + 1));
            i = i + 1;
        }
        assert(all.take(i as int) =~= all);
    }

    /// The page changes of `handle_shortcuts` and its refresh.
    pub fn apply_shortcuts(&mut self, keys: &ShortcutKeys)
        ensures
            ({
                let s = shortcut_pages_spec(old(self)@, *keys);
                keys.refresh ==> final(self)@ == toast_spec(
                    refresh_page_spec(s),
                    "Refreshed "@ + workspace_title_spec(s.workspace_tab) + "."@,
                    ToastKind::Info,
                )
            }),
            !keys.refresh ==> final(self)@ == shortcut_pages_spec(old(self)@, *keys),
    {
        self.apply_shortcut_pages(keys);
        if keys.refresh {
            self.refresh_current_page();
            let title = workspace_title(self.workspace_tab);
            let mut m = text("Refreshed ", title.as_str());
            m.append(".");
            self.show_toast(m, ToastKind::Info);
        }
    }

    /// `open_url_action`, after the opener ran: reports the outcome.
    pub fn open_url_action(&mut self, url: &str, outcome: OpenOutcome)
        ensures
            ({
                let m = open_message(url@, outcome);
                final(self)@ == DesktopView {
                    toast: Some(ToastMessageView {
                        message: m,
                        kind: match outcome {
                            OpenOutcome::Opened => ToastKind::Info,
                            _ => ToastKind::Error,
                        },
                    }),
                    logs: old(self)@.logs.push(m),
                    ..old(self)@
                }
            }),
    {
        let ghost o = outcome;
        let (message, kind) = match outcome {
            OpenOutcome::Opened => (text("Opened ", url), ToastKind::Info),
            OpenOutcome::Failed(stderr) => {
                let t = trim_str(stderr.as_str());
                if t.as_str().is_empty() {
                    (text("Failed to open ", url), ToastKind::Error)
                } else {
                    let mut m = text("Failed to open ", url);
                    m.append(": ");
                    m.append(t.as_str());
                    (m, ToastKind::Error)
                }
            },
            OpenOutcome::LaunchError(err) => {
                let mut m = text("Failed to open ", url);
                m.append(": ");
                m.append(err.as_str());
                (m, ToastKind::Error)
            },
        };
        self.show_toast(message.clone(), kind);
        push_log(&mut self.logs, message);
    }
}

} // verus!
