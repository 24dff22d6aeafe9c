//! The data the engine and the desktop exchange.
use vstd::prelude::*;
use crate::text::{clone_strings, clone_pairs, clone_opt_string, clone_opt_strings, clone_opt_pairs};
verus! {
/// A row of the local image list.
#[derive(Debug)]
pub struct DockerImageInfo {
    pub repository: String,
    pub tag: String,
    pub image_id: String,
    pub size: String,
    pub source: String,
}

/// The abstract value of a [`DockerImageInfo`].
pub struct DockerImageInfoView {
    pub repository: Seq<char>,
    pub tag: Seq<char>,
    pub image_id: Seq<char>,
    pub size: Seq<char>,
    pub source: Seq<char>,
}

impl View for DockerImageInfo {
    type V = DockerImageInfoView;

    open spec fn view(&self) -> DockerImageInfoView {
        DockerImageInfoView {
            repository: self.repository@,
            tag: self.tag@,
            image_id: self.image_id@,
            size: self.size@,
            source: self.source@,
        }
    }
}

impl Clone for DockerImageInfo {
    fn clone(&self) -> (res: Self)
        ensures
            res@ == self@,
    {
        DockerImageInfo {
            repository: self.repository.clone(),
            tag: self.tag.clone(),
            image_id: self.image_id.clone(),
            size: self.size.clone(),
            source: self.source.clone(),
        }
    }
}

/// Health of the native image store.
#[derive(Debug)]
pub struct EngineStatusInfo {
    pub summary: String,
    pub detail: String,
    pub store_path: String,
}

/// The abstract value of a [`EngineStatusInfo`].
pub struct EngineStatusInfoView {
    pub summary: Seq<char>,
    pub detail: Seq<char>,
    pub store_path: Seq<char>,
}

impl View for EngineStatusInfo {
    type V = EngineStatusInfoView;

    open spec fn view(&self) -> EngineStatusInfoView {
        EngineStatusInfoView {
            summary: self.summary@,
            detail: self.detail@,
            store_path: self.store_path@,
        }
    }
}

impl Clone for EngineStatusInfo {
    fn clone(&self) -> (res: Self)
        ensures
            res@ == self@,
    {
        EngineStatusInfo {
            summary: self.summary.clone(),
            detail: self.detail.clone(),
            store_path: self.store_path.clone(),
        }
    }
}

/// Health of the container runtimes.
#[derive(Debug)]
pub struct RuntimeStatusInfo {
    pub summary: String,
    pub detail: String,
    pub native_ready: bool,
    pub bridge_ready: bool,
}

/// The abstract value of a [`RuntimeStatusInfo`].
pub struct RuntimeStatusInfoView {
    pub summary: Seq<char>,
    pub detail: Seq<char>,
    pub native_ready: bool,
    pub bridge_ready: bool,
}

impl View for RuntimeStatusInfo {
    type V = RuntimeStatusInfoView;

    open spec fn view(&self) -> RuntimeStatusInfoView {
        RuntimeStatusInfoView {
            summary: self.summary@,
            detail: self.detail@,
            native_ready: self.native_ready,
            bridge_ready: self.bridge_ready,
        }
    }
}

impl Clone for RuntimeStatusInfo {
    fn clone(&self) -> (res: Self)
        ensures
            res@ == self@,
    {
        RuntimeStatusInfo {
            summary: self.summary.clone(),
            detail: self.detail.clone(),
            native_ready: self.native_ready,
            bridge_ready: self.bridge_ready,
        }
    }
}

/// A row of the container list.
#[derive(Debug)]
pub struct ContainerInfo {
    pub id: String,
    pub name: String,
    pub image: String,
    pub state: String,
    pub status: String,
    pub ports: String,
    pub runtime: String,
}

/// The abstract value of a [`ContainerInfo`].
pub struct ContainerInfoView {
    pub id: Seq<char>,
    pub name: Seq<char>,
    pub image: Seq<char>,
    pub state: Seq<char>,
    pub status: Seq<char>,
    pub ports: Seq<char>,
    pub runtime: Seq<char>,
}

impl View for ContainerInfo {
    type V = ContainerInfoView;

    open spec fn view(&self) -> ContainerInfoView {
        ContainerInfoView {
            id: self.id@,
            name: self.name@,
            image: self.image@,
            state: self.state@,
            status: self.status@,
            ports: self.ports@,
            runtime: self.runtime@,
        }
    }
}

impl Clone for ContainerInfo {
    fn clone(&self) -> (res: Self)
        ensures
            res@ == self@,
    {
        ContainerInfo {
            id: self.id.clone(),
            name: self.name.clone(),
            image: self.image.clone(),
            state: self.state.clone(),
            status: self.status.clone(),
            ports: self.ports.clone(),
            runtime: self.runtime.clone(),
        }
    }
}

/// The inspected details of one container.
#[derive(Debug)]
pub struct ContainerDetailsInfo {
    pub id: String,
    pub name: String,
    pub image: String,
    pub command: String,
    pub entrypoint: String,
    pub created: String,
    pub status: String,
    pub ports: String,
    pub ip_address: String,
    pub working_dir: String,
    pub user: String,
    pub restart_policy: String,
    pub runtime: String,
    pub env: Vec<String>,
    pub labels: Vec<(String, String)>,
}

/// The abstract value of a [`ContainerDetailsInfo`].
pub struct ContainerDetailsInfoView {
    pub id: Seq<char>,
    pub name: Seq<char>,
    pub image: Seq<char>,
    pub command: Seq<char>,
    pub entrypoint: Seq<char>,
    pub created: Seq<char>,
    pub status: Seq<char>,
    pub ports: Seq<char>,
    pub ip_address: Seq<char>,
    pub working_dir: Seq<char>,
    pub user: Seq<char>,
    pub restart_policy: Seq<char>,
    pub runtime: Seq<char>,
    pub env: Seq<Seq<char>>,
    pub labels: Seq<(Seq<char>, Seq<char>)>,
}

impl View for ContainerDetailsInfo {
    type V = ContainerDetailsInfoView;

    open spec fn view(&self) -> ContainerDetailsInfoView {
        ContainerDetailsInfoView {
            id: self.id@,
            name: self.name@,
            image: self.image@,
            command: self.command@,
            entrypoint: self.entrypoint@,
            created: self.created@,
            status: self.status@,
            ports: self.ports@,
            ip_address: self.ip_address@,
            working_dir: self.working_dir@,
            user: self.user@,
            restart_policy: self.restart_policy@,
            runtime: self.runtime@,
            env: self.env.deep_view(),
            labels: self.labels.deep_view(),
        }
    }
}

impl Clone for ContainerDetailsInfo {
    fn clone(&self) -> (res: Self)
        ensures
            res@ == self@,
    {
        ContainerDetailsInfo {
            id: self.id.clone(),
            name: self.name.clone(),
            image: self.image.clone(),
            command: self.command.clone(),
            entrypoint: self.entrypoint.clone(),
            created: self.created.clone(),
            status: self.status.clone(),
            ports: self.ports.clone(),
            ip_address: self.ip_address.clone(),
            working_dir: self.working_dir.clone(),
            user: self.user.clone(),
            restart_policy: self.restart_policy.clone(),
            runtime: self.runtime.clone(),
            env: clone_strings(&self.env),
            labels: clone_pairs(&self.labels),
        }
    }
}

/// Resource usage of one container.
#[derive(Debug)]
pub struct ContainerStatsInfo {
    pub container_id: String,
    pub cpu_percent: String,
    pub memory_usage: String,
    pub memory_percent: String,
    pub net_io: String,
    pub block_io: String,
    pub pids: String,
}

/// The abstract value of a [`ContainerStatsInfo`].
pub struct ContainerStatsInfoView {
    pub container_id: Seq<char>,
    pub cpu_percent: Seq<char>,
    pub memory_usage: Seq<char>,
    pub memory_percent: Seq<char>,
    pub net_io: Seq<char>,
    pub block_io: Seq<char>,
    pub pids: Seq<char>,
}

impl View for ContainerStatsInfo {
    type V = ContainerStatsInfoView;

    open spec fn view(&self) -> ContainerStatsInfoView {
        ContainerStatsInfoView {
            container_id: self.container_id@,
            cpu_percent: self.cpu_percent@,
            memory_usage: self.memory_usage@,
            memory_percent: self.memory_percent@,
            net_io: self.net_io@,
            block_io: self.block_io@,
            pids: self.pids@,
        }
    }
}

impl Clone for ContainerStatsInfo {
    fn clone(&self) -> (res: Self)
        ensures
            res@ == self@,
    {
        ContainerStatsInfo {
            container_id: self.container_id.clone(),
            cpu_percent: self.cpu_percent.clone(),
            memory_usage: self.memory_usage.clone(),
            memory_percent: self.memory_percent.clone(),
            net_io: self.net_io.clone(),
            block_io: self.block_io.clone(),
            pids: self.pids.clone(),
        }
    }
}

/// The inspected details of one stored image.
#[derive(Debug)]
pub struct ImageDetailsInfo {
    pub reference: String,
    pub image_id: String,
    pub manifest_digest: String,
    pub config_digest: String,
    pub size: String,
    pub source: String,
    pub architecture: String,
    pub os: String,
    pub created: String,
    pub layer_count: usize,
    pub env: Vec<String>,
    pub labels: Vec<(String, String)>,
    pub exposed_ports: Vec<String>,
    pub user: String,
    pub working_dir: String,
    pub command: String,
    pub entrypoint: String,
}

/// The abstract value of a [`ImageDetailsInfo`].
pub struct ImageDetailsInfoView {
    pub reference: Seq<char>,
    pub image_id: Seq<char>,
    pub manifest_digest: Seq<char>,
    pub config_digest: Seq<char>,
    pub size: Seq<char>,
    pub source: Seq<char>,
    pub architecture: Seq<char>,
    pub os: Seq<char>,
    pub created: Seq<char>,
    pub layer_count: usize,
    pub env: Seq<Seq<char>>,
    pub labels: Seq<(Seq<char>, Seq<char>)>,
    pub exposed_ports: Seq<Seq<char>>,
    pub user: Seq<char>,
    pub working_dir: Seq<char>,
    pub command: Seq<char>,
    pub entrypoint: Seq<char>,
}

impl View for ImageDetailsInfo {
    type V = ImageDetailsInfoView;

    open spec fn view(&self) -> ImageDetailsInfoView {
        ImageDetailsInfoView {
            reference: self.reference@,
            image_id: self.image_id@,
            manifest_digest: self.manifest_digest@,
            config_digest: self.config_digest@,
            size: self.size@,
            source: self.source@,
            architecture: self.architecture@,
            os: self.os@,
            created: self.created@,
            layer_count: self.layer_count,
            env: self.env.deep_view(),
            labels: self.labels.deep_view(),
            exposed_ports: self.exposed_ports.deep_view(),
            user: self.user@,
            working_dir: self.working_dir@,
            command: self.command@,
            entrypoint: self.entrypoint@,
        }
    }
}

impl Clone for ImageDetailsInfo {
    fn clone(&self) -> (res: Self)
        ensures
            res@ == self@,
    {
        ImageDetailsInfo {
            reference: self.reference.clone(),
            image_id: self.image_id.clone(),
            manifest_digest: self.manifest_digest.clone(),
            config_digest: self.config_digest.clone(),
            size: self.size.clone(),
            source: self.source.clone(),
            architecture: self.architecture.clone(),
            os: self.os.clone(),
            created: self.created.clone(),
            layer_count: self.layer_count,
            env: clone_strings(&self.env),
            labels: clone_pairs(&self.labels),
            exposed_ports: clone_strings(&self.exposed_ports),
            user: self.user.clone(),
            working_dir: self.working_dir.clone(),
            command: self.command.clone(),
            entrypoint: self.entrypoint.clone(),
        }
    }
}

/// A compose project.
#[derive(Debug)]
pub struct ProjectInfo {
    pub name: String,
    pub status: String,
    pub config_files: String,
    pub working_dir: String,
}

/// The abstract value of a [`ProjectInfo`].
pub struct ProjectInfoView {
    pub name: Seq<char>,
    pub status: Seq<char>,
    pub config_files: Seq<char>,
    pub working_dir: Seq<char>,
}

impl View for ProjectInfo {
    type V = ProjectInfoView;

    open spec fn view(&self) -> ProjectInfoView {
        ProjectInfoView {
            name: self.name@,
            status: self.status@,
            config_files: self.config_files@,
            working_dir: self.working_dir@,
        }
    }
}

impl Clone for ProjectInfo {
    fn clone(&self) -> (res: Self)
        ensures
            res@ == self@,
    {
        ProjectInfo {
            name: self.name.clone(),
            status: self.status.clone(),
            config_files: self.config_files.clone(),
            working_dir: self.working_dir.clone(),
        }
    }
}

/// A named volume.
#[derive(Debug)]
pub struct VolumeInfo {
    pub name: String,
    pub driver: String,
    pub mountpoint: String,
    pub scope: String,
}

/// The abstract value of a [`VolumeInfo`].
pub struct VolumeInfoView {
    pub name: Seq<char>,
    pub driver: Seq<char>,
    pub mountpoint: Seq<char>,
    pub scope: Seq<char>,
}

impl View for VolumeInfo {
    type V = VolumeInfoView;

    open spec fn view(&self) -> VolumeInfoView {
        VolumeInfoView {
            name: self.name@,
            driver: self.driver@,
            mountpoint: self.mountpoint@,
            scope: self.scope@,
        }
    }
}

impl Clone for VolumeInfo {
    fn clone(&self) -> (res: Self)
        ensures
            res@ == self@,
    {
        VolumeInfo {
            name: self.name.clone(),
            driver: self.driver.clone(),
            mountpoint: self.mountpoint.clone(),
            scope: self.scope.clone(),
        }
    }
}

/// A container network.
#[derive(Debug)]
pub struct NetworkInfo {
    pub name: String,
    pub driver: String,
    pub subnet: String,
    pub gateway: String,
    pub scope: String,
}

/// The abstract value of a [`NetworkInfo`].
pub struct NetworkInfoView {
    pub name: Seq<char>,
    pub driver: Seq<char>,
    pub subnet: Seq<char>,
    pub gateway: Seq<char>,
    pub scope: Seq<char>,
}

impl View for NetworkInfo {
    type V = NetworkInfoView;

    open spec fn view(&self) -> NetworkInfoView {
        NetworkInfoView {
            name: self.name@,
            driver: self.driver@,
            subnet: self.subnet@,
            gateway: self.gateway@,
            scope: self.scope@,
        }
    }
}

impl Clone for NetworkInfo {
    fn clone(&self) -> (res: Self)
        ensures
            res@ == self@,
    {
        NetworkInfo {
            name: self.name.clone(),
            driver: self.driver.clone(),
            subnet: self.subnet.clone(),
            gateway: self.gateway.clone(),
            scope: self.scope.clone(),
        }
    }
}

/// An image kept in the native store.
#[derive(Debug)]
pub struct StoredImageRecord {
    pub canonical_reference: String,
    pub repository: String,
    pub tag: String,
    pub manifest_digest: String,
    pub config_digest: String,
    pub size_bytes: u64,
    pub source: String,
    pub architecture: String,
    pub os: String,
    pub created_at_epoch: u64,
}

/// The abstract value of a [`StoredImageRecord`].
pub struct StoredImageRecordView {
    pub canonical_reference: Seq<char>,
    pub repository: Seq<char>,
    pub tag: Seq<char>,
    pub manifest_digest: Seq<char>,
    pub config_digest: Seq<char>,
    pub size_bytes: u64,
    pub source: Seq<char>,
    pub architecture: Seq<char>,
    pub os: Seq<char>,
    pub created_at_epoch: u64,
}

impl View for StoredImageRecord {
    type V = StoredImageRecordView;

    open spec fn view(&self) -> StoredImageRecordView {
        StoredImageRecordView {
            canonical_reference: self.canonical_reference@,
            repository: self.repository@,
            tag: self.tag@,
            manifest_digest: self.manifest_digest@,
            config_digest: self.config_digest@,
            size_bytes: self.size_bytes,
            source: self.source@,
            architecture: self.architecture@,
            os: self.os@,
            created_at_epoch: self.created_at_epoch,
        }
    }
}

impl Clone for StoredImageRecord {
    fn clone(&self) -> (res: Self)
        ensures
            res@ == self@,
    {
        StoredImageRecord {
            canonical_reference: self.canonical_reference.clone(),
            repository: self.repository.clone(),
            tag: self.tag.clone(),
            manifest_digest: self.manifest_digest.clone(),
            config_digest: self.config_digest.clone(),
            size_bytes: self.size_bytes,
            source: self.source.clone(),
            architecture: self.architecture.clone(),
            os: self.os.clone(),
            created_at_epoch: self.created_at_epoch,
        }
    }
}

/// The runtime part of an image configuration: what a container starts with.
#[derive(Debug)]
pub struct RuntimeConfig {
    pub env: Option<Vec<String>>,
    pub labels: Option<Vec<(String, String)>>,
    pub exposed_ports: Option<Vec<String>>,
    pub user: Option<String>,
    pub working_dir: Option<String>,
    pub cmd: Option<Vec<String>>,
    pub entrypoint: Option<Vec<String>>,
}

/// The abstract value of a [`RuntimeConfig`].
pub struct RuntimeConfigView {
    pub env: Option<Seq<Seq<char>>>,
    pub labels: Option<Seq<(Seq<char>, Seq<char>)>>,
    pub exposed_ports: Option<Seq<Seq<char>>>,
    pub user: Option<Seq<char>>,
    pub working_dir: Option<Seq<char>>,
    pub cmd: Option<Seq<Seq<char>>>,
    pub entrypoint: Option<Seq<Seq<char>>>,
}

impl View for RuntimeConfig {
    type V = RuntimeConfigView;

    open spec fn view(&self) -> RuntimeConfigView {
        RuntimeConfigView {
            env: self.env.deep_view(),
            labels: self.labels.deep_view(),
            exposed_ports: self.exposed_ports.deep_view(),
            user: self.user.deep_view(),
            working_dir: self.working_dir.deep_view(),
            cmd: self.cmd.deep_view(),
            entrypoint: self.entrypoint.deep_view(),
        }
    }
}

impl Clone for RuntimeConfig {
    fn clone(&self) -> (res: Self)
        ensures
            res@ == self@,
    {
        RuntimeConfig {
            env: clone_opt_strings(&self.env),
            labels: clone_opt_pairs(&self.labels),
            exposed_ports: clone_opt_strings(&self.exposed_ports),
            user: clone_opt_string(&self.user),
            working_dir: clone_opt_string(&self.working_dir),
            cmd: clone_opt_strings(&self.cmd),
            entrypoint: clone_opt_strings(&self.entrypoint),
        }
    }
}

/// A container run as a host process by the native runtime.
#[derive(Debug)]
pub struct NativeContainerRecord {
    pub id: String,
    pub name: String,
    pub image: String,
    pub state: String,
    pub status: String,
    pub ports: Vec<String>,
    pub env: Vec<String>,
    pub volumes: Vec<String>,
    pub command: String,
    pub entrypoint: String,
    pub working_dir: String,
    pub user: String,
    pub restart_policy: String,
    pub auto_remove: bool,
    pub pid: Option<u32>,
    pub created_at_epoch: u64,
    pub started_at_epoch: Option<u64>,
    pub finished_at_epoch: Option<u64>,
    pub last_exit_code: Option<i32>,
    pub log_path: String,
    pub exit_code_path: String,
}

/// The abstract value of a [`NativeContainerRecord`].
pub struct NativeContainerRecordView {
    pub id: Seq<char>,
    pub name: Seq<char>,
    pub image: Seq<char>,
    pub state: Seq<char>,
    pub status: Seq<char>,
    pub ports: Seq<Seq<char>>,
    pub env: Seq<Seq<char>>,
    pub volumes: Seq<Seq<char>>,
    pub command: Seq<char>,
    pub entrypoint: Seq<char>,
    pub working_dir: Seq<char>,
    pub user: Seq<char>,
    pub restart_policy: Seq<char>,
    pub auto_remove: bool,
    pub pid: Option<u32>,
    pub created_at_epoch: u64,
    pub started_at_epoch: Option<u64>,
    pub finished_at_epoch: Option<u64>,
    pub last_exit_code: Option<i32>,
    pub log_path: Seq<char>,
    pub exit_code_path: Seq<char>,
}

impl View for NativeContainerRecord {
    type V = NativeContainerRecordView;

    open spec fn view(&self) -> NativeContainerRecordView {
        NativeContainerRecordView {
            id: self.id@,
            name: self.name@,
            image: self.image@,
            state: self.state@,
            status: self.status@,
            ports: self.ports.deep_view(),
            env: self.env.deep_view(),
            volumes: self.volumes.deep_view(),
            command: self.command@,
            entrypoint: self.entrypoint@,
            working_dir: self.working_dir@,
            user: self.user@,
            restart_policy: self.restart_policy@,
            auto_remove: self.auto_remove,
            pid: self.pid,
            created_at_epoch: self.created_at_epoch,
            started_at_epoch: self.started_at_epoch,
            finished_at_epoch: self.finished_at_epoch,
            last_exit_code: self.last_exit_code,
            log_path: self.log_path@,
            exit_code_path: self.exit_code_path@,
        }
    }
}

impl Clone for NativeContainerRecord {
    fn clone(&self) -> (res: Self)
        ensures
            res@ == self@,
    {
        NativeContainerRecord {
            id: self.id.clone(),
            name: self.name.clone(),
            image: self.image.clone(),
            state: self.state.clone(),
            status: self.status.clone(),
            ports: clone_strings(&self.ports),
            env: clone_strings(&self.env),
            volumes: clone_strings(&self.volumes),
            command: self.command.clone(),
            entrypoint: self.entrypoint.clone(),
            working_dir: self.working_dir.clone(),
            user: self.user.clone(),
            restart_policy: self.restart_policy.clone(),
            auto_remove: self.auto_remove,
            pid: self.pid,
            created_at_epoch: self.created_at_epoch,
            started_at_epoch: self.started_at_epoch,
            finished_at_epoch: self.finished_at_epoch,
            last_exit_code: self.last_exit_code,
            log_path: self.log_path.clone(),
            exit_code_path: self.exit_code_path.clone(),
        }
    }
}

/// Results that background work reports to the desktop.
#[derive(Debug)]
pub enum WorkerEvent {
    EngineStatus(Result<EngineStatusInfo, String>),
    RuntimeStatus(Result<RuntimeStatusInfo, String>),
    ImageList(Result<Vec<DockerImageInfo>, String>),
    ProjectList(Result<Vec<ProjectInfo>, String>),
    ImageDetails(Result<ImageDetailsInfo, String>),
    ContainerList(Result<Vec<ContainerInfo>, String>),
    ContainerDetails(Result<ContainerDetailsInfo, String>),
    ContainerStats(Result<ContainerStatsInfo, String>),
    LogLine(String),
    ActionFinished(Result<String, String>),
}

} // verus!
