//! What background engine work reports when it ends: the messages of its
//! outcome, and the options it trims before it starts.

use vstd::prelude::*;
use crate::desktop::{RunRequest, RunRequestView};
use crate::model::{StoredImageRecord, StoredImageRecordView};
use crate::runtime::opt_trim_of;
use crate::store::{display_of, display_record};
use crate::text::{concat_str, trim, trim_str, trimmed_option};
use crate::ui::{shorten_container_id, shorten_id_spec};

verus! {

fn concat3(a: &str, b: &str, c: &str) -> (res: String)
    ensures
        res@ == a@ + b@ + c@,
{
    let ab = concat_str(a, b);
    concat_str(ab.as_str(), c)
}

/// `head + subject + mid + detail`, the shape of a failure message.
fn failure(head: &str, subject: &str, detail: &str) -> (res: String)
    ensures
        res@ == head@ + subject@ + "`: "@ + detail@,
{
    let a = concat3(head, subject, "`: ");
    concat_str(a.as_str(), detail)
}

/// An action on one container.
#[derive(PartialEq, Eq, Structural, Clone, Copy, Debug)]
pub enum ContainerAction {
    Start,
    Stop,
    Restart,
    Remove,
    FetchLogs,
    Exec,
}

/// The message of a finished container action.
pub open spec fn container_outcome_spec(
    action: ContainerAction,
    container_id: Seq<char>,
    result: Result<(), Seq<char>>,
) -> Result<Seq<char>, Seq<char>> {
    let short = shorten_id_spec(container_id);
    match result {
        Ok(()) => Ok(
            match action {
                ContainerAction::Start => "Started container "@ + short,
                ContainerAction::Stop => "Stopped container "@ + short,
                ContainerAction::Restart => "Restarted container "@ + short,
                ContainerAction::Remove => "Removed container "@ + short,
                ContainerAction::FetchLogs => "Fetched logs for container "@ + short + "."@,
                ContainerAction::Exec => "Executed command in container "@ + short + "."@,
            },
        ),
        Err(e) => Err(
            match action {
                ContainerAction::Start => "Start failed for `"@,
                ContainerAction::Stop => "Stop failed for `"@,
                ContainerAction::Restart => "Restart failed for `"@,
                ContainerAction::Remove => "Remove failed for `"@,
                ContainerAction::FetchLogs => "Log fetch failed for `"@,
                ContainerAction::Exec => "Exec failed for `"@,
            } + container_id + "`: "@ + e,
        ),
    }
}

pub open spec fn unit_result_view(r: Result<(), String>) -> Result<(), Seq<char>> {
    match r {
        Ok(()) => Ok(()),
        Err(e) => Err(e@),
    }
}

pub open spec fn result_view(r: Result<String, String>) -> Result<Seq<char>, Seq<char>> {
    match r {
        Ok(v) => Ok(v@),
        Err(e) => Err(e@),
    }
}

pub fn container_outcome(action: ContainerAction, container_id: &str, result: Result<(), String>) -> (res:
    Result<String, String>)
    ensures
        result_view(res) == container_outcome_spec(action, container_id@, unit_result_view(result)),
{
    match result {
        Ok(()) => {
            let short = shorten_container_id(container_id);
            Ok(
                match action {
                    ContainerAction::Start => concat_str("Started container ", short.as_str()),
                    ContainerAction::Stop => concat_str("Stopped container ", short.as_str()),
                    ContainerAction::Restart => concat_str("Restarted container ", short.as_str()),
                    ContainerAction::Remove => concat_str("Removed container ", short.as_str()),
                    ContainerAction::FetchLogs => concat3(
                        "Fetched logs for container ",
                        short.as_str(),
                        ".",
                    ),
                    ContainerAction::Exec => concat3(
                        "Executed command in container ",
                        short.as_str(),
                        ".",
                    ),
                },
            )
        },
        Err(e) => {
            let head = match action {
                ContainerAction::Start => "Start failed for `",
                ContainerAction::Stop => "Stop failed for `",
                ContainerAction::Restart => "Restart failed for `",
                ContainerAction::Remove => "Remove failed for `",
                ContainerAction::FetchLogs => "Log fetch failed for `",
                ContainerAction::Exec => "Exec failed for `",
            };
            Err(failure(head, container_id, e.as_str()))
        },
    }
}

pub open spec fn record_result_view(r: Result<StoredImageRecord, String>) -> Result<
    StoredImageRecordView,
    Seq<char>,
> {
    match r {
        Ok(v) => Ok(v@),
        Err(e) => Err(e@),
    }
}

/// The message of a finished pull of `image`.
pub open spec fn pull_outcome_spec(image: Seq<char>, result: Result<StoredImageRecordView, Seq<char>>) -> Result<
    Seq<char>,
    Seq<char>,
> {
    match result {
        Ok(r) => Ok("Pulled `"@ + display_of(r) + "` into the native OCI store."@),
        Err(e) => Err("Native pull failed for `"@ + image + "`: "@ + e),
    }
}

pub fn pull_outcome(image: &str, result: Result<StoredImageRecord, String>) -> (res: Result<
    String,
    String,
>)
    ensures
        result_view(res) == pull_outcome_spec(image@, record_result_view(result)),
{
    match result {
        Ok(r) => {
            let d = display_record(&r);
            Ok(concat3("Pulled `", d.as_str(), "` into the native OCI store."))
        },
        Err(e) => Err(failure("Native pull failed for `", image, e.as_str())),
    }
}

/// The message of a finished build tagged `tag`.
pub open spec fn build_outcome_spec(tag: Seq<char>, result: Result<StoredImageRecordView, Seq<char>>) -> Result<
    Seq<char>,
    Seq<char>,
> {
    match result {
        Ok(r) => Ok("Built `"@ + display_of(r) + "` with the native metadata-only builder."@),
        Err(e) => Err("Native build failed for `"@ + tag + "`: "@ + e),
    }
}

pub fn build_outcome(tag: &str, result: Result<StoredImageRecord, String>) -> (res: Result<
    String,
    String,
>)
    ensures
        result_view(res) == build_outcome_spec(tag@, record_result_view(result)),
{
    match result {
        Ok(r) => {
            let d = display_record(&r);
            Ok(concat3("Built `", d.as_str(), "` with the native metadata-only builder."))
        },
        Err(e) => Err(failure("Native build failed for `", tag, e.as_str())),
    }
}

/// The message of a finished removal of the image named `image` (trimmed).
pub open spec fn remove_image_outcome_spec(
    image: Seq<char>,
    result: Result<StoredImageRecordView, Seq<char>>,
) -> Result<Seq<char>, Seq<char>> {
    match result {
        Ok(r) => Ok("Removed native image `"@ + display_of(r) + "` from the local store."@),
        Err(e) => Err("Image delete failed for `"@ + image + "`: "@ + e),
    }
}

pub fn remove_image_outcome(image: &str, result: Result<StoredImageRecord, String>) -> (res: Result<
    String,
    String,
>)
    ensures
        result_view(res) == remove_image_outcome_spec(image@, record_result_view(result)),
{
    match result {
        Ok(r) => {
            let d = display_record(&r);
            Ok(concat3("Removed native image `", d.as_str(), "` from the local store."))
        },
        Err(e) => Err(failure("Image delete failed for `", image, e.as_str())),
    }
}

/// A Compose action.
#[derive(PartialEq, Eq, Structural, Clone, Copy, Debug)]
pub enum ComposeAction {
    Up,
    Down,
    Logs,
}

/// The message of a finished Compose action on `target` (trimmed); on success
/// the result is the project's display name.
pub open spec fn compose_outcome_spec(
    action: ComposeAction,
    target: Seq<char>,
    result: Result<Seq<char>, Seq<char>>,
) -> Result<Seq<char>, Seq<char>> {
    match result {
        Ok(name) => Ok(
            match action {
                ComposeAction::Up => "Compose project `"@ + name + "` is up."@,
                ComposeAction::Down => "Compose project `"@ + name + "` is down."@,
                ComposeAction::Logs => "Fetched logs for compose project `"@ + name + "`."@,
            },
        ),
        Err(e) => Err(
            match action {
                ComposeAction::Up => "Compose up failed for `"@,
                ComposeAction::Down => "Compose down failed for `"@,
                ComposeAction::Logs => "Compose logs failed for `"@,
            } + target + "`: "@ + e,
        ),
    }
}

pub fn compose_outcome(action: ComposeAction, target: &str, result: Result<String, String>) -> (res:
    Result<String, String>)
    ensures
        result_view(res) == compose_outcome_spec(action, target@, result_view(result)),
{
    match result {
        Ok(name) => Ok(
            match action {
                ComposeAction::Up => concat3("Compose project `", name.as_str(), "` is up."),
                ComposeAction::Down => concat3("Compose project `", name.as_str(), "` is down."),
                ComposeAction::Logs => concat3(
                    "Fetched logs for compose project `",
                    name.as_str(),
                    "`.",
                ),
            },
        ),
        Err(e) => {
            let head = match action {
                ComposeAction::Up => "Compose up failed for `",
                ComposeAction::Down => "Compose down failed for `",
                ComposeAction::Logs => "Compose logs failed for `",
            };
            Err(failure(head, target, e.as_str()))
        },
    }
}

/// The message of a finished run of `image` (trimmed); on success the result
/// is the new container's id.
pub open spec fn run_outcome_spec(image: Seq<char>, result: Result<Seq<char>, Seq<char>>) -> Result<
    Seq<char>,
    Seq<char>,
> {
    match result {
        Ok(id) => Ok("Started container "@ + shorten_id_spec(id) + " from `"@ + image + "`."@),
        Err(e) => Err("Container run failed for `"@ + image + "`: "@ + e),
    }
}

pub fn run_outcome(image: &str, result: Result<String, String>) -> (res: Result<String, String>)
    ensures
        result_view(res) == run_outcome_spec(image@, result_view(result)),
{
    match result {
        Ok(id) => {
            let short = shorten_container_id(id.as_str());
            let a = concat3("Started container ", short.as_str(), " from `");
            Ok(concat3(a.as_str(), image, "`."))
        },
        Err(e) => Err(failure("Container run failed for `", image, e.as_str())),
    }
}

pub open spec fn opt_text_view(v: Option<String>) -> Option<Seq<char>> {
    match v {
        Some(t) => Some(t@),
        None => None,
    }
}

/// A run's options as the engine takes them: each trimmed, blank ones dropped.
pub open spec fn trimmed_request_spec(r: RunRequestView) -> RunRequestView {
    RunRequestView {
        image: trim(r.image),
        container_name: opt_trim_of(r.container_name),
        ports: opt_trim_of(r.ports),
        env_vars: opt_trim_of(r.env_vars),
        volume_mounts: opt_trim_of(r.volume_mounts),
        command_override: opt_trim_of(r.command_override),
        restart_policy: opt_trim_of(r.restart_policy),
        auto_remove: r.auto_remove,
    }
}

fn trimmed_of(v: &Option<String>) -> (res: Option<String>)
    ensures
        res.deep_view() == opt_trim_of(v.deep_view()),
{
    match v {
        Some(t) => trimmed_option(t.as_str()),
        None => None,
    }
}

pub fn trimmed_run_request(r: &RunRequest) -> (res: RunRequest)
    ensures
        res@ == trimmed_request_spec(r@),
{
    RunRequest {
        image: trim_str(r.image.as_str()),
        container_name: trimmed_of(&r.container_name),
        ports: trimmed_of(&r.ports),
        env_vars: trimmed_of(&r.env_vars),
        volume_mounts: trimmed_of(&r.volume_mounts),
        command_override: trimmed_of(&r.command_override),
        restart_policy: trimmed_of(&r.restart_policy),
        auto_remove: r.auto_remove,
    }
}

/// The message when Docker Desktop could not be launched; `stderr` is the
/// launcher's error output.
pub open spec fn launch_failure_spec(stderr: Seq<char>) -> Seq<char> {
    if trim(stderr).len() == 0 {
        "Failed to launch Docker Desktop runtime."@
    } else {
        "Failed to launch Docker Desktop runtime: "@ + trim(stderr)
    }
}

pub fn launch_failure(stderr: &str) -> (res: String)
    ensures
        res@ == launch_failure_spec(stderr@),
{
    let t = trim_str(stderr);
    if t.as_str().is_empty() {
        String::from_str("Failed to launch Docker Desktop runtime.")
    } else {
        concat_str("Failed to launch Docker Desktop runtime: ", t.as_str())
    }
}

} // verus!
