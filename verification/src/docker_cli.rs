//! The Docker command-line bridge: the commands run for the Docker runtime and
//! Compose, and how their output is read into the desktop's rows.

use vstd::prelude::*;
use crate::desktop::{RunRequest, RunRequestView};
use crate::order::{first_where, lemma_first_where, lemma_stable_order_len, sort_strings, sorted_by_keys, stable_order, stable_sort_positions};
use crate::model::{ContainerDetailsInfo, ContainerDetailsInfoView, ContainerInfo, ContainerInfoView, ContainerStatsInfo, ContainerStatsInfoView, EngineStatusInfo, EngineStatusInfoView, ProjectInfo, ProjectInfoView, RuntimeStatusInfo, RuntimeStatusInfoView};
use crate::runtime::{is_native_container_id, native_prefix, items_or_empty, kept_lines, nonblank_lines_of, text_or_empty, append_strings};
use crate::text::{clone_strings};
use crate::paths::{file_name_of, file_stem_of, parent_of, path_file_name, path_file_stem, path_parent};
use crate::runtime::{line_items_spec, opt_trim_of, parse_env_assignments, parse_port_mappings, parse_volume_mounts, port_mappings_spec};
use crate::text::{chars_of, concat_str, join, join_strings, nonempty, split_by, split_chars, starts_with, string_of, trim, trim_chars, trim_str, trimmed_option, Sep};

verus! {

broadcast use crate::text::group_text;

/// A command line as it is logged: the program and its arguments, spaced.
pub open spec fn command_line(program: Seq<char>, args: Seq<Seq<char>>) -> Seq<char> {
    join(seq![program] + args, " "@)
}

pub fn render_command(program: &str, args: &Vec<String>) -> (res: String)
    ensures
        res@ == command_line(program@, args.deep_view()),
{
    let mut parts: Vec<String> = Vec::new();
    parts.push(String::from_str(program));
    let mut i: usize = 0;
    while i < args.len()
        invariant
            i <= args.len(),
            parts.deep_view() =~= seq![program@] + args.deep_view().take(i as int),
        decreases args.len() - i,
    {
        let ghost before = parts.deep_view();
        parts.push(args[i].clone());
        assert(parts.deep_view() =~= before.push(args.deep_view()[i as int]));
        i = i + 1;
    }
    assert(args.deep_view().take(args.len() as int) =~= args.deep_view());
    join_strings(&parts, " ")
}

/// The message of a failed command: its trimmed error output, or `fallback`
/// where that is blank.
pub open spec fn failure_spec(stderr: Seq<char>, fallback: Seq<char>) -> Seq<char> {
    if trim(stderr).len() == 0 {
        fallback
    } else {
        trim(stderr)
    }
}

pub fn command_failure(stderr: &str, fallback: &str) -> (res: String)
    ensures
        res@ == failure_spec(stderr@, fallback@),
{
    let t = trim_str(stderr);
    if t.as_str().is_empty() {
        String::from_str(fallback)
    } else {
        t
    }
}

pub fn push_text(v: &mut Vec<String>, s: String)
    ensures
        final(v).deep_view() == old(v).deep_view().push(s@),
{
    let ghost before = v.deep_view();
    v.push(s);
    assert(v.deep_view() =~= before.push(s@));
}

/// `flag item` for each item, in order.
pub open spec fn flag_pairs(flag: Seq<char>, items: Seq<Seq<char>>) -> Seq<Seq<char>>
    decreases items.len(),
{
    if items.len() == 0 {
        Seq::empty()
    } else {
        flag_pairs(flag, items.drop_last()) + seq![flag, items.last()]
    }
}

fn push_flag_pairs(v: &mut Vec<String>, flag: &str, items: &Vec<String>)
    ensures
        final(v).deep_view() == old(v).deep_view() + flag_pairs(flag@, items.deep_view()),
{
    let ghost start = v.deep_view();
    let mut i: usize = 0;
    assert(flag_pairs(flag@, items.deep_view().take(0)) =~= Seq::<Seq<char>>::empty());
    while i < items.len()
        invariant
            i <= items.len(),
            v.deep_view() =~= start + flag_pairs(flag@, items.deep_view().take(i as int)),
        decreases items.len() - i,
    {
        assert(items.deep_view().take(i + 1).drop_last() =~= items.deep_view().take(i as int));
        push_text(v, String::from_str(flag));
        push_text(v, items[i].clone());
        i = i + 1;
    }
    assert(items.deep_view().take(items.len() as int) =~= items.deep_view());
}

/// Why a run is refused before anything is started, if it is.
pub open spec fn run_refusal(r: RunRequestView) -> Option<Seq<char>> {
    if trim(r.image).len() == 0 {
        Some("image reference is required"@)
    } else if r.auto_remove && r.restart_policy is Some {
        Some("auto-remove (`--rm`) cannot be combined with a restart policy"@)
    } else {
        None
    }
}

pub fn check_run_request(req: &RunRequest) -> (res: Result<(), String>)
    ensures
        match run_refusal(req@) {
            Some(m) => res matches Err(e) && e@ == m,
            None => res is Ok,
        },
{
    let image = trim_str(req.image.as_str());
    if image.as_str().is_empty() {
        Err(String::from_str("image reference is required"))
    } else if req.auto_remove && req.restart_policy.is_some() {
        Err(String::from_str("auto-remove (`--rm`) cannot be combined with a restart policy"))
    } else {
        Ok(())
    }
}

pub open spec fn opt_pair(flag: Seq<char>, v: Option<Seq<char>>) -> Seq<Seq<char>> {
    match v {
        Some(x) => seq![flag, x],
        None => Seq::empty(),
    }
}

/// The options of `docker run` that come before the published ports.
pub open spec fn run_head_spec(r: RunRequestView) -> Seq<Seq<char>> {
    seq!["run"@, "-d"@] + (if r.auto_remove {
        seq!["--rm"@]
    } else {
        Seq::empty()
    }) + opt_pair("--name"@, r.container_name) + opt_pair("--restart"@, r.restart_policy)
}

/// The arguments of `docker run` for a run on the Docker runtime.
pub open spec fn docker_run_args_spec(r: RunRequestView) -> Seq<Seq<char>> {
    run_head_spec(r) + flag_pairs("-p"@, port_mappings_spec(r.ports)) + flag_pairs(
        "-e"@,
        line_items_spec(r.env_vars),
    ) + flag_pairs("-v"@, line_items_spec(r.volume_mounts)) + seq![r.image] + match r.command_override {
        Some(c) => seq!["sh"@, "-lc"@, c],
        None => Seq::empty(),
    }
}

fn opt_str(v: &Option<String>) -> (res: Option<&str>)
    ensures
        match res {
            Some(t) => v.deep_view() == Some(t@),
            None => v is None,
        },
{
    match v {
        Some(t) => Some(t.as_str()),
        None => None,
    }
}

fn run_head_args(req: &RunRequest) -> (res: Vec<String>)
    ensures
        res.deep_view() == run_head_spec(req@),
{
    let mut args: Vec<String> = Vec::new();
    push_text(&mut args, String::from_str("run"));
    push_text(&mut args, String::from_str("-d"));
    let ghost a0 = args.deep_view();
    if req.auto_remove {
        push_text(&mut args, String::from_str("--rm"));
    }
    let ghost a1 = args.deep_view();
    match &req.container_name {
        Some(n) => {
            push_text(&mut args, String::from_str("--name"));
            push_text(&mut args, n.clone());
        },
        None => {},
    }
    let ghost a2 = args.deep_view();
    match &req.restart_policy {
        Some(p) => {
            push_text(&mut args, String::from_str("--restart"));
            push_text(&mut args, p.clone());
        },
        None => {},
    }
    assert(a1 =~= a0 + (if req.auto_remove {
        seq!["--rm"@]
    } else {
        Seq::<Seq<char>>::empty()
    }));
    assert(a2 =~= a1 + opt_pair("--name"@, req@.container_name));
    assert(args.deep_view() =~= a2 + opt_pair("--restart"@, req@.restart_policy));
    args
}

pub fn docker_run_args(req: &RunRequest) -> (res: Vec<String>)
    ensures
        res.deep_view() == docker_run_args_spec(req@),
{
    let mut args = run_head_args(req);
    let ports = parse_port_mappings(opt_str(&req.ports));
    push_flag_pairs(&mut args, "-p", &ports);
    let env = parse_env_assignments(opt_str(&req.env_vars));
    push_flag_pairs(&mut args, "-e", &env);
    let mounts = parse_volume_mounts(opt_str(&req.volume_mounts));
    push_flag_pairs(&mut args, "-v", &mounts);
    push_text(&mut args, req.image.clone());
    let ghost a4 = args.deep_view();
    match &req.command_override {
        Some(c) => {
            push_text(&mut args, String::from_str("sh"));
            push_text(&mut args, String::from_str("-lc"));
            push_text(&mut args, c.clone());
        },
        None => {},
    }
    assert(args.deep_view() =~= a4 + match req@.command_override {
        Some(c) => seq!["sh"@, "-lc"@, c],
        None => Seq::<Seq<char>>::empty(),
    });
    args
}

/// The Compose options that pick the project: its folder or file, and its name.
pub open spec fn compose_args_spec(target: Seq<char>, name: Option<Seq<char>>, is_dir: bool) -> Seq<
    Seq<char>,
> {
    let t = trim(target);
    seq!["compose"@] + (if is_dir {
        seq!["--project-directory"@, t]
    } else {
        seq!["-f"@, t] + match path_parent(t) {
            Some(p) => if p.len() > 0 {
                seq!["--project-directory"@, p]
            } else {
                Seq::empty()
            },
            None => Seq::empty(),
        }
    }) + match opt_trim_of(name) {
        Some(n) => seq!["-p"@, n],
        None => Seq::empty(),
    }
}

fn opt_trimmed_str(v: Option<&str>) -> (res: Option<String>)
    ensures
        res.deep_view() == opt_trim_of(
            match v {
                Some(t) => Some(t@),
                None => None,
            },
        ),
{
    match v {
        Some(t) => trimmed_option(t),
        None => None,
    }
}

pub open spec fn opt_view(v: Option<&str>) -> Option<Seq<char>> {
    match v {
        Some(t) => Some(t@),
        None => None,
    }
}

/// `compose_command_args`; `target_is_dir` tells whether the trimmed target is a folder.
pub fn compose_command_args(
    compose_target: &str,
    project_name: Option<&str>,
    target_is_dir: bool,
) -> (res: Result<Vec<String>, String>)
    ensures
        trim(compose_target@).len() == 0 ==> (res matches Err(e) && e@
            == "compose file or project folder is required"@),
        trim(compose_target@).len() > 0 ==> (res matches Ok(args) && args.deep_view()
            == compose_args_spec(compose_target@, opt_view(project_name), target_is_dir)),
{
    let target = trim_str(compose_target);
    if target.as_str().is_empty() {
        return Err(String::from_str("compose file or project folder is required"));
    }
    let mut args: Vec<String> = Vec::new();
    push_text(&mut args, String::from_str("compose"));
    if target_is_dir {
        push_text(&mut args, String::from_str("--project-directory"));
        push_text(&mut args, target.clone());
    } else {
        push_text(&mut args, String::from_str("-f"));
        push_text(&mut args, target.clone());
        match parent_of(target.as_str()) {
            Some(parent) => {
                if !parent.as_str().is_empty() {
                    push_text(&mut args, String::from_str("--project-directory"));
                    push_text(&mut args, parent);
                }
            },
            None => {},
        }
    }
    let ghost mid = args.deep_view();
    match opt_trimmed_str(project_name) {
        Some(n) => {
            push_text(&mut args, String::from_str("-p"));
            push_text(&mut args, n);
        },
        None => {},
    }
    assert(args.deep_view() =~= compose_args_spec(
        compose_target@,
        opt_view(project_name),
        target_is_dir,
    ));
    Ok(args)
}

pub open spec fn nonempty_opt(o: Option<Seq<char>>) -> Option<Seq<char>> {
    match o {
        Some(v) => if v.len() > 0 {
            Some(v)
        } else {
            None
        },
        None => None,
    }
}

/// The name a Compose project is reported under: the given name, else the
/// folder it lives in, else the file's stem, else the target as given.
pub open spec fn compose_display_spec(target: Seq<char>, name: Option<Seq<char>>, is_dir: bool) -> Seq<
    char,
> {
    match opt_trim_of(name) {
        Some(n) => n,
        None => {
            let t = trim(target);
            let candidate = if is_dir {
                path_file_name(t)
            } else {
                match (match path_parent(t) {
                    Some(p) => path_file_name(p),
                    None => None,
                }) {
                    Some(f) => Some(f),
                    None => path_file_stem(t),
                }
            };
            match nonempty_opt(candidate) {
                Some(v) => v,
                None => target,
            }
        },
    }
}

fn nonempty_string(o: Option<String>) -> (res: Option<String>)
    ensures
        res.deep_view() == nonempty_opt(o.deep_view()),
{
    match o {
        Some(v) => if v.as_str().is_empty() {
            None
        } else {
            Some(v)
        },
        None => None,
    }
}

/// `compose_project_display_name`; `target_is_dir` tells whether the trimmed target is a folder.
pub fn compose_project_display_name(
    compose_target: &str,
    project_name: Option<&str>,
    target_is_dir: bool,
) -> (res: String)
    ensures
        res@ == compose_display_spec(compose_target@, opt_view(project_name), target_is_dir),
{
    match opt_trimmed_str(project_name) {
        Some(n) => n,
        None => {
            let t = trim_str(compose_target);
            let candidate = if target_is_dir {
                file_name_of(t.as_str())
            } else {
                let from_parent = match parent_of(t.as_str()) {
                    Some(p) => file_name_of(p.as_str()),
                    None => None,
                };
                match from_parent {
                    Some(f) => Some(f),
                    None => file_stem_of(t.as_str()),
                }
            };
            match nonempty_string(candidate) {
                Some(v) => v,
                None => String::from_str(compose_target),
            }
        },
    }
}

/// The first file named in a Compose project's comma-separated file list.
pub open spec fn primary_target_spec(config_files: Seq<char>) -> Seq<char> {
    let pieces = split_by(config_files, Sep::Char(',')).map_values(|p: Seq<char>| trim(p));
    match first_where(pieces, |p: Seq<char>| nonempty(p)) {
        Some(i) => pieces[i],
        None => Seq::empty(),
    }
}

pub fn primary_compose_target(config_files: &str) -> (res: String)
    ensures
        res@ == primary_target_spec(config_files@),
{
    let chars = chars_of(config_files);
    let parts = split_chars(&chars, Sep::Char(','));
    let ghost pieces = split_by(config_files@, Sep::Char(',')).map_values(|p: Seq<char>| trim(p));
    let ghost pred = |p: Seq<char>| nonempty(p);
    let mut i: usize = 0;
    while i < parts.len()
        invariant
            i <= parts.len(),
            parts.deep_view() == split_by(config_files@, Sep::Char(',')),
            pieces == split_by(config_files@, Sep::Char(',')).map_values(|p: Seq<char>| trim(p)),
            pred == (|p: Seq<char>| nonempty(p)),
            forall|j: int| 0 <= j < i ==> !pred(#[trigger] pieces[j]),
        decreases parts.len() - i,
    {
        let t = trim_chars(&parts[i]);
        assert(parts.deep_view()[i as int] == parts@[i as int]@);
        assert(pieces[i as int] == t@);
        if t.len() > 0 {
            proof {
                lemma_first_where(pieces, pred, i as int);
            }
            return string_of(&t);
        }
        i = i + 1;
    }
    proof {
        lemma_first_where(pieces, pred, i as int);
    }
    String::new()
}

/// The folder a Compose project works in: the target itself where it is a
/// folder, else the target's parent.
pub open spec fn working_dir_spec(target: Seq<char>, is_dir: bool) -> Seq<char> {
    if is_dir {
        target
    } else {
        match path_parent(target) {
            Some(p) => p,
            None => Seq::empty(),
        }
    }
}

pub fn compose_target_working_dir(target: &str, target_is_dir: bool) -> (res: String)
    ensures
        res@ == working_dir_spec(target@, target_is_dir),
{
    if target_is_dir {
        String::from_str(target)
    } else {
        match parent_of(target) {
            Some(p) => p,
            None => String::new(),
        }
    }
}


/// The items of a list trimmed, the blank ones left out.
pub open spec fn trimmed_items(items: Seq<Seq<char>>) -> Seq<Seq<char>> {
    items.map_values(|x: Seq<char>| trim(x)).filter(|x: Seq<char>| nonempty(x))
}

fn trimmed_nonblank(items: &Vec<String>) -> (res: Vec<String>)
    ensures
        res.deep_view() == trimmed_items(items.deep_view()),
{
    broadcast use vstd::seq::Seq::lemma_filter_push;

    let ghost all = items.deep_view().map_values(|x: Seq<char>| trim(x));
    let ghost pred = |x: Seq<char>| nonempty(x);
    let mut res: Vec<String> = Vec::new();
    let mut i: usize = 0;
    reveal_with_fuel(Seq::filter, 1);
    assert(all.take(0).filter(pred) =~= Seq::<Seq<char>>::empty());
    while i < items.len()
        invariant
            i <= items.len(),
            all == items.deep_view().map_values(|x: Seq<char>| trim(x)),
            pred == (|x: Seq<char>| nonempty(x)),
            res.deep_view() == all.take(i as int).filter(pred),
        decreases items.len() - i,
    {
        let t = trim_str(items[i].as_str());
        assert(all[i as int] == t@);
        assert(all.take(i + 1) =~= all.take(i as int).push(all[i as int]));
        proof {
            all.take(i as int).lemma_filter_push(all[i as int], pred);
        }
        if !t.as_str().is_empty() {
            push_text(&mut res, t);
        }
        i = i + 1;
    }
    assert(all.take(items.len() as int) =~= all);
    res
}

pub open spec fn opt_items_view(v: Option<&Vec<String>>) -> Option<Seq<Seq<char>>> {
    match v {
        Some(items) => Some(items.deep_view()),
        None => None,
    }
}

/// The command a Docker container runs, as `docker inspect` reports it:
/// its path and arguments, else its configured command, else `-`.
pub open spec fn format_command_spec(
    path: Option<Seq<char>>,
    args: Option<Seq<Seq<char>>>,
    cmd: Option<Seq<Seq<char>>>,
) -> Seq<char> {
    let from_path = match path {
        Some(p) => if trim(p).len() > 0 {
            Some(join(seq![trim(p)] + trimmed_items(items_or_empty(args)), " "@))
        } else {
            None
        },
        None => None,
    };
    let from_cmd = match cmd {
        Some(items) => Some(join(trimmed_items(items), " "@)),
        None => None,
    };
    let chosen = match from_path {
        Some(v) => Some(v),
        None => from_cmd,
    };
    match chosen {
        Some(v) => if trim(v).len() > 0 {
            v
        } else {
            "-"@
        },
        None => "-"@,
    }
}

pub fn format_command(path: Option<&str>, args: Option<&Vec<String>>, cmd: Option<&Vec<String>>) -> (res: String)
    ensures
        res@ == format_command_spec(opt_view(path), opt_items_view(args), opt_items_view(cmd)),
{
    let from_path = match path {
        Some(p) => {
            let t = trim_str(p);
            if t.as_str().is_empty() {
                None
            } else {
                let mut parts: Vec<String> = Vec::new();
                push_text(&mut parts, t);
                let rest = match args {
                    Some(items) => trimmed_nonblank(items),
                    None => {
                        proof {
                            reveal_with_fuel(Seq::filter, 1);
                            assert(trimmed_items(Seq::<Seq<char>>::empty()) =~= Seq::<
                                Seq<char>,
                            >::empty());
                        }
                        Vec::new()
                    },
                };
                let all = append_strings(&parts, &rest);
                assert(all.deep_view() =~= seq![trim(p@)] + trimmed_items(
                    items_or_empty(opt_items_view(args)),
                ));
                Some(join_strings(&all, " "))
            }
        },
        None => None,
    };
    let chosen = match from_path {
        Some(v) => Some(v),
        None => match cmd {
            Some(items) => {
                let kept = trimmed_nonblank(items);
                Some(join_strings(&kept, " "))
            },
            None => None,
        },
    };
    match chosen {
        Some(v) => {
            let t = trim_str(v.as_str());
            if t.as_str().is_empty() {
                String::from_str("-")
            } else {
                v
            }
        },
        None => String::from_str("-"),
    }
}

/// One host binding of a published container port.
#[derive(Debug)]
pub struct PortBinding {
    pub host_ip: Option<String>,
    pub host_port: Option<String>,
}

pub struct PortBindingView {
    pub host_ip: Option<Seq<char>>,
    pub host_port: Option<Seq<char>>,
}

impl View for PortBinding {
    type V = PortBindingView;

    open spec fn view(&self) -> PortBindingView {
        PortBindingView { host_ip: self.host_ip.deep_view(), host_port: self.host_port.deep_view() }
    }
}

/// A container port and its host bindings, as `docker inspect` lists them.
#[derive(Debug)]
pub struct PortEntry {
    pub container_port: String,
    pub bindings: Option<Vec<PortBinding>>,
}

pub struct PortEntryView {
    pub container_port: Seq<char>,
    pub bindings: Option<Seq<PortBindingView>>,
}

impl View for PortEntry {
    type V = PortEntryView;

    open spec fn view(&self) -> PortEntryView {
        PortEntryView {
            container_port: self.container_port@,
            bindings: match &self.bindings {
                Some(bs) => Some(bs@.map_values(|b: PortBinding| b@)),
                None => None,
            },
        }
    }
}

pub open spec fn or_default(v: Option<Seq<char>>, d: Seq<char>) -> Seq<char> {
    match opt_trim_of(v) {
        Some(t) => t,
        None => d,
    }
}

/// `host:port->container` for one binding.
pub open spec fn binding_text(b: PortBindingView, container_port: Seq<char>) -> Seq<char> {
    or_default(b.host_ip, "0.0.0.0"@) + ":"@ + or_default(b.host_port, "?"@) + "->"@
        + container_port
}

/// The texts of one container port: one per binding, or the bare port.
pub open spec fn entry_texts(e: PortEntryView) -> Seq<Seq<char>> {
    match e.bindings {
        Some(bs) => if bs.len() > 0 {
            bs.map_values(|b: PortBindingView| binding_text(b, e.container_port))
        } else {
            seq![e.container_port]
        },
        None => seq![e.container_port],
    }
}

pub open spec fn all_port_texts(es: Seq<PortEntryView>) -> Seq<Seq<char>>
    decreases es.len(),
{
    if es.len() == 0 {
        Seq::empty()
    } else {
        all_port_texts(es.drop_last()) + entry_texts(es.last())
    }
}

pub open spec fn sorted_texts(ts: Seq<Seq<char>>) -> Seq<Seq<char>> {
    sorted_by_keys(ts.map_values(|s: Seq<char>| (s, Seq::<char>::empty())), ts)
}

/// The published ports of a Docker container, sorted and comma-separated.
pub open spec fn inspect_ports_spec(es: Seq<PortEntryView>) -> Seq<char> {
    join(sorted_texts(all_port_texts(es)), ", "@)
}

fn default_trimmed(v: &Option<String>, d: &str) -> (res: String)
    ensures
        res@ == or_default(v.deep_view(), d@),
{
    match v {
        Some(t) => match trimmed_option(t.as_str()) {
            Some(x) => x,
            None => String::from_str(d),
        },
        None => String::from_str(d),
    }
}

fn binding_string(b: &PortBinding, container_port: &str) -> (res: String)
    ensures
        res@ == binding_text(b@, container_port@),
{
    let ip = default_trimmed(&b.host_ip, "0.0.0.0");
    let port = default_trimmed(&b.host_port, "?");
    let a = concat_str(ip.as_str(), ":");
    let a2 = concat_str(a.as_str(), port.as_str());
    let a3 = concat_str(a2.as_str(), "->");
    concat_str(a3.as_str(), container_port)
}

fn entry_strings(e: &PortEntry) -> (res: Vec<String>)
    ensures
        res.deep_view() == entry_texts(e@),
{
    let mut res: Vec<String> = Vec::new();
    match &e.bindings {
        Some(bs) => {
            if bs.len() > 0 {
                let ghost bv = bs@.map_values(|b: PortBinding| b@);
                let mut i: usize = 0;
                while i < bs.len()
                    invariant
                        i <= bs.len(),
                        bv == bs@.map_values(|b: PortBinding| b@),
                        res.deep_view() =~= bv.map_values(
                            |b: PortBindingView| binding_text(b, e.container_port@),
                        ).take(i as int),
                    decreases bs.len() - i,
                {
                    let t = binding_string(&bs[i], e.container_port.as_str());
                    push_text(&mut res, t);
                    i = i + 1;
                }
            } else {
                push_text(&mut res, e.container_port.clone());
            }
        },
        None => {
            push_text(&mut res, e.container_port.clone());
        },
    }
    res
}

pub open spec fn entry_views(es: Seq<PortEntry>) -> Seq<PortEntryView> {
    es.map_values(|e: PortEntry| e@)
}

pub fn format_inspect_ports(entries: &Vec<PortEntry>) -> (res: String)
    ensures
        res@ == inspect_ports_spec(entry_views(entries@)),
{
    let ghost ev = entry_views(entries@);
    let mut texts: Vec<String> = Vec::new();
    let mut i: usize = 0;
    while i < entries.len()
        invariant
            i <= entries.len(),
            ev == entry_views(entries@),
            texts.deep_view() == all_port_texts(ev.take(i as int)),
        decreases entries.len() - i,
    {
        assert(ev.take(i + 1).drop_last() =~= ev.take(i as int));
        let more = entry_strings(&entries[i]);
        texts = append_strings(&texts, &more);
        i = i + 1;
    }
    assert(ev.take(entries.len() as int) =~= ev);
    let sorted = sort_strings(&texts);
    join_strings(&sorted, ", ")
}

/// A name with its leading slashes removed (`trim_start_matches('/')`).
pub open spec fn strip_slashes(s: Seq<char>) -> Seq<char>
    decreases s.len(),
{
    if s.len() > 0 && s[0] == '/' {
        strip_slashes(s.drop_first())
    } else {
        s
    }
}

pub fn strip_leading_slashes(s: &str) -> (res: String)
    ensures
        res@ == strip_slashes(s@),
{
    let chars = chars_of(s);
    let mut i: usize = 0;
    assert(chars@.skip(0) =~= chars@);
    while i < chars.len() && chars[i] == '/'
        invariant
            i <= chars.len(),
            strip_slashes(chars@) == strip_slashes(chars@.skip(i as int)),
        decreases chars.len() - i,
    {
        assert(chars@.skip(i as int).drop_first() =~= chars@.skip(i + 1));
        i = i + 1;
    }
    let rest = slice_chars_to_end(&chars, i);
    assert(chars@.skip(0) =~= chars@);
    string_of(&rest)
}

fn slice_chars_to_end(chars: &Vec<char>, from: usize) -> (res: Vec<char>)
    requires
        from <= chars.len(),
    ensures
        res@ == chars@.skip(from as int),
{
    let r = crate::text::slice_chars(chars, from, chars.len());
    assert(r@ =~= chars@.skip(from as int));
    r
}


/// Pairs sorted by their first text, pairs with equal keys kept in order
/// (`sort_by` on the key).
pub open spec fn sorted_pairs(v: Seq<(Seq<char>, Seq<char>)>) -> Seq<(Seq<char>, Seq<char>)> {
    sorted_by_keys(v.map_values(|p: (Seq<char>, Seq<char>)| (p.0, Seq::<char>::empty())), v)
}

pub fn sort_pairs_by_key(v: &Vec<(String, String)>) -> (res: Vec<(String, String)>)
    ensures
        res.deep_view() == sorted_pairs(v.deep_view()),
{
    let ghost kspec = v.deep_view().map_values(
        |p: (Seq<char>, Seq<char>)| (p.0, Seq::<char>::empty()),
    );
    let mut keys: Vec<(Vec<char>, Vec<char>)> = Vec::new();
    let mut i: usize = 0;
    while i < v.len()
        invariant
            i <= v.len(),
            keys.deep_view() =~= kspec.take(i as int),
            kspec == v.deep_view().map_values(
                |p: (Seq<char>, Seq<char>)| (p.0, Seq::<char>::empty()),
            ),
        decreases v.len() - i,
    {
        let a = chars_of(v[i].0.as_str());
        let e: Vec<char> = Vec::new();
        let ghost before = keys.deep_view();
        assert(a.deep_view() == a@ && e.deep_view() == e@);
        keys.push((a, e));
        assert(keys.deep_view() =~= before.push(kspec[i as int]));
        i = i + 1;
    }
    assert(keys.deep_view() =~= kspec);
    let order = stable_sort_positions(&keys);
    proof {
        lemma_stable_order_len(kspec);
    }
    let mut res: Vec<(String, String)> = Vec::new();
    let mut j: usize = 0;
    while j < order.len()
        invariant
            kspec == keys.deep_view(),
            v.len() == keys.len(),
            order@.map_values(|i: usize| i as int) == stable_order(kspec),
            order.len() == keys.len(),
            forall|k: int| 0 <= k < order.len() ==> #[trigger] order@[k] < keys.len(),
            j <= order.len(),
            res.deep_view() =~= sorted_by_keys(kspec, v.deep_view()).take(j as int),
        decreases order.len() - j,
    {
        let ghost before = res.deep_view();
        assert(stable_order(kspec)[j as int] == order@[j as int] as int);
        let a = v[order[j]].0.clone();
        let b = v[order[j]].1.clone();
        res.push((a, b));
        assert(res.deep_view() =~= before.push(sorted_by_keys(kspec, v.deep_view())[j as int]));
        j = j + 1;
    }
    assert(res.deep_view() =~= sorted_by_keys(kspec, v.deep_view()));
    res
}

/// What `docker inspect` reports of a container, with the nested objects flattened.
#[derive(Debug)]
pub struct InspectRow {
    pub id: String,
    pub name: String,
    pub created: Option<String>,
    pub path: Option<String>,
    pub args: Option<Vec<String>>,
    pub status: Option<String>,
    pub image: Option<String>,
    pub cmd: Option<Vec<String>>,
    pub entrypoint: Option<Vec<String>>,
    pub env: Option<Vec<String>>,
    pub working_dir: Option<String>,
    pub user: Option<String>,
    pub labels: Option<Vec<(String, String)>>,
    pub restart_policy: Option<String>,
    pub ip_address: Option<String>,
    pub ports: Option<Vec<PortEntry>>,
}

pub struct InspectRowView {
    pub id: Seq<char>,
    pub name: Seq<char>,
    pub created: Option<Seq<char>>,
    pub path: Option<Seq<char>>,
    pub args: Option<Seq<Seq<char>>>,
    pub status: Option<Seq<char>>,
    pub image: Option<Seq<char>>,
    pub cmd: Option<Seq<Seq<char>>>,
    pub entrypoint: Option<Seq<Seq<char>>>,
    pub env: Option<Seq<Seq<char>>>,
    pub working_dir: Option<Seq<char>>,
    pub user: Option<Seq<char>>,
    pub labels: Option<Seq<(Seq<char>, Seq<char>)>>,
    pub restart_policy: Option<Seq<char>>,
    pub ip_address: Option<Seq<char>>,
    pub ports: Option<Seq<PortEntryView>>,
}

impl View for InspectRow {
    type V = InspectRowView;

    open spec fn view(&self) -> InspectRowView {
        InspectRowView {
            id: self.id@,
            name: self.name@,
            created: self.created.deep_view(),
            path: self.path.deep_view(),
            args: self.args.deep_view(),
            status: self.status.deep_view(),
            image: self.image.deep_view(),
            cmd: self.cmd.deep_view(),
            entrypoint: self.entrypoint.deep_view(),
            env: self.env.deep_view(),
            working_dir: self.working_dir.deep_view(),
            user: self.user.deep_view(),
            labels: self.labels.deep_view(),
            restart_policy: self.restart_policy.deep_view(),
            ip_address: self.ip_address.deep_view(),
            ports: match &self.ports {
                Some(es) => Some(entry_views(es@)),
                None => None,
            },
        }
    }
}

pub open spec fn text_or(v: Option<Seq<char>>, d: Seq<char>) -> Seq<char> {
    match v {
        Some(t) => t,
        None => d,
    }
}

/// The ports column of an inspected container.
pub open spec fn inspect_ports_column(ports: Option<Seq<PortEntryView>>) -> Seq<char> {
    match ports {
        Some(es) => if inspect_ports_spec(es).len() > 0 {
            inspect_ports_spec(es)
        } else {
            "-"@
        },
        None => "-"@,
    }
}

/// The details shown for a container of the Docker runtime.
pub open spec fn inspect_details_spec(row: InspectRowView) -> ContainerDetailsInfoView {
    ContainerDetailsInfoView {
        id: row.id,
        name: strip_slashes(row.name),
        image: text_or_empty(row.image),
        command: format_command_spec(row.path, row.args, row.cmd),
        entrypoint: match row.entrypoint {
            Some(items) => join(items, " "@),
            None => Seq::empty(),
        },
        created: text_or_empty(row.created),
        status: text_or(row.status, "unknown"@),
        ports: inspect_ports_column(row.ports),
        ip_address: text_or_empty(row.ip_address),
        working_dir: text_or_empty(row.working_dir),
        user: text_or_empty(row.user),
        restart_policy: text_or(row.restart_policy, "no"@),
        runtime: "docker"@,
        env: items_or_empty(row.env),
        labels: sorted_pairs(
            match row.labels {
                Some(l) => l,
                None => Seq::empty(),
            },
        ),
    }
}

fn text_or_of(v: &Option<String>, d: &str) -> (res: String)
    ensures
        res@ == text_or(v.deep_view(), d@),
{
    match v {
        Some(t) => t.clone(),
        None => String::from_str(d),
    }
}

fn text_or_empty_of(v: &Option<String>) -> (res: String)
    ensures
        res@ == text_or_empty(v.deep_view()),
{
    match v {
        Some(t) => t.clone(),
        None => String::new(),
    }
}

fn opt_ref(v: &Option<String>) -> (res: Option<&str>)
    ensures
        opt_view(res) == v.deep_view(),
{
    match v {
        Some(t) => Some(t.as_str()),
        None => None,
    }
}

fn opt_vec_ref(v: &Option<Vec<String>>) -> (res: Option<&Vec<String>>)
    ensures
        opt_items_view(res) == v.deep_view(),
{
    match v {
        Some(t) => Some(t),
        None => None,
    }
}

fn ports_column(ports: &Option<Vec<PortEntry>>) -> (res: String)
    ensures
        res@ == inspect_ports_column(
            match ports {
                Some(es) => Some(entry_views(es@)),
                None => None,
            },
        ),
{
    match ports {
        Some(es) => {
            let t = format_inspect_ports(es);
            if t.as_str().is_empty() {
                String::from_str("-")
            } else {
                t
            }
        },
        None => String::from_str("-"),
    }
}

pub fn container_details_from_inspect(row: &InspectRow) -> (res: ContainerDetailsInfo)
    ensures
        res@ == inspect_details_spec(row@),
{
    let entrypoint = match &row.entrypoint {
        Some(items) => join_strings(items, " "),
        None => String::new(),
    };
    let labels = match &row.labels {
        Some(l) => sort_pairs_by_key(l),
        None => {
            let empty: Vec<(String, String)> = Vec::new();
            sort_pairs_by_key(&empty)
        },
    };
    let res = ContainerDetailsInfo {
        id: row.id.clone(),
        name: strip_leading_slashes(row.name.as_str()),
        image: text_or_empty_of(&row.image),
        command: format_command(opt_ref(&row.path), opt_vec_ref(&row.args), opt_vec_ref(&row.cmd)),
        entrypoint,
        created: text_or_empty_of(&row.created),
        status: text_or_of(&row.status, "unknown"),
        ports: ports_column(&row.ports),
        ip_address: text_or_empty_of(&row.ip_address),
        working_dir: text_or_empty_of(&row.working_dir),
        user: text_or_empty_of(&row.user),
        restart_policy: text_or_of(&row.restart_policy, "no"),
        runtime: String::from_str("docker"),
        env: match &row.env {
            Some(e) => clone_strings(e),
            None => Vec::new(),
        },
        labels,
    };
    let ghost spec = inspect_details_spec(row@);
    assert(res@.id == spec.id);
    assert(res@.name == spec.name);
    assert(res@.image == spec.image);
    assert(res@.command == spec.command);
    assert(res@.entrypoint == spec.entrypoint);
    assert(res@.created == spec.created);
    assert(res@.status == spec.status);
    assert(res@.ports == spec.ports);
    assert(res@.ip_address == spec.ip_address);
    assert(res@.env == spec.env);
    assert(res@.labels == spec.labels);
    res
}


/// One row of `docker ps`.
#[derive(Debug)]
pub struct PsRow {
    pub id: String,
    pub image: String,
    pub names: String,
    pub state: String,
    pub status: String,
    pub ports: String,
}

pub struct PsRowView {
    pub id: Seq<char>,
    pub image: Seq<char>,
    pub names: Seq<char>,
    pub state: Seq<char>,
    pub status: Seq<char>,
    pub ports: Seq<char>,
}

impl View for PsRow {
    type V = PsRowView;

    open spec fn view(&self) -> PsRowView {
        PsRowView {
            id: self.id@,
            image: self.image@,
            names: self.names@,
            state: self.state@,
            status: self.status@,
            ports: self.ports@,
        }
    }
}

/// How a container of the Docker runtime is listed.
pub open spec fn ps_container_spec(r: PsRowView) -> ContainerInfoView {
    ContainerInfoView {
        id: r.id,
        name: r.names,
        image: r.image,
        state: r.state,
        status: r.status,
        ports: if trim(r.ports).len() == 0 {
            "-"@
        } else {
            r.ports
        },
        runtime: "docker"@,
    }
}

pub fn container_from_ps_row(row: &PsRow) -> (res: ContainerInfo)
    ensures
        res@ == ps_container_spec(row@),
{
    let t = trim_str(row.ports.as_str());
    ContainerInfo {
        id: row.id.clone(),
        name: row.names.clone(),
        image: row.image.clone(),
        state: row.state.clone(),
        status: row.status.clone(),
        ports: if t.as_str().is_empty() {
            String::from_str("-")
        } else {
            row.ports.clone()
        },
        runtime: String::from_str("docker"),
    }
}

/// One row of `docker stats`.
#[derive(Debug)]
pub struct StatsRow {
    pub container: Option<String>,
    pub cpu_percent: Option<String>,
    pub memory_usage: Option<String>,
    pub memory_percent: Option<String>,
    pub net_io: Option<String>,
    pub block_io: Option<String>,
    pub pids: Option<String>,
}

pub struct StatsRowView {
    pub container: Option<Seq<char>>,
    pub cpu_percent: Option<Seq<char>>,
    pub memory_usage: Option<Seq<char>>,
    pub memory_percent: Option<Seq<char>>,
    pub net_io: Option<Seq<char>>,
    pub block_io: Option<Seq<char>>,
    pub pids: Option<Seq<char>>,
}

impl View for StatsRow {
    type V = StatsRowView;

    open spec fn view(&self) -> StatsRowView {
        StatsRowView {
            container: self.container.deep_view(),
            cpu_percent: self.cpu_percent.deep_view(),
            memory_usage: self.memory_usage.deep_view(),
            memory_percent: self.memory_percent.deep_view(),
            net_io: self.net_io.deep_view(),
            block_io: self.block_io.deep_view(),
            pids: self.pids.deep_view(),
        }
    }
}

/// The stats of a container of the Docker runtime; what the row lacks shows as `-`.
pub open spec fn docker_stats_spec(container_id: Seq<char>, r: StatsRowView) -> ContainerStatsInfoView {
    ContainerStatsInfoView {
        container_id: text_or(r.container, container_id),
        cpu_percent: text_or(r.cpu_percent, "-"@),
        memory_usage: text_or(r.memory_usage, "-"@),
        memory_percent: text_or(r.memory_percent, "-"@),
        net_io: text_or(r.net_io, "-"@),
        block_io: text_or(r.block_io, "-"@),
        pids: text_or(r.pids, "-"@),
    }
}

pub fn stats_from_row(container_id: &str, row: &StatsRow) -> (res: ContainerStatsInfo)
    ensures
        res@ == docker_stats_spec(container_id@, row@),
{
    ContainerStatsInfo {
        container_id: text_or_of(&row.container, container_id),
        cpu_percent: text_or_of(&row.cpu_percent, "-"),
        memory_usage: text_or_of(&row.memory_usage, "-"),
        memory_percent: text_or_of(&row.memory_percent, "-"),
        net_io: text_or_of(&row.net_io, "-"),
        block_io: text_or_of(&row.block_io, "-"),
        pids: text_or_of(&row.pids, "-"),
    }
}

/// One row of `docker compose ls`.
#[derive(Debug)]
pub struct ComposeRow {
    pub name: String,
    pub status: Option<String>,
    pub config_files: Option<String>,
}

pub struct ComposeRowView {
    pub name: Seq<char>,
    pub status: Option<Seq<char>>,
    pub config_files: Option<Seq<char>>,
}

impl View for ComposeRow {
    type V = ComposeRowView;

    open spec fn view(&self) -> ComposeRowView {
        ComposeRowView {
            name: self.name@,
            status: self.status.deep_view(),
            config_files: self.config_files.deep_view(),
        }
    }
}

/// A Compose project as listed; `is_dir` tells whether its first file is a folder.
pub open spec fn project_spec(r: ComposeRowView, is_dir: bool) -> ProjectInfoView {
    let files = text_or_empty(r.config_files);
    ProjectInfoView {
        name: r.name,
        status: text_or(r.status, "Unknown"@),
        working_dir: working_dir_spec(primary_target_spec(files), is_dir),
        config_files: files,
    }
}

pub fn project_from_row(row: &ComposeRow, primary_is_dir: bool) -> (res: ProjectInfo)
    ensures
        res@ == project_spec(row@, primary_is_dir),
{
    let files = text_or_empty_of(&row.config_files);
    let target = primary_compose_target(files.as_str());
    ProjectInfo {
        name: row.name.clone(),
        status: text_or_of(&row.status, "Unknown"),
        working_dir: compose_target_working_dir(target.as_str(), primary_is_dir),
        config_files: files,
    }
}

pub open spec fn project_views(s: Seq<ProjectInfo>) -> Seq<ProjectInfoView> {
    s.map_values(|p: ProjectInfo| p@)
}

/// The Compose project list: one project per row, sorted by name; `dirs[i]`
/// tells whether the first file of row `i` is a folder.
pub open spec fn projects_spec(rows: Seq<ComposeRowView>, dirs: Seq<bool>) -> Seq<ProjectInfoView> {
    let ps = Seq::new(rows.len(), |i: int| project_spec(rows[i], dirs[i]));
    sorted_by_keys(ps.map_values(|p: ProjectInfoView| (p.name, Seq::<char>::empty())), ps)
}

pub fn list_projects_from_rows(rows: &Vec<ComposeRow>, dirs: &Vec<bool>) -> (res: Vec<ProjectInfo>)
    requires
        rows.len() == dirs.len(),
    ensures
        project_views(res@) == projects_spec(rows@.map_values(|r: ComposeRow| r@), dirs@),
{
    let ghost rv = rows@.map_values(|r: ComposeRow| r@);
    let ghost ps = Seq::new(rv.len(), |i: int| project_spec(rv[i], dirs@[i]));
    let ghost kspec = ps.map_values(|p: ProjectInfoView| (p.name, Seq::<char>::empty()));
    let mut keys: Vec<(Vec<char>, Vec<char>)> = Vec::new();
    let mut items: Vec<ProjectInfo> = Vec::new();
    let mut i: usize = 0;
    while i < rows.len()
        invariant
            i <= rows.len(),
            rows.len() == dirs.len(),
            rv == rows@.map_values(|r: ComposeRow| r@),
            ps == Seq::new(rv.len(), |i: int| project_spec(rv[i], dirs@[i])),
            kspec == ps.map_values(|p: ProjectInfoView| (p.name, Seq::<char>::empty())),
            keys.deep_view() =~= kspec.take(i as int),
            project_views(items@) =~= ps.take(i as int),
        decreases rows.len() - i,
    {
        let p = project_from_row(&rows[i], dirs[i]);
        let a = chars_of(p.name.as_str());
        let e: Vec<char> = Vec::new();
        let ghost bk = keys.deep_view();
        let ghost bi = project_views(items@);
        assert(a.deep_view() == a@ && e.deep_view() == e@);
        keys.push((a, e));
        items.push(p);
        assert(keys.deep_view() =~= bk.push(kspec[i as int]));
        assert(project_views(items@) =~= bi.push(ps[i as int]));
        i = i + 1;
    }
    assert(keys.deep_view() =~= kspec);
    assert(project_views(items@) =~= ps);
    let order = stable_sort_positions(&keys);
    proof {
        lemma_stable_order_len(kspec);
    }
    let mut res: Vec<ProjectInfo> = Vec::new();
    let mut j: usize = 0;
    while j < order.len()
        invariant
            kspec == keys.deep_view(),
            ps == project_views(items@),
            items.len() == keys.len(),
            order@.map_values(|i: usize| i as int) == stable_order(kspec),
            order.len() == keys.len(),
            forall|k: int| 0 <= k < order.len() ==> #[trigger] order@[k] < keys.len(),
            j <= order.len(),
            project_views(res@) =~= sorted_by_keys(kspec, ps).take(j as int),
        decreases order.len() - j,
    {
        let ghost before = project_views(res@);
        assert(stable_order(kspec)[j as int] == order@[j as int] as int);
        res.push(items[order[j]].clone());
        assert(project_views(res@) =~= before.push(sorted_by_keys(kspec, ps)[j as int]));
        j = j + 1;
    }
    assert(project_views(res@) =~= sorted_by_keys(kspec, ps));
    res
}

pub open spec fn container_views(s: Seq<ContainerInfo>) -> Seq<ContainerInfoView> {
    s.map_values(|c: ContainerInfo| c@)
}

/// The container list: native containers and those of the Docker runtime,
/// sorted by name and then runtime.
pub open spec fn merged_containers_spec(
    native: Seq<ContainerInfoView>,
    docker: Seq<ContainerInfoView>,
) -> Seq<ContainerInfoView> {
    let all = native + docker;
    sorted_by_keys(all.map_values(|c: ContainerInfoView| (c.name, c.runtime)), all)
}

pub fn list_containers(native: &Vec<ContainerInfo>, docker: &Vec<ContainerInfo>) -> (res: Vec<
    ContainerInfo,
>)
    ensures
        container_views(res@) == merged_containers_spec(
            container_views(native@),
            container_views(docker@),
        ),
{
    let ghost all = container_views(native@) + container_views(docker@);
    let ghost kspec = all.map_values(|c: ContainerInfoView| (c.name, c.runtime));
    let mut items: Vec<ContainerInfo> = Vec::new();
    let mut keys: Vec<(Vec<char>, Vec<char>)> = Vec::new();
    let mut i: usize = 0;
    while i < native.len()
        invariant
            i <= native.len(),
            all == container_views(native@) + container_views(docker@),
            kspec == all.map_values(|c: ContainerInfoView| (c.name, c.runtime)),
            keys.deep_view() =~= kspec.take(i as int),
            container_views(items@) =~= all.take(i as int),
        decreases native.len() - i,
    {
        let c = native[i].clone();
        assert(c@ == all[i as int]);
        let a = chars_of(c.name.as_str());
        let b = chars_of(c.runtime.as_str());
        let ghost bk = keys.deep_view();
        let ghost bi = container_views(items@);
        assert(a.deep_view() == a@ && b.deep_view() == b@);
        keys.push((a, b));
        items.push(c);
        assert(keys.deep_view() =~= bk.push(kspec[i as int]));
        assert(container_views(items@) =~= bi.push(all[i as int]));
        i = i + 1;
    }
    let mut d: usize = 0;
    while d < docker.len()
        invariant
            d <= docker.len(),
            all == container_views(native@) + container_views(docker@),
            kspec == all.map_values(|c: ContainerInfoView| (c.name, c.runtime)),
            keys.deep_view() =~= kspec.take(native.len() + d),
            container_views(items@) =~= all.take(native.len() + d),
        decreases docker.len() - d,
    {
        let c = docker[d].clone();
        assert(c@ == all[native.len() + d]);
        let a = chars_of(c.name.as_str());
        let b = chars_of(c.runtime.as_str());
        let ghost bk = keys.deep_view();
        let ghost bi = container_views(items@);
        assert(a.deep_view() == a@ && b.deep_view() == b@);
        keys.push((a, b));
        items.push(c);
        assert(keys.deep_view() =~= bk.push(kspec[native.len() + d]));
        assert(container_views(items@) =~= bi.push(all[native.len() + d]));
        d = d + 1;
    }
    assert(keys.deep_view() =~= kspec);
    assert(container_views(items@) =~= all);
    let order = stable_sort_positions(&keys);
    proof {
        lemma_stable_order_len(kspec);
    }
    let mut res: Vec<ContainerInfo> = Vec::new();
    let mut j: usize = 0;
    while j < order.len()
        invariant
            kspec == keys.deep_view(),
            all == container_views(items@),
            items.len() == keys.len(),
            order@.map_values(|i: usize| i as int) == stable_order(kspec),
            order.len() == keys.len(),
            forall|k: int| 0 <= k < order.len() ==> #[trigger] order@[k] < keys.len(),
            j <= order.len(),
            container_views(res@) =~= sorted_by_keys(kspec, all).take(j as int),
        decreases order.len() - j,
    {
        let ghost before = container_views(res@);
        assert(stable_order(kspec)[j as int] == order@[j as int] as int);
        res.push(items[order[j]].clone());
        assert(container_views(res@) =~= before.push(sorted_by_keys(kspec, all)[j as int]));
        j = j + 1;
    }
    assert(container_views(res@) =~= sorted_by_keys(kspec, all));
    res
}

/// The runtime status, given the Docker server version where the bridge answered.
pub open spec fn runtime_status_spec(bridge: Option<Seq<char>>) -> RuntimeStatusInfoView {
    RuntimeStatusInfoView {
        summary: match bridge {
            Some(v) => if v.len() > 0 {
                "Native runtime prototype ready; Docker bridge ready ("@ + v + ")"@
            } else {
                "Native runtime prototype ready"@
            },
            None => "Native runtime prototype ready"@,
        },
        detail: if bridge is Some {
            "Runs host-process containers natively first, with Docker Desktop fallback for Linux-container compatibility on macOS."@
        } else {
            "Runs host-process containers natively. Docker Desktop fallback is currently unavailable, so Linux image commands may not execute on macOS yet."@
        },
        native_ready: true,
        bridge_ready: bridge is Some,
    }
}

pub fn runtime_status(bridge: Option<&str>) -> (res: RuntimeStatusInfo)
    ensures
        res@ == runtime_status_spec(opt_view(bridge)),
{
    let summary = match bridge {
        Some(v) => if v.is_empty() {
            String::from_str("Native runtime prototype ready")
        } else {
            let a = concat_str("Native runtime prototype ready; Docker bridge ready (", v);
            concat_str(a.as_str(), ")")
        },
        None => String::from_str("Native runtime prototype ready"),
    };
    let detail = if bridge.is_some() {
        String::from_str(
            "Runs host-process containers natively first, with Docker Desktop fallback for Linux-container compatibility on macOS.",
        )
    } else {
        String::from_str(
            "Runs host-process containers natively. Docker Desktop fallback is currently unavailable, so Linux image commands may not execute on macOS yet.",
        )
    };
    RuntimeStatusInfo { summary, detail, native_ready: true, bridge_ready: bridge.is_some() }
}

/// The engine status once its store is in place at `store_path`.
pub open spec fn engine_status_spec(store_path: Seq<char>) -> EngineStatusInfoView {
    EngineStatusInfoView {
        summary: "Native OCI engine ready"@,
        detail: "Docker daemon is not required for pulls or metadata-only image builds."@,
        store_path,
    }
}

pub fn engine_status(store_path: &str) -> (res: EngineStatusInfo)
    ensures
        res@ == engine_status_spec(store_path@),
{
    EngineStatusInfo {
        summary: String::from_str("Native OCI engine ready"),
        detail: String::from_str(
            "Docker daemon is not required for pulls or metadata-only image builds.",
        ),
        store_path: String::from_str(store_path),
    }
}

/// The log lines of a command's output: its nonblank output lines, then its
/// nonblank error lines.
pub open spec fn output_lines_spec(stdout: Seq<char>, stderr: Seq<char>) -> Seq<Seq<char>> {
    kept_lines(stdout) + kept_lines(stderr)
}

pub fn command_output_lines(stdout: &str, stderr: &str) -> (res: Vec<String>)
    ensures
        res.deep_view() == output_lines_spec(stdout@, stderr@),
{
    let a = nonblank_lines_of(stdout);
    let b = nonblank_lines_of(stderr);
    append_strings(&a, &b)
}


/// How an action on a container is carried out: by the native runtime, or by
/// running `docker` with the given arguments.
#[derive(Debug)]
pub enum ContainerCommand {
    Native,
    Docker(Vec<String>),
}

pub enum ContainerCommandView {
    Native,
    Docker(Seq<Seq<char>>),
}

impl View for ContainerCommand {
    type V = ContainerCommandView;

    open spec fn view(&self) -> ContainerCommandView {
        match self {
            ContainerCommand::Native => ContainerCommandView::Native,
            ContainerCommand::Docker(args) => ContainerCommandView::Docker(args.deep_view()),
        }
    }
}

/// Native containers are handled by the native runtime; others by `docker <verb> <id>`.
pub open spec fn container_command_spec(verb: Seq<char>, container_id: Seq<char>) -> ContainerCommandView {
    if starts_with(container_id, native_prefix()) {
        ContainerCommandView::Native
    } else {
        ContainerCommandView::Docker(seq![verb, container_id])
    }
}

fn container_command(verb: &str, container_id: &str) -> (res: ContainerCommand)
    ensures
        res@ == container_command_spec(verb@, container_id@),
{
    if is_native_container_id(container_id) {
        ContainerCommand::Native
    } else {
        let mut args: Vec<String> = Vec::new();
        push_text(&mut args, String::from_str(verb));
        push_text(&mut args, String::from_str(container_id));
        assert(args.deep_view() =~= seq![verb@, container_id@]);
        ContainerCommand::Docker(args)
    }
}

pub fn stop_container_entry(container_id: &str) -> (res: ContainerCommand)
    ensures
        res@ == container_command_spec("stop"@, container_id@),
{
    container_command("stop", container_id)
}

pub fn start_container_entry(container_id: &str) -> (res: ContainerCommand)
    ensures
        res@ == container_command_spec("start"@, container_id@),
{
    container_command("start", container_id)
}

pub fn restart_container_entry(container_id: &str) -> (res: ContainerCommand)
    ensures
        res@ == container_command_spec("restart"@, container_id@),
{
    container_command("restart", container_id)
}

pub fn remove_container_entry(container_id: &str) -> (res: ContainerCommand)
    ensures
        res@ == container_command_spec("rm"@, container_id@),
{
    container_command("rm", container_id)
}


/// The arguments of `docker exec` for a command run through a login shell.
pub open spec fn exec_args_spec(container_id: Seq<char>, command: Seq<char>) -> Seq<Seq<char>> {
    seq!["exec"@, container_id, "sh"@, "-lc"@, command]
}

pub fn docker_exec_args(container_id: &str, command: &str) -> (res: Vec<String>)
    ensures
        res.deep_view() == exec_args_spec(container_id@, command@),
{
    let mut args: Vec<String> = Vec::new();
    push_text(&mut args, String::from_str("exec"));
    push_text(&mut args, String::from_str(container_id));
    push_text(&mut args, String::from_str("sh"));
    push_text(&mut args, String::from_str("-lc"));
    push_text(&mut args, String::from_str(command));
    assert(args.deep_view() =~= exec_args_spec(container_id@, command@));
    args
}

/// The arguments of `docker logs` for the last 200 lines of a container.
pub open spec fn logs_args_spec(container_id: Seq<char>) -> Seq<Seq<char>> {
    seq!["logs"@, "--tail"@, "200"@, container_id]
}

pub fn docker_logs_args(container_id: &str) -> (res: Vec<String>)
    ensures
        res.deep_view() == logs_args_spec(container_id@),
{
    let mut args: Vec<String> = Vec::new();
    push_text(&mut args, String::from_str("logs"));
    push_text(&mut args, String::from_str("--tail"));
    push_text(&mut args, String::from_str("200"));
    push_text(&mut args, String::from_str(container_id));
    assert(args.deep_view() =~= logs_args_spec(container_id@));
    args
}

/// A Compose command.
#[derive(PartialEq, Eq, Structural, Clone, Copy, Debug)]
pub enum ComposeCommand {
    Up,
    Down,
    Logs,
}

/// The arguments a Compose command adds after the project options.
pub open spec fn compose_tail_spec(command: ComposeCommand) -> Seq<Seq<char>> {
    match command {
        ComposeCommand::Up => seq!["up"@, "-d"@, "--remove-orphans"@],
        ComposeCommand::Down => seq!["down"@, "--remove-orphans"@],
        ComposeCommand::Logs => seq!["logs"@, "--tail"@, "200"@, "--no-color"@],
    }
}

/// The full arguments of `docker compose up`, `down` or `logs` for a project.
pub fn compose_action_args(
    compose_target: &str,
    project_name: Option<&str>,
    target_is_dir: bool,
    command: ComposeCommand,
) -> (res: Result<Vec<String>, String>)
    ensures
        trim(compose_target@).len() == 0 ==> (res matches Err(e) && e@
            == "compose file or project folder is required"@),
        trim(compose_target@).len() > 0 ==> (res matches Ok(args) && args.deep_view()
            == compose_args_spec(compose_target@, opt_view(project_name), target_is_dir)
            + compose_tail_spec(command)),
{
    match compose_command_args(compose_target, project_name, target_is_dir) {
        Ok(mut args) => {
            let ghost head = args.deep_view();
            match command {
                ComposeCommand::Up => {
                    push_text(&mut args, String::from_str("up"));
                    push_text(&mut args, String::from_str("-d"));
                    push_text(&mut args, String::from_str("--remove-orphans"));
                },
                ComposeCommand::Down => {
                    push_text(&mut args, String::from_str("down"));
                    push_text(&mut args, String::from_str("--remove-orphans"));
                },
                ComposeCommand::Logs => {
                    push_text(&mut args, String::from_str("logs"));
                    push_text(&mut args, String::from_str("--tail"));
                    push_text(&mut args, String::from_str("200"));
                    push_text(&mut args, String::from_str("--no-color"));
                },
            }
            assert(args.deep_view() =~= head + compose_tail_spec(command));
            Ok(args)
        },
        Err(e) => Err(e),
    }
}

/// The row of `docker stats` output: its first nonblank line.
pub open spec fn stats_line_spec(stdout: Seq<char>) -> Option<Seq<char>> {
    match first_where(crate::text::lines(stdout), |l: Seq<char>| trim(l).len() > 0) {
        Some(i) => Some(crate::text::lines(stdout)[i]),
        None => None,
    }
}

pub fn stats_row_line(stdout: &str) -> (res: Result<String, String>)
    ensures
        match stats_line_spec(stdout@) {
            Some(l) => res matches Ok(x) && x@ == l,
            None => res matches Err(e) && e@ == "docker stats returned no rows"@,
        },
{
    let chars = chars_of(stdout);
    let ls = crate::text::lines_chars(&chars);
    let ghost p = |l: Seq<char>| trim(l).len() > 0;
    let mut i: usize = 0;
    while i < ls.len()
        invariant
            i <= ls.len(),
            ls.deep_view() == crate::text::lines(stdout@),
            p == (|l: Seq<char>| trim(l).len() > 0),
            forall|j: int| 0 <= j < i ==> !p(#[trigger] crate::text::lines(stdout@)[j]),
        decreases ls.len() - i,
    {
        let t = trim_chars(&ls[i]);
        assert(ls.deep_view()[i as int] == ls@[i as int]@);
        if t.len() > 0 {
            proof {
                lemma_first_where(crate::text::lines(stdout@), p, i as int);
            }
            return Ok(string_of(&ls[i]));
        }
        i = i + 1;
    }
    proof {
        lemma_first_where(crate::text::lines(stdout@), p, i as int);
    }
    Err(String::from_str("docker stats returned no rows"))
}

/// How Docker printed a JSON list: nothing, one JSON array, or one JSON
/// value per nonblank line.
#[derive(Debug)]
pub enum JsonListForm {
    Empty,
    Array(String),
    Rows(Vec<String>),
}

pub enum JsonListFormView {
    Empty,
    Array(Seq<char>),
    Rows(Seq<Seq<char>>),
}

impl View for JsonListForm {
    type V = JsonListFormView;

    open spec fn view(&self) -> JsonListFormView {
        match self {
            JsonListForm::Empty => JsonListFormView::Empty,
            JsonListForm::Array(t) => JsonListFormView::Array(t@),
            JsonListForm::Rows(r) => JsonListFormView::Rows(r.deep_view()),
        }
    }
}

/// `parse_json_list`, up to the JSON parsing: the trimmed output is empty, an
/// array (it starts with `[`), or rows.
pub open spec fn json_list_form_spec(output: Seq<char>) -> JsonListFormView {
    let t = trim(output);
    if t.len() == 0 {
        JsonListFormView::Empty
    } else if t[0] == '[' {
        JsonListFormView::Array(t)
    } else {
        JsonListFormView::Rows(crate::runtime::kept_lines(t))
    }
}

pub fn json_list_form(output: &str) -> (res: JsonListForm)
    ensures
        res@ == json_list_form_spec(output@),
{
    let t = trim_str(output);
    let chars = chars_of(t.as_str());
    if chars.len() == 0 {
        JsonListForm::Empty
    } else if chars[0] == '[' {
        JsonListForm::Array(t)
    } else {
        JsonListForm::Rows(nonblank_lines_of(t.as_str()))
    }
}


/// The container list is ordered by name, then by runtime.
pub proof fn law_container_list_is_ordered(
    native: Seq<ContainerInfoView>,
    docker: Seq<ContainerInfoView>,
)
    ensures
        ({
            let list = merged_containers_spec(native, docker);
            forall|a: int, b: int|
                0 <= a < b < list.len() ==> crate::order::key_le(
                    (#[trigger] list[a].name, list[a].runtime),
                    (#[trigger] list[b].name, list[b].runtime),
                )
        }),
{
    let all = native + docker;
    let kspec = all.map_values(|c: ContainerInfoView| (c.name, c.runtime));
    let o = stable_order(kspec);
    crate::order::law_stable_order_is_ordered(kspec);
    lemma_stable_order_len(kspec);
    crate::order::lemma_stable_order_bounds(kspec);
    let list = merged_containers_spec(native, docker);
    assert forall|a: int, b: int| 0 <= a < b < list.len() implies crate::order::key_le(
        (#[trigger] list[a].name, list[a].runtime),
        (#[trigger] list[b].name, list[b].runtime),
    ) by {
        assert(list[a] == all[o[a]]);
        assert(list[b] == all[o[b]]);
        assert(kspec[o[a]] == (list[a].name, list[a].runtime));
        assert(kspec[o[b]] == (list[b].name, list[b].runtime));
    }
}

/// The Compose project list is ordered by name.
pub proof fn law_project_list_is_ordered(rows: Seq<ComposeRowView>, dirs: Seq<bool>)
    ensures
        ({
            let list = projects_spec(rows, dirs);
            forall|a: int, b: int|
                0 <= a < b < list.len() ==> crate::order::key_le(
                    (#[trigger] list[a].name, Seq::<char>::empty()),
                    (#[trigger] list[b].name, Seq::<char>::empty()),
                )
        }),
{
    let ps = Seq::new(rows.len(), |i: int| project_spec(rows[i], dirs[i]));
    let kspec = ps.map_values(|p: ProjectInfoView| (p.name, Seq::<char>::empty()));
    let o = stable_order(kspec);
    crate::order::law_stable_order_is_ordered(kspec);
    lemma_stable_order_len(kspec);
    crate::order::lemma_stable_order_bounds(kspec);
    let list = projects_spec(rows, dirs);
    assert forall|a: int, b: int| 0 <= a < b < list.len() implies crate::order::key_le(
        (#[trigger] list[a].name, Seq::<char>::empty()),
        (#[trigger] list[b].name, Seq::<char>::empty()),
    ) by {
        assert(list[a] == ps[o[a]]);
        assert(list[b] == ps[o[b]]);
        assert(kspec[o[a]] == (list[a].name, Seq::<char>::empty()));
        assert(kspec[o[b]] == (list[b].name, Seq::<char>::empty()));
    }
}

} // verus!
