//! The native runtime's bookkeeping: container records, how their state follows
//! the host process, and the text derived from them.

use vstd::prelude::*;
use crate::model::{
    ContainerDetailsInfo, ContainerDetailsInfoView, ContainerInfo, ContainerInfoView,
    ContainerStatsInfo, ContainerStatsInfoView, NativeContainerRecord, NativeContainerRecordView,
    RuntimeConfig, StoredImageRecord, StoredImageRecordView,
};
use crate::numfmt::{dec, dec_signed, hex, i32_to_chars, u128_to_hex_chars, u64_to_chars};
use crate::text::{
    chars_of, concat_str, join, join_strings, lines, lines_chars, lower_all, lower_chars,
    nonempty, split_once, split_once_chars, starts_with, str_eq, str_starts_with, string_of,
    take_chars, take_prefix, tokens, tokens_chars, trim, trim_chars, trim_str, Sep,
};
use crate::units::{format_bytes, format_bytes_spec};
use crate::model::RuntimeConfigView;
use crate::desktop::{RunRequest, RunRequestView};
use crate::order::{first_where, lemma_first_where, lemma_first_where_some};
use crate::oci::{find_stored_image, image_unavailable_message, named_record, store_views, unavailable_message};
use crate::text::{opt_trimmed, trimmed_option, clone_strings, slice_chars};

verus! {

broadcast use crate::text::group_text;

/// The prefix of every container id the native runtime hands out.
pub open spec fn native_prefix() -> Seq<char> {
    seq!['n', 'a', 't', 'i', 'v', 'e', '-']
}

/// Whether a container id belongs to the native runtime.
pub fn is_native_container_id(container_id: &str) -> (res: bool)
    ensures
        res == starts_with(container_id@, native_prefix()),
{
    proof {
        reveal_strlit("native-");
    }
    assert("native-"@ =~= native_prefix());
    str_starts_with(container_id, "native-")
}

/// How a record's published ports are shown.
pub open spec fn ports_text(ports: Seq<Seq<char>>) -> Seq<char> {
    if ports.len() == 0 {
        "-"@
    } else {
        join(ports, ", "@)
    }
}

pub fn render_native_ports(ports: &Vec<String>) -> (res: String)
    ensures
        res@ == ports_text(ports.deep_view()),
{
    if ports.len() == 0 {
        String::from_str("-")
    } else {
        join_strings(ports, ", ")
    }
}

/// The `KEY=value` entries of an environment, as pairs: the key trimmed,
/// entries without `=` left out.
pub open spec fn env_pairs_spec(values: Seq<Seq<char>>) -> Seq<(Seq<char>, Seq<char>)>
    decreases values.len(),
{
    if values.len() == 0 {
        Seq::empty()
    } else {
        let rest = env_pairs_spec(values.drop_last());
        match split_once(values.last(), '=') {
            Some((k, v)) => rest.push((trim(k), v)),
            None => rest,
        }
    }
}

pub fn parse_env_pairs(values: &Vec<String>) -> (res: Vec<(String, String)>)
    ensures
        res.deep_view() == env_pairs_spec(values.deep_view()),
{
    let mut res: Vec<(String, String)> = Vec::new();
    let mut i: usize = 0;
    while i < values.len()
        invariant
            i <= values.len(),
            res.deep_view() == env_pairs_spec(values.deep_view().take(i as int)),
        decreases values.len() - i,
    {
        let ghost vs = values.deep_view().take(i + 1);
        assert(vs.drop_last() =~= values.deep_view().take(i as int));
        assert(vs.last() == values@[i as int]@);
        let chars = chars_of(values[i].as_str());
        match split_once_chars(&chars, '=') {
            Some((k, v)) => {
                let key = trim_chars(&k);
                let ghost old_res = res.deep_view();
                res.push((string_of(&key), string_of(&v)));
                assert(res.deep_view() =~= old_res.push((trim(k@), v@)));
            },
            None => {},
        }
        i = i + 1;
    }
    assert(values.deep_view().take(values.len() as int) =~= values.deep_view());
    res
}

/// What replaces one character when a text is put inside single quotes.
pub open spec fn quoted_char(c: char) -> Seq<char> {
    if c == '\'' {
        seq!['\'', '"', '\'', '"', '\'']
    } else {
        seq![c]
    }
}

/// A text with each `'` written as `'"'"'`.
pub open spec fn single_quoted(s: Seq<char>) -> Seq<char>
    decreases s.len(),
{
    if s.len() == 0 {
        Seq::empty()
    } else {
        single_quoted(s.drop_last()) + quoted_char(s.last())
    }
}

pub fn shell_single_quote(value: &str) -> (res: String)
    ensures
        res@ == single_quoted(value@),
{
    let chars = chars_of(value);
    let mut out: Vec<char> = Vec::new();
    let mut i: usize = 0;
    while i < chars.len()
        invariant
            i <= chars.len(),
            out@ == single_quoted(chars@.take(i as int)),
        decreases chars.len() - i,
    {
        assert(chars@.take(i + 1).drop_last() =~= chars@.take(i as int));
        let c = chars[i];
        let ghost before = out@;
        if c == '\'' {
            out.push('\'');
            out.push('"');
            out.push('\'');
            out.push('"');
            out.push('\'');
        } else {
            out.push(c);
        }
        assert(out@ =~= before + quoted_char(c));
        i = i + 1;
    }
    assert(chars@.take(chars.len() as int) =~= chars@);
    string_of(&out)
}

/// A text without `'` is its own quoted form.
pub proof fn law_quote_without_quotes(s: Seq<char>)
    requires
        forall|i: int| 0 <= i < s.len() ==> s[i] != '\'',
    ensures
        single_quoted(s) == s,
    decreases s.len(),
{
    if s.len() > 0 {
        law_quote_without_quotes(s.drop_last());
        assert(s.drop_last().push(s.last()) =~= s);
    }
}

/// The port mappings of a run: the pieces between commas and whitespace.
pub open spec fn port_mappings_spec(value: Option<Seq<char>>) -> Seq<Seq<char>> {
    match value {
        Some(t) => tokens(t, Sep::CommaOrWhitespace),
        None => Seq::empty(),
    }
}

pub fn parse_port_mappings(value: Option<&str>) -> (res: Vec<String>)
    ensures
        res.deep_view() == port_mappings_spec(
            match value {
                Some(t) => Some(t@),
                None => None,
            },
        ),
{
    match value {
        Some(t) => {
            let chars = chars_of(t);
            let pieces = tokens_chars(&chars, Sep::CommaOrWhitespace);
            crate::text::strings_of(&pieces)
        },
        None => Vec::new(),
    }
}

/// The lines of a text that hold more than whitespace, each trimmed.
pub open spec fn nonblank_lines(t: Seq<char>) -> Seq<Seq<char>> {
    lines(t).map_values(|l: Seq<char>| trim(l)).filter(|p: Seq<char>| nonempty(p))
}

pub fn nonblank_trimmed_lines(t: &str) -> (res: Vec<String>)
    ensures
        res.deep_view() == nonblank_lines(t@),
{
    broadcast use vstd::seq::Seq::lemma_filter_push;

    let chars = chars_of(t);
    let ls = lines_chars(&chars);
    let ghost all = lines(t@).map_values(|l: Seq<char>| trim(l));
    let ghost pred = |p: Seq<char>| nonempty(p);
    let mut res: Vec<String> = Vec::new();
    let mut i: usize = 0;
    reveal_with_fuel(Seq::filter, 1);
    assert(all.take(0).filter(pred) =~= Seq::<Seq<char>>::empty());
    while i < ls.len()
        invariant
            i <= ls.len(),
            ls.deep_view() == lines(t@),
            all == lines(t@).map_values(|l: Seq<char>| trim(l)),
            pred == (|p: Seq<char>| nonempty(p)),
            res.deep_view() == all.take(i as int).filter(pred),
        decreases ls.len() - i,
    {
        let line = trim_chars(&ls[i]);
        assert(ls.deep_view()[i as int] == ls@[i as int]@);
        assert(all.take(i + 1) =~= all.take(i as int).push(all[i as int]));
        proof {
            all.take(i as int).lemma_filter_push(all[i as int], pred);
        }
        if line.len() > 0 {
            let ghost old_res = res.deep_view();
            res.push(string_of(&line));
            assert(res.deep_view() =~= old_res.push(line@));
        }
        i = i + 1;
    }
    assert(all.take(ls.len() as int) =~= all);
    res
}

/// The environment assignments (or volume mounts) of a run: one per nonblank line.
pub open spec fn line_items_spec(value: Option<Seq<char>>) -> Seq<Seq<char>> {
    match value {
        Some(t) => nonblank_lines(t),
        None => Seq::empty(),
    }
}

pub fn parse_env_assignments(value: Option<&str>) -> (res: Vec<String>)
    ensures
        res.deep_view() == line_items_spec(
            match value {
                Some(t) => Some(t@),
                None => None,
            },
        ),
{
    match value {
        Some(t) => nonblank_trimmed_lines(t),
        None => Vec::new(),
    }
}

pub fn parse_volume_mounts(value: Option<&str>) -> (res: Vec<String>)
    ensures
        res.deep_view() == line_items_spec(
            match value {
                Some(t) => Some(t@),
                None => None,
            },
        ),
{
    match value {
        Some(t) => nonblank_trimmed_lines(t),
        None => Vec::new(),
    }
}


/// What was seen of a record's host process when the runtime state was read:
/// whether its pid is alive, and the exit code its launcher left behind.
#[derive(Clone, Copy, Debug)]
pub struct ProcessObservation {
    pub running: bool,
    pub exit_code: Option<i32>,
}

/// Whether a state reads "exited", ignoring ASCII case.
pub open spec fn is_exited(state: Seq<char>) -> bool {
    lower_all(state) == "exited"@
}

pub fn state_is_exited(state: &str) -> (res: bool)
    ensures
        res == is_exited(state@),
{
    let l = lower_chars(&chars_of(state));
    let ls = string_of(&l);
    str_eq(ls.as_str(), "exited")
}

/// `a - b`, or zero where `b` is larger.
pub open spec fn sat_sub(a: u64, b: u64) -> nat {
    if a >= b {
        (a - b) as nat
    } else {
        0
    }
}

/// A record after comparing it with its process at time `now`.
pub open spec fn sync_spec(
    r: NativeContainerRecordView,
    obs: ProcessObservation,
    now: u64,
) -> NativeContainerRecordView {
    if r.pid is Some && obs.running {
        NativeContainerRecordView {
            state: "running"@,
            status: match r.started_at_epoch {
                Some(started) => "Up "@ + dec(sat_sub(now, started)) + "s (native)"@,
                None => "Running (native)"@,
            },
            ..r
        }
    } else if r.started_at_epoch is Some {
        NativeContainerRecordView {
            state: "exited"@,
            last_exit_code: obs.exit_code,
            finished_at_epoch: if r.finished_at_epoch is None {
                Some(now)
            } else {
                r.finished_at_epoch
            },
            status: match obs.exit_code {
                Some(code) => "Exited ("@ + dec_signed(code as int) + ") (native)"@,
                None => "Exited (native)"@,
            },
            pid: None,
            ..r
        }
    } else {
        r
    }
}

fn number_text(n: u64) -> (res: String)
    ensures
        res@ == dec(n as nat),
{
    string_of(&u64_to_chars(n))
}

fn concat3(a: &str, b: &str, c: &str) -> (res: String)
    ensures
        res@ == a@ + b@ + c@,
{
    let ab = concat_str(a, b);
    concat_str(ab.as_str(), c)
}

pub fn sync_native_record(record: &mut NativeContainerRecord, obs: ProcessObservation, now: u64)
    ensures
        final(record)@ == sync_spec(old(record)@, obs, now),
{
    if record.pid.is_some() && obs.running {
        record.state = String::from_str("running");
        record.status = match record.started_at_epoch {
            Some(started) => {
                let up = if now >= started {
                    now - started
                } else {
                    0
                };
                let n = number_text(up);
                concat3("Up ", n.as_str(), "s (native)")
            },
            None => String::from_str("Running (native)"),
        };
        return ;
    }
    if record.started_at_epoch.is_some() {
        record.state = String::from_str("exited");
        record.last_exit_code = obs.exit_code;
        if record.finished_at_epoch.is_none() {
            record.finished_at_epoch = Some(now);
        }
        record.status = match obs.exit_code {
            Some(code) => {
                let n = string_of(&i32_to_chars(code));
                concat3("Exited (", n.as_str(), ") (native)")
            },
            None => String::from_str("Exited (native)"),
        };
        record.pid = None;
    }
}

/// The containers the native runtime keeps.
#[derive(Debug)]
pub struct NativeRuntimeState {
    pub containers: Vec<NativeContainerRecord>,
}

pub open spec fn record_views(s: Seq<NativeContainerRecord>) -> Seq<NativeContainerRecordView> {
    s.map_values(|r: NativeContainerRecord| r@)
}

impl View for NativeRuntimeState {
    type V = Seq<NativeContainerRecordView>;

    open spec fn view(&self) -> Seq<NativeContainerRecordView> {
        record_views(self.containers@)
    }
}

impl NativeRuntimeState {
    pub fn new() -> (res: Self)
        ensures
            res@ == Seq::<NativeContainerRecordView>::empty(),
    {
        let res = NativeRuntimeState { containers: Vec::new() };
        assert(res@ =~= Seq::<NativeContainerRecordView>::empty());
        res
    }
}

/// Whether a record survives a refresh: an auto-removed container that exited does not.
pub open spec fn kept_after_refresh(r: NativeContainerRecordView) -> bool {
    !(r.auto_remove && is_exited(r.state))
}

/// Every record compared with its process.
pub open spec fn synced_all(
    rs: Seq<NativeContainerRecordView>,
    obs: Seq<ProcessObservation>,
    now: u64,
) -> Seq<NativeContainerRecordView> {
    Seq::new(rs.len(), |i: int| sync_spec(rs[i], obs[i], now))
}

/// The records after a refresh (`refresh_native_runtime_state`).
pub open spec fn refresh_spec(
    rs: Seq<NativeContainerRecordView>,
    obs: Seq<ProcessObservation>,
    now: u64,
) -> Seq<NativeContainerRecordView> {
    synced_all(rs, obs, now).filter(|r: NativeContainerRecordView| kept_after_refresh(r))
}

/// Brings every record in line with its process and drops the auto-removed
/// containers that exited; `observations[i]` is what was seen of record `i`.
pub fn refresh_native_runtime_state(
    state: &mut NativeRuntimeState,
    observations: &Vec<ProcessObservation>,
    now: u64,
)
    requires
        observations.len() == old(state).containers.len(),
    ensures
        final(state)@ == refresh_spec(old(state)@, observations@, now),
        forall|i: int| 0 <= i < final(state)@.len() ==> kept_after_refresh(#[trigger] final(state)@[i]),
{
    broadcast use vstd::seq::Seq::lemma_filter_push;

    let ghost rs = state@;
    let ghost all = synced_all(rs, observations@, now);
    let ghost pred = |r: NativeContainerRecordView| kept_after_refresh(r);
    let mut kept: Vec<NativeContainerRecord> = Vec::new();
    let mut i: usize = 0;
    reveal_with_fuel(Seq::filter, 1);
    assert(all.take(0).filter(pred) =~= Seq::<NativeContainerRecordView>::empty());
    assert(record_views(kept@) =~= Seq::<NativeContainerRecordView>::empty());
    while i < state.containers.len()
        invariant
            i <= state.containers.len(),
            observations.len() == state.containers.len(),
            rs == state@,
            all == synced_all(rs, observations@, now),
            pred == (|r: NativeContainerRecordView| kept_after_refresh(r)),
            record_views(kept@) == all.take(i as int).filter(pred),
        decreases state.containers.len() - i,
    {
        let mut r = state.containers[i].clone();
        sync_native_record(&mut r, observations[i], now);
        assert(r@ == all[i as int]);
        assert(all.take(i + 1) =~= all.take(i as int).push(all[i as int]));
        proof {
            all.take(i as int).lemma_filter_push(all[i as int], pred);
        }
        let exited = state_is_exited(r.state.as_str());
        if !(r.auto_remove && exited) {
            let ghost before = record_views(kept@);
            kept.push(r);
            assert(record_views(kept@) =~= before.push(all[i as int]));
        }
        i = i + 1;
    }
    assert(all.take(state.containers.len() as int) =~= all);
    state.containers = kept;
    proof {
        assert forall|k: int| 0 <= k < state@.len() implies kept_after_refresh(
            #[trigger] state@[k],
        ) by {
            all.lemma_filter_pred(pred, k);
        }
    }
}

/// A refresh drops exactly the auto-removed containers that exited: none of
/// them is left, every other record is kept (brought in line with its
/// process), and nothing else appears.
pub proof fn law_refresh_drops_exited_auto_remove(
    rs: Seq<NativeContainerRecordView>,
    obs: Seq<ProcessObservation>,
    now: u64,
)
    ensures
        forall|i: int|
            0 <= i < refresh_spec(rs, obs, now).len() ==> kept_after_refresh(
                #[trigger] refresh_spec(rs, obs, now)[i],
            ),
        forall|i: int|
            0 <= i < rs.len() && kept_after_refresh(#[trigger] synced_all(rs, obs, now)[i])
                ==> refresh_spec(rs, obs, now).contains(synced_all(rs, obs, now)[i]),
        forall|r: NativeContainerRecordView|
            #[trigger] refresh_spec(rs, obs, now).contains(r) ==> synced_all(rs, obs, now).contains(r),
{
    let pred = |r: NativeContainerRecordView| kept_after_refresh(r);
    let all = synced_all(rs, obs, now);
    assert forall|i: int|
        0 <= i < refresh_spec(rs, obs, now).len() implies kept_after_refresh(
        #[trigger] refresh_spec(rs, obs, now)[i],
    ) by {
        all.lemma_filter_pred(pred, i);
    }
    assert forall|i: int|
        0 <= i < rs.len() && kept_after_refresh(#[trigger] synced_all(rs, obs, now)[i]) implies refresh_spec(
        rs,
        obs,
        now,
    ).contains(synced_all(rs, obs, now)[i]) by {
        all.lemma_filter_contains(pred, i);
    }
    assert forall|r: NativeContainerRecordView|
        #[trigger] refresh_spec(rs, obs, now).contains(r) implies synced_all(rs, obs, now).contains(r) by {
        all.lemma_filter_contains_rev(pred, r);
    }
}

/// A record once its process was launched with `pid` at `now`.
pub open spec fn started_spec(r: NativeContainerRecordView, pid: u32, now: u64) -> NativeContainerRecordView {
    NativeContainerRecordView {
        pid: Some(pid),
        state: "running"@,
        status: "Up 0s (native)"@,
        started_at_epoch: Some(now),
        finished_at_epoch: None,
        last_exit_code: None,
        ..r
    }
}

/// Records the launch of a record's process (the end of `start_native_record`).
pub fn start_native_record(record: &mut NativeContainerRecord, pid: u32, now: u64)
    ensures
        final(record)@ == started_spec(old(record)@, pid, now),
{
    record.pid = Some(pid);
    record.state = String::from_str("running");
    record.status = String::from_str("Up 0s (native)");
    record.started_at_epoch = Some(now);
    record.finished_at_epoch = None;
    record.last_exit_code = None;
}

/// A record once its process was stopped at `now` (`stop_native_container_entry`).
pub open spec fn stopped_spec(
    r: NativeContainerRecordView,
    exit_code: Option<i32>,
    now: u64,
) -> NativeContainerRecordView {
    sync_spec(
        NativeContainerRecordView { pid: None, finished_at_epoch: Some(now), ..r },
        ProcessObservation { running: false, exit_code },
        now,
    )
}

pub fn stop_native_record(record: &mut NativeContainerRecord, exit_code: Option<i32>, now: u64)
    ensures
        final(record)@ == stopped_spec(old(record)@, exit_code, now),
{
    record.pid = None;
    record.finished_at_epoch = Some(now);
    sync_native_record(record, ProcessObservation { running: false, exit_code }, now);
}

/// A started record that is then stopped has exited, and keeps its start time.
pub proof fn law_start_then_stop_exits(
    r: NativeContainerRecordView,
    pid: u32,
    started: u64,
    exit_code: Option<i32>,
    now: u64,
)
    ensures
        stopped_spec(started_spec(r, pid, started), exit_code, now).state == "exited"@,
        stopped_spec(started_spec(r, pid, started), exit_code, now).pid is None,
        stopped_spec(started_spec(r, pid, started), exit_code, now).started_at_epoch == Some(started),
        stopped_spec(started_spec(r, pid, started), exit_code, now).finished_at_epoch == Some(now),
        stopped_spec(started_spec(r, pid, started), exit_code, now).last_exit_code == exit_code,
{
}

/// The shell script that runs a record's command and leaves its exit status behind.
pub open spec fn launch_script_spec(command: Seq<char>, exit_code_path: Seq<char>) -> Seq<char> {
    "#!/bin/sh\n/bin/sh -lc '"@ + single_quoted(command) + "'\nstatus=$?\necho \"$status\" > '"@
        + single_quoted(exit_code_path) + "'\nexit \"$status\"\n"@
}

pub fn native_launch_script(command: &str, exit_code_path: &str) -> (res: String)
    ensures
        res@ == launch_script_spec(command@, exit_code_path@),
{
    let c = shell_single_quote(command);
    let e = shell_single_quote(exit_code_path);
    let a = concat3("#!/bin/sh\n/bin/sh -lc '", c.as_str(), "'\nstatus=$?\necho \"$status\" > '");
    concat3(a.as_str(), e.as_str(), "'\nexit \"$status\"\n")
}


/// What a record takes over from its image's configuration.
#[derive(Debug)]
pub struct NativeImageSpec {
    pub command: Option<String>,
    pub entrypoint: String,
    pub env: Vec<String>,
    pub working_dir: String,
    pub user: String,
}

pub struct NativeImageSpecView {
    pub command: Option<Seq<char>>,
    pub entrypoint: Seq<char>,
    pub env: Seq<Seq<char>>,
    pub working_dir: Seq<char>,
    pub user: Seq<char>,
}

impl View for NativeImageSpec {
    type V = NativeImageSpecView;

    open spec fn view(&self) -> NativeImageSpecView {
        NativeImageSpecView {
            command: self.command.deep_view(),
            entrypoint: self.entrypoint@,
            env: self.env.deep_view(),
            working_dir: self.working_dir@,
            user: self.user@,
        }
    }
}

pub open spec fn items_or_empty(v: Option<Seq<Seq<char>>>) -> Seq<Seq<char>> {
    match v {
        Some(items) => items,
        None => Seq::empty(),
    }
}

pub open spec fn text_or_empty(v: Option<Seq<char>>) -> Seq<char> {
    match v {
        Some(t) => t,
        None => Seq::empty(),
    }
}

/// The launch settings an image gives a container; with a command override
/// the image's command is not used.
pub open spec fn image_spec_of(c: RuntimeConfigView, override_given: bool) -> NativeImageSpecView {
    let items = items_or_empty(c.entrypoint) + items_or_empty(c.cmd);
    NativeImageSpecView {
        command: if override_given || items.len() == 0 {
            None
        } else {
            Some(join(items, " "@))
        },
        entrypoint: join(items_or_empty(c.entrypoint), " "@),
        env: items_or_empty(c.env),
        working_dir: text_or_empty(c.working_dir),
        user: text_or_empty(c.user),
    }
}

fn strings_or_empty(v: &Option<Vec<String>>) -> (res: Vec<String>)
    ensures
        res.deep_view() == items_or_empty(v.deep_view()),
{
    match v {
        Some(items) => clone_strings(items),
        None => Vec::new(),
    }
}

fn text_or_empty_of(v: &Option<String>) -> (res: String)
    ensures
        res@ == text_or_empty(v.deep_view()),
{
    match v {
        Some(t) => t.clone(),
        None => String::new(),
    }
}

/// `a` followed by `b`.
pub fn append_strings(a: &Vec<String>, b: &Vec<String>) -> (res: Vec<String>)
    ensures
        res.deep_view() == a.deep_view() + b.deep_view(),
{
    let mut res = clone_strings(a);
    let mut i: usize = 0;
    while i < b.len()
        invariant
            i <= b.len(),
            res.deep_view() =~= a.deep_view() + b.deep_view().take(i as int),
        decreases b.len() - i,
    {
        let ghost before = res.deep_view();
        res.push(b[i].clone());
        assert(res.deep_view() =~= before.push(b.deep_view()[i as int]));
        assert(b.deep_view().take(i + 1) =~= b.deep_view().take(i as int).push(b.deep_view()[i as int]));
        i = i + 1;
    }
    assert(b.deep_view().take(b.len() as int) =~= b.deep_view());
    res
}

/// `resolve_native_image_spec`, once the image's configuration is loaded.
pub fn resolve_native_image_spec(config: &RuntimeConfig, override_given: bool) -> (res: NativeImageSpec)
    ensures
        res@ == image_spec_of(config@, override_given),
{
    let ep = strings_or_empty(&config.entrypoint);
    let cmd = strings_or_empty(&config.cmd);
    let items = append_strings(&ep, &cmd);
    let command = if override_given || items.len() == 0 {
        None
    } else {
        Some(join_strings(&items, " "))
    };
    NativeImageSpec {
        command,
        entrypoint: join_strings(&ep, " "),
        env: strings_or_empty(&config.env),
        working_dir: text_or_empty_of(&config.working_dir),
        user: text_or_empty_of(&config.user),
    }
}

/// What resolving a run's image gives once the record's configuration was
/// loaded, or the error of that load.
pub open spec fn image_spec_outcome(out: Result<RuntimeConfig, String>, override_given: bool) -> Result<
    NativeImageSpecView,
    Seq<char>,
> {
    match out {
        Ok(c) => Ok(image_spec_of(c@, override_given)),
        Err(e) => Err(e@),
    }
}

pub open spec fn image_spec_result_view(res: Result<NativeImageSpec, String>) -> Result<NativeImageSpecView, Seq<char>> {
    match res {
        Ok(s) => Ok(s@),
        Err(e) => Err(e@),
    }
}

/// `resolve_native_image_spec` by name: the first stored record whose full
/// reference or `repository:tag` is `image`, then `load(i)` reads record `i`'s
/// configuration. A name that matches no record gives the not-available
/// error, and `load` is not called.
pub fn resolve_native_image_named<F>(
    images: &Vec<StoredImageRecord>,
    image: &str,
    override_given: bool,
    load: F,
) -> (res: Result<NativeImageSpec, String>) where F: Fn(usize) -> Result<RuntimeConfig, String>
    requires
        forall|i: usize| i < images.len() ==> call_requires(load, (i,)),
    ensures
        match named_record(images@, image@) {
            None => res matches Err(e) && e@ == unavailable_message(image@),
            Some(i) => exists|out: Result<RuntimeConfig, String>|
                #[trigger] call_ensures(load, (i as usize,), out) && image_spec_result_view(res)
                    == image_spec_outcome(out, override_given),
        },
{
    match find_stored_image(images, image) {
        Err(_) => Err(image_unavailable_message(image)),
        Ok(i) => {
            proof {
                lemma_first_where_some(
                    store_views(images@),
                    |r: StoredImageRecordView| crate::store::names_image(r, image@),
                );
            }
            let out = load(i);
            let ghost g = out;
            let res = match out {
                Ok(config) => Ok(resolve_native_image_spec(&config, override_given)),
                Err(e) => Err(e),
            };
            assert(call_ensures(load, (i,), g));
            assert(image_spec_result_view(res) == image_spec_outcome(g, override_given));
            assert((i as int) as usize == i);
            res
        },
    }
}

/// A fresh container id: the prefix and the launch time in nanoseconds, in hex.
pub fn native_container_id(nanos: u128) -> (res: String)
    ensures
        res@ == native_prefix() + hex(nanos as nat),
{
    proof {
        reveal_strlit("native-");
    }
    assert("native-"@ =~= native_prefix());
    let h = string_of(&u128_to_hex_chars(nanos));
    concat_str("native-", h.as_str())
}

/// The name a container gets when none was asked for.
pub open spec fn default_native_name(id: Seq<char>) -> Seq<char> {
    native_prefix() + take_chars(id.skip(7), 8)
}

pub open spec fn opt_trim_of(v: Option<Seq<char>>) -> Option<Seq<char>> {
    match v {
        Some(t) => opt_trimmed(t),
        None => None,
    }
}

/// The command a new record runs: the override, else the image's.
pub open spec fn record_command(req: RunRequestView, image: NativeImageSpecView) -> Option<Seq<char>> {
    match opt_trim_of(req.command_override) {
        Some(c) => Some(c),
        None => image.command,
    }
}

/// A new record for `req`, when it has a command to run.
pub open spec fn new_record_spec(
    id: Seq<char>,
    req: RunRequestView,
    image: NativeImageSpecView,
    command: Seq<char>,
    now: u64,
    log_path: Seq<char>,
    exit_code_path: Seq<char>,
) -> NativeContainerRecordView {
    NativeContainerRecordView {
        id,
        name: match opt_trim_of(req.container_name) {
            Some(n) => n,
            None => default_native_name(id),
        },
        image: req.image,
        state: "created"@,
        status: "Created (native)"@,
        ports: port_mappings_spec(req.ports),
        env: image.env + line_items_spec(req.env_vars),
        volumes: line_items_spec(req.volume_mounts),
        command,
        entrypoint: image.entrypoint,
        working_dir: image.working_dir,
        user: image.user,
        restart_policy: match req.restart_policy {
            Some(p) => p,
            None => "no"@,
        },
        auto_remove: req.auto_remove,
        pid: None,
        created_at_epoch: now,
        started_at_epoch: None,
        finished_at_epoch: None,
        last_exit_code: None,
        log_path,
        exit_code_path,
    }
}

fn opt_str(v: &Option<String>) -> (res: Option<&str>)
    ensures
        match res {
            Some(t) => v.deep_view() == Some(t@),
            None => v is None,
        },
{
    match v {
        Some(t) => Some(t.as_str()),
        None => None,
    }
}

fn trimmed_of(v: &Option<String>) -> (res: Option<String>)
    ensures
        res.deep_view() == opt_trim_of(v.deep_view()),
{
    match v {
        Some(t) => trimmed_option(t.as_str()),
        None => None,
    }
}

/// The record `run_native_container_entry` creates for a run, before launch.
pub fn new_native_record(
    id: &str,
    req: &RunRequest,
    image: &NativeImageSpec,
    now: u64,
    log_path: String,
    exit_code_path: String,
) -> (res: Result<NativeContainerRecord, String>)
    requires
        starts_with(id@, native_prefix()),
    ensures
        match res {
            Ok(r) => record_command(req@, image@) matches Some(c) && r@ == new_record_spec(
                id@,
                req@,
                image@,
                c,
                now,
                log_path@,
                exit_code_path@,
            ),
            Err(e) => record_command(req@, image@) is None
                && e@ == "native runtime needs a command override or an image CMD/ENTRYPOINT"@,
        },
{
    let command = match trimmed_of(&req.command_override) {
        Some(c) => c,
        None => match &image.command {
            Some(c) => c.clone(),
            None => {
                return Err(
                    String::from_str(
                        "native runtime needs a command override or an image CMD/ENTRYPOINT",
                    ),
                );
            },
        },
    };
    let name = match trimmed_of(&req.container_name) {
        Some(n) => n,
        None => {
            let chars = chars_of(id);
            let rest = slice_chars(&chars, 7, chars.len());
            assert(rest@ =~= id@.skip(7));
            let short = string_of(&take_prefix(&rest, 8));
            proof {
                reveal_strlit("native-");
            }
            assert("native-"@ =~= native_prefix());
            concat_str("native-", short.as_str())
        },
    };
    let env_lines = parse_env_assignments(opt_str(&req.env_vars));
    let env = append_strings(&image.env, &env_lines);
    let restart_policy = match &req.restart_policy {
        Some(p) => p.clone(),
        None => String::from_str("no"),
    };
    Ok(
        NativeContainerRecord {
            id: String::from_str(id),
            name,
            image: req.image.clone(),
            state: String::from_str("created"),
            status: String::from_str("Created (native)"),
            ports: parse_port_mappings(opt_str(&req.ports)),
            env,
            volumes: parse_volume_mounts(opt_str(&req.volume_mounts)),
            command,
            entrypoint: image.entrypoint.clone(),
            working_dir: image.working_dir.clone(),
            user: image.user.clone(),
            restart_policy,
            auto_remove: req.auto_remove,
            pid: None,
            created_at_epoch: now,
            started_at_epoch: None,
            finished_at_epoch: None,
            last_exit_code: None,
            log_path,
            exit_code_path,
        },
    )
}


/// The records after `record` is saved: any record with its id replaced, it last.
pub open spec fn insert_spec(
    rs: Seq<NativeContainerRecordView>,
    r: NativeContainerRecordView,
) -> Seq<NativeContainerRecordView> {
    rs.filter(|x: NativeContainerRecordView| x.id != r.id).push(r)
}

pub fn insert_native_record(state: &mut NativeRuntimeState, record: NativeContainerRecord)
    ensures
        final(state)@ == insert_spec(old(state)@, record@),
{
    broadcast use vstd::seq::Seq::lemma_filter_push;

    let ghost rs = state@;
    let ghost pred = |x: NativeContainerRecordView| x.id != record@.id;
    let mut kept: Vec<NativeContainerRecord> = Vec::new();
    let mut i: usize = 0;
    reveal_with_fuel(Seq::filter, 1);
    assert(rs.take(0).filter(pred) =~= Seq::<NativeContainerRecordView>::empty());
    assert(record_views(kept@) =~= Seq::<NativeContainerRecordView>::empty());
    while i < state.containers.len()
        invariant
            i <= state.containers.len(),
            rs == state@,
            pred == (|x: NativeContainerRecordView| x.id != record@.id),
            record_views(kept@) == rs.take(i as int).filter(pred),
        decreases state.containers.len() - i,
    {
        assert(rs.take(i + 1) =~= rs.take(i as int).push(rs[i as int]));
        proof {
            rs.take(i as int).lemma_filter_push(rs[i as int], pred);
        }
        let same = str_eq(state.containers[i].id.as_str(), record.id.as_str());
        if !same {
            let ghost before = record_views(kept@);
            kept.push(state.containers[i].clone());
            assert(record_views(kept@) =~= before.push(rs[i as int]));
        }
        i = i + 1;
    }
    assert(rs.take(state.containers.len() as int) =~= rs);
    let ghost before = record_views(kept@);
    kept.push(record);
    assert(record_views(kept@) =~= before.push(record@));
    state.containers = kept;
}

/// After a record is saved, it is the one found under its id.
pub proof fn law_insert_then_find(rs: Seq<NativeContainerRecordView>, r: NativeContainerRecordView)
    ensures
        find_native_spec(insert_spec(rs, r), r.id) == Some(
            (insert_spec(rs, r).len() - 1) as int,
        ),
        insert_spec(rs, r).last() == r,
{
    let pred = |x: NativeContainerRecordView| x.id != r.id;
    let s = insert_spec(rs, r);
    assert forall|j: int| 0 <= j < s.len() - 1 implies (#[trigger] s[j]).id != r.id by {
        rs.lemma_filter_pred(pred, j);
    }
    lemma_first_where(s, |x: NativeContainerRecordView| x.id == r.id, s.len() - 1);
}

/// Position of the first record with the given id.
pub open spec fn find_native_spec(rs: Seq<NativeContainerRecordView>, id: Seq<char>) -> Option<int> {
    first_where(rs, |x: NativeContainerRecordView| x.id == id)
}

pub fn find_native_index(state: &NativeRuntimeState, id: &str) -> (res: Option<usize>)
    ensures
        match res {
            Some(i) => find_native_spec(state@, id@) == Some(i as int),
            None => find_native_spec(state@, id@) is None,
        },
{
    let ghost p = |x: NativeContainerRecordView| x.id == id@;
    let mut i: usize = 0;
    while i < state.containers.len()
        invariant
            i <= state.containers.len(),
            p == (|x: NativeContainerRecordView| x.id == id@),
            forall|j: int| 0 <= j < i ==> !p(#[trigger] state@[j]),
        decreases state.containers.len() - i,
    {
        if str_eq(state.containers[i].id.as_str(), id) {
            proof {
                lemma_first_where(state@, p, i as int);
            }
            return Some(i);
        }
        i = i + 1;
    }
    proof {
        lemma_first_where(state@, p, i as int);
    }
    None
}

/// The message for an id that no record has.
pub open spec fn native_not_found(id: Seq<char>) -> Seq<char> {
    "native container `"@ + id + "` was not found"@
}

pub fn native_not_found_message(id: &str) -> (res: String)
    ensures
        res@ == native_not_found(id@),
{
    concat3("native container `", id, "` was not found")
}

/// Takes the record with the given id out (`remove_native_container_record`).
pub fn remove_native_record(state: &mut NativeRuntimeState, id: &str) -> (res: Result<
    NativeContainerRecord,
    String,
>)
    ensures
        match find_native_spec(old(state)@, id@) {
            Some(i) => res matches Ok(r) && r@ == old(state)@[i] && final(state)@ == old(
                state,
            )@.remove(i),
            None => res matches Err(e) && e@ == native_not_found(id@) && final(state)@ == old(
                state,
            )@,
        },
{
    match find_native_index(state, id) {
        Some(i) => {
            proof {
                crate::order::lemma_first_where_some(
                    state@,
                    |x: NativeContainerRecordView| x.id == id@,
                );
            }
            let ghost before = state.containers@;
            let r = state.containers.remove(i);
            assert(state@ =~= record_views(before).remove(i as int));
            Ok(r)
        },
        None => Err(native_not_found_message(id)),
    }
}

/// How a record is listed.
pub open spec fn native_info_spec(r: NativeContainerRecordView) -> ContainerInfoView {
    ContainerInfoView {
        id: r.id,
        name: r.name,
        image: r.image,
        state: r.state,
        status: r.status,
        ports: ports_text(r.ports),
        runtime: "native"@,
    }
}

pub fn native_container_info(r: &NativeContainerRecord) -> (res: ContainerInfo)
    ensures
        res@ == native_info_spec(r@),
{
    ContainerInfo {
        id: r.id.clone(),
        name: r.name.clone(),
        image: r.image.clone(),
        state: r.state.clone(),
        status: r.status.clone(),
        ports: render_native_ports(&r.ports),
        runtime: String::from_str("native"),
    }
}

/// `list_native_containers`, once the state is refreshed.
pub fn list_native_containers(state: &NativeRuntimeState) -> (res: Vec<ContainerInfo>)
    ensures
        res@.map_values(|c: ContainerInfo| c@) == state@.map_values(
            |r: NativeContainerRecordView| native_info_spec(r),
        ),
{
    let mut res: Vec<ContainerInfo> = Vec::new();
    let mut i: usize = 0;
    while i < state.containers.len()
        invariant
            i <= state.containers.len(),
            res@.map_values(|c: ContainerInfo| c@) =~= state@.map_values(
                |r: NativeContainerRecordView| native_info_spec(r),
            ).take(i as int),
        decreases state.containers.len() - i,
    {
        let c = native_container_info(&state.containers[i]);
        let ghost before = res@.map_values(|c: ContainerInfo| c@);
        res.push(c);
        assert(res@.map_values(|c: ContainerInfo| c@) =~= before.push(
            native_info_spec(state@[i as int]),
        ));
        assert(state@.map_values(|r: NativeContainerRecordView| native_info_spec(r)).take(i + 1)
            =~= state@.map_values(|r: NativeContainerRecordView| native_info_spec(r)).take(
            i as int,
        ).push(native_info_spec(state@[i as int])));
        i = i + 1;
    }
    res
}

/// How a record is inspected.
pub open spec fn native_details_spec(r: NativeContainerRecordView) -> ContainerDetailsInfoView {
    ContainerDetailsInfoView {
        id: r.id,
        name: r.name,
        image: r.image,
        command: r.command,
        entrypoint: r.entrypoint,
        created: dec(r.created_at_epoch as nat),
        status: r.status,
        ports: ports_text(r.ports),
        ip_address: "host"@,
        working_dir: r.working_dir,
        user: r.user,
        restart_policy: r.restart_policy,
        runtime: "native"@,
        env: r.env,
        labels: seq![
            ("runtime"@, "native-prototype"@),
            ("ports"@, "metadata-only unless the host process binds them"@),
        ],
    }
}

pub fn native_container_details(r: &NativeContainerRecord) -> (res: ContainerDetailsInfo)
    ensures
        res@ == native_details_spec(r@),
{
    let mut labels: Vec<(String, String)> = Vec::new();
    labels.push((String::from_str("runtime"), String::from_str("native-prototype")));
    labels.push(
        (
            String::from_str("ports"),
            String::from_str("metadata-only unless the host process binds them"),
        ),
    );
    let res = ContainerDetailsInfo {
        id: r.id.clone(),
        name: r.name.clone(),
        image: r.image.clone(),
        command: r.command.clone(),
        entrypoint: r.entrypoint.clone(),
        created: number_text(r.created_at_epoch),
        status: r.status.clone(),
        ports: render_native_ports(&r.ports),
        ip_address: String::from_str("host"),
        working_dir: r.working_dir.clone(),
        user: r.user.clone(),
        restart_policy: r.restart_policy.clone(),
        runtime: String::from_str("native"),
        env: clone_strings(&r.env),
        labels,
    };
    assert(res@.labels =~= native_details_spec(r@).labels);
    res
}


pub open spec fn is_digit(c: char) -> bool {
    '0' <= c && c <= '9'
}

/// The number written by a run of decimal digits.
pub open spec fn digits_value(s: Seq<char>) -> nat
    decreases s.len(),
{
    if s.len() == 0 {
        0
    } else {
        digits_value(s.drop_last()) * 10 + (s.last() as int - 48) as nat
    }
}

/// The digits of an unsigned number: an optional leading `+` dropped.
pub open spec fn unsigned_digits(s: Seq<char>) -> Seq<char> {
    if s.len() > 0 && s[0] == '+' {
        s.drop_first()
    } else {
        s
    }
}

/// `str::parse::<u64>`: an optional `+`, then one or more ASCII digits whose
/// value fits in 64 bits.
pub open spec fn parse_u64_spec(s: Seq<char>) -> Option<u64> {
    let d = unsigned_digits(s);
    if d.len() > 0 && (forall|i: int| 0 <= i < d.len() ==> is_digit(#[trigger] d[i]))
        && digits_value(d) <= u64::MAX {
        Some(digits_value(d) as u64)
    } else {
        None
    }
}

proof fn lemma_digits_value_grows(d: Seq<char>, k: int)
    requires
        0 <= k <= d.len(),
        forall|i: int| 0 <= i < d.len() ==> is_digit(#[trigger] d[i]),
    ensures
        digits_value(d.take(k)) <= digits_value(d),
    decreases d.len(),
{
    if k < d.len() {
        assert(d.drop_last().take(k) =~= d.take(k));
        assert forall|i: int| 0 <= i < d.drop_last().len() implies is_digit(
            #[trigger] d.drop_last()[i],
        ) by {
            assert(d.drop_last()[i] == d[i]);
        }
        lemma_digits_value_grows(d.drop_last(), k);
    } else {
        assert(d.take(k) =~= d);
    }
}

pub fn parse_u64_text(s: &str) -> (res: Option<u64>)
    ensures
        res == parse_u64_spec(s@),
{
    let chars = chars_of(s);
    let start: usize = if chars.len() > 0 && chars[0] == '+' {
        1
    } else {
        0
    };
    let d = slice_chars(&chars, start, chars.len());
    assert(d@ =~= unsigned_digits(s@));
    if d.len() == 0 {
        return None;
    }
    let mut i: usize = 0;
    while i < d.len()
        invariant
            i <= d.len(),
            d@ == unsigned_digits(s@),
            forall|j: int| 0 <= j < i ==> is_digit(#[trigger] d@[j]),
        decreases d.len() - i,
    {
        if !('0' <= d[i] && d[i] <= '9') {
            assert(!is_digit(d@[i as int]));
            return None;
        }
        i = i + 1;
    }
    let mut v: u64 = 0;
    let mut k: usize = 0;
    assert(d@.take(0) =~= Seq::<char>::empty());
    while k < d.len()
        invariant
            k <= d.len(),
            d.len() > 0,
            d@ == unsigned_digits(s@),
            forall|j: int| 0 <= j < d.len() ==> is_digit(#[trigger] d@[j]),
            v == digits_value(d@.take(k as int)),
        decreases d.len() - k,
    {
        assert(d@.take(k + 1).drop_last() =~= d@.take(k as int));
        assert(d@.take(k + 1).last() == d@[k as int]);
        assert(is_digit(d@[k as int]));
        let digit = ((d[k] as u32) - 48) as u64;
        assert(digit == d@[k as int] as int - 48);
        assert(digits_value(d@.take(k + 1)) == v * 10 + digit);
        proof {
            lemma_digits_value_grows(d@, k + 1);
        }
        match v.checked_mul(10) {
            Some(m) => match m.checked_add(digit) {
                Some(n) => {
                    v = n;
                },
                None => {
                    return None;
                },
            },
            None => {
                return None;
            },
        }
        k = k + 1;
    }
    assert(d@.take(d.len() as int) =~= d@);
    Some(v)
}

/// The lines of a text that hold more than whitespace, unchanged.
pub open spec fn kept_lines(t: Seq<char>) -> Seq<Seq<char>> {
    lines(t).filter(|l: Seq<char>| trim(l).len() > 0)
}

pub fn nonblank_lines_of(t: &str) -> (res: Vec<String>)
    ensures
        res.deep_view() == kept_lines(t@),
{
    broadcast use vstd::seq::Seq::lemma_filter_push;

    let chars = chars_of(t);
    let ls = lines_chars(&chars);
    let ghost all = lines(t@);
    let ghost pred = |l: Seq<char>| trim(l).len() > 0;
    let mut res: Vec<String> = Vec::new();
    let mut i: usize = 0;
    reveal_with_fuel(Seq::filter, 1);
    assert(all.take(0).filter(pred) =~= Seq::<Seq<char>>::empty());
    while i < ls.len()
        invariant
            i <= ls.len(),
            ls.deep_view() == all,
            all == lines(t@),
            pred == (|l: Seq<char>| trim(l).len() > 0),
            res.deep_view() == all.take(i as int).filter(pred),
        decreases ls.len() - i,
    {
        let line = trim_chars(&ls[i]);
        assert(ls.deep_view()[i as int] == ls@[i as int]@);
        assert(all.take(i + 1) =~= all.take(i as int).push(all[i as int]));
        proof {
            all.take(i as int).lemma_filter_push(all[i as int], pred);
        }
        if line.len() > 0 {
            let ghost old_res = res.deep_view();
            res.push(string_of(&ls[i]));
            assert(res.deep_view() =~= old_res.push(all[i as int]));
        }
        i = i + 1;
    }
    assert(all.take(ls.len() as int) =~= all);
    res
}

/// The last `n` entries of `s` (all of them where there are fewer).
pub open spec fn last_n<T>(s: Seq<T>, n: nat) -> Seq<T> {
    if s.len() > n {
        s.skip(s.len() - n)
    } else {
        s
    }
}

/// The lines a container's log shows: its last 200 nonblank lines.
pub open spec fn log_tail_spec(t: Seq<char>) -> Seq<Seq<char>> {
    last_n(kept_lines(t), 200)
}

pub fn fetch_native_container_logs_lines(text: &str) -> (res: Vec<String>)
    ensures
        res.deep_view() == log_tail_spec(text@),
{
    let all = nonblank_lines_of(text);
    if all.len() <= 200 {
        return all;
    }
    let start = all.len() - 200;
    let mut res: Vec<String> = Vec::new();
    let mut i = start;
    while i < all.len()
        invariant
            start == all.len() - 200,
            start <= i <= all.len(),
            res.deep_view() =~= all.deep_view().subrange(start as int, i as int),
        decreases all.len() - i,
    {
        let ghost before = res.deep_view();
        res.push(all[i].clone());
        assert(res.deep_view() =~= before.push(all.deep_view()[i as int]));
        i = i + 1;
    }
    assert(all.deep_view().subrange(start as int, all.len() as int) =~= all.deep_view().skip(
        start as int,
    ));
    res
}

/// How many leading lines two lists share.
pub open spec fn shared_prefix_len(a: Seq<Seq<char>>, b: Seq<Seq<char>>) -> nat
    decreases a.len(),
{
    if a.len() == 0 || b.len() == 0 || a[0] != b[0] {
        0
    } else {
        1 + shared_prefix_len(a.drop_first(), b.drop_first())
    }
}

proof fn lemma_shared_prefix_len(a: Seq<Seq<char>>, b: Seq<Seq<char>>, k: int)
    requires
        0 <= k <= a.len(),
        k <= b.len(),
        forall|j: int| 0 <= j < k ==> a[j] == b[j],
        k == a.len() || k == b.len() || a[k] != b[k],
    ensures
        shared_prefix_len(a, b) == k,
    decreases k,
{
    if k > 0 {
        assert forall|j: int| 0 <= j < k - 1 implies a.drop_first()[j] == b.drop_first()[j] by {
            assert(a[j + 1] == b[j + 1]);
        }
        if k < a.len() && k < b.len() {
            assert(a.drop_first()[k - 1] == a[k]);
            assert(b.drop_first()[k - 1] == b[k]);
        }
        lemma_shared_prefix_len(a.drop_first(), b.drop_first(), k - 1);
        assert(a[0] == b[0]);
    }
}

/// The lines of a new poll of a log to show after the previous poll:
/// all of them the first time, else those past the part both polls share.
pub open spec fn new_lines_spec(previous: Seq<Seq<char>>, current: Seq<Seq<char>>) -> Seq<
    Seq<char>,
> {
    if previous.len() == 0 {
        current
    } else if current == previous {
        Seq::empty()
    } else {
        current.skip(shared_prefix_len(previous, current) as int)
    }
}

pub fn new_log_lines(previous: &Vec<String>, current: &Vec<String>) -> (res: Vec<String>)
    ensures
        res.deep_view() == new_lines_spec(previous.deep_view(), current.deep_view()),
{
    if previous.len() == 0 {
        return clone_strings(current);
    }
    let ghost a = previous.deep_view();
    let ghost b = current.deep_view();
    let mut k: usize = 0;
    while k < previous.len() && k < current.len() && str_eq(
        previous[k].as_str(),
        current[k].as_str(),
    )
        invariant
            k <= previous.len(),
            k <= current.len(),
            a == previous.deep_view(),
            b == current.deep_view(),
            forall|j: int| 0 <= j < k ==> a[j] == b[j],
        decreases previous.len() - k,
    {
        k = k + 1;
    }
    proof {
        if k < previous.len() && k < current.len() {
            assert(a[k as int] == previous@[k as int]@);
            assert(b[k as int] == current@[k as int]@);
        }
        lemma_shared_prefix_len(a, b, k as int);
    }
    if k == previous.len() && k == current.len() {
        assert(a =~= b);
        return Vec::new();
    }
    assert(a != b) by {
        if a == b {
            assert(a.len() == b.len());
            assert(a[k as int] == b[k as int]);
        }
    }
    let mut res: Vec<String> = Vec::new();
    let mut i = k;
    while i < current.len()
        invariant
            k <= i <= current.len(),
            b == current.deep_view(),
            res.deep_view() =~= b.subrange(k as int, i as int),
        decreases current.len() - i,
    {
        let ghost before = res.deep_view();
        res.push(current[i].clone());
        assert(res.deep_view() =~= before.push(b[i as int]));
        i = i + 1;
    }
    assert(b.subrange(k as int, b.len() as int) =~= b.skip(k as int));
    res
}

/// Where a poll adds lines at the end of what was shown, exactly the added
/// lines are shown next; where nothing changed, nothing is.
pub proof fn law_new_lines_are_the_appended_ones(
    previous: Seq<Seq<char>>,
    added: Seq<Seq<char>>,
)
    requires
        previous.len() > 0,
    ensures
        new_lines_spec(previous, previous + added) == added,
        new_lines_spec(previous, previous) == Seq::<Seq<char>>::empty(),
{
    let cur = previous + added;
    if added.len() == 0 {
        assert(cur =~= previous);
    } else {
        assert(cur != previous) by {
            assert(cur.len() != previous.len());
        }
        lemma_shared_prefix_len(previous, cur, previous.len() as int);
        assert(cur.skip(previous.len() as int) =~= added);
    }
}

/// The error that `run_native_container_entry` raises for a container whose
/// process already exited with a failure once it was launched.
pub open spec fn immediate_exit_spec(r: NativeContainerRecordView) -> Option<Seq<char>> {
    match r.last_exit_code {
        Some(code) => if is_exited(r.state) && code != 0 {
            Some(
                "native process exited immediately with code "@ + dec_signed(code as int)
                    + ". Check logs for `"@ + r.name + "`."@,
            )
        } else {
            None
        },
        None => None,
    }
}

pub fn immediate_exit_error(r: &NativeContainerRecord) -> (res: Option<String>)
    ensures
        res.deep_view() == immediate_exit_spec(r@),
{
    match r.last_exit_code {
        Some(code) => {
            if state_is_exited(r.state.as_str()) && code != 0 {
                let n = string_of(&i32_to_chars(code));
                let a = concat3(
                    "native process exited immediately with code ",
                    n.as_str(),
                    ". Check logs for `",
                );
                Some(concat3(a.as_str(), r.name.as_str(), "`."))
            } else {
                None
            }
        },
        None => None,
    }
}

/// What the memory column shows for a process of `rss_kb` kilobytes.
pub open spec fn rss_bytes(rss_kb: u64) -> nat {
    if rss_kb * 1024 > u64::MAX {
        u64::MAX as nat
    } else {
        (rss_kb * 1024) as nat
    }
}

/// The first line of `ps` output that holds more than whitespace, trimmed.
pub open spec fn first_nonblank_line(t: Seq<char>) -> Seq<char> {
    match first_where(lines(t), |l: Seq<char>| trim(l).len() > 0) {
        Some(i) => trim(lines(t)[i]),
        None => Seq::empty(),
    }
}

/// The CPU and resident-memory columns of a `ps -o %cpu=,rss=` line.
pub open spec fn ps_fields(line: Seq<char>) -> (Seq<char>, u64) {
    let parts = tokens(line, Sep::Whitespace);
    let cpu = if parts.len() > 0 {
        parts[0]
    } else {
        "-"@
    };
    let rss = if parts.len() > 1 {
        match parse_u64_spec(parts[1]) {
            Some(v) => v,
            None => 0,
        }
    } else {
        0
    };
    (cpu, rss)
}

/// The stats of a native container: from the `ps` output of its process
/// where that process runs, else those of a stopped process.
pub open spec fn native_stats_spec(id: Seq<char>, ps_output: Option<Seq<char>>) -> ContainerStatsInfoView {
    match ps_output {
        Some(out) => {
            let (cpu, rss) = ps_fields(first_nonblank_line(out));
            ContainerStatsInfoView {
                container_id: id,
                cpu_percent: if cpu == "-"@ {
                    "-"@
                } else {
                    cpu + "%"@
                },
                memory_usage: format_bytes_spec(rss_bytes(rss)),
                memory_percent: "-"@,
                net_io: "-"@,
                block_io: "-"@,
                pids: "1"@,
            }
        },
        None => ContainerStatsInfoView {
            container_id: id,
            cpu_percent: "0%"@,
            memory_usage: "0 B"@,
            memory_percent: "-"@,
            net_io: "-"@,
            block_io: "-"@,
            pids: "0"@,
        },
    }
}

fn first_nonblank_trimmed(t: &str) -> (res: String)
    ensures
        res@ == first_nonblank_line(t@),
{
    let chars = chars_of(t);
    let ls = lines_chars(&chars);
    let ghost p = |l: Seq<char>| trim(l).len() > 0;
    let mut i: usize = 0;
    while i < ls.len()
        invariant
            i <= ls.len(),
            ls.deep_view() == lines(t@),
            p == (|l: Seq<char>| trim(l).len() > 0),
            forall|j: int| 0 <= j < i ==> !p(#[trigger] lines(t@)[j]),
        decreases ls.len() - i,
    {
        let line = trim_chars(&ls[i]);
        assert(ls.deep_view()[i as int] == ls@[i as int]@);
        if line.len() > 0 {
            proof {
                lemma_first_where(lines(t@), p, i as int);
            }
            return string_of(&line);
        }
        i = i + 1;
    }
    proof {
        lemma_first_where(lines(t@), p, i as int);
    }
    String::new()
}

pub fn native_stats(container_id: &str, ps_output: Option<&str>) -> (res: ContainerStatsInfo)
    ensures
        res@ == native_stats_spec(
            container_id@,
            match ps_output {
                Some(t) => Some(t@),
                None => None,
            },
        ),
{
    match ps_output {
        Some(out) => {
            let line = first_nonblank_trimmed(out);
            let parts = tokens_chars(&chars_of(line.as_str()), Sep::Whitespace);
            let cpu = if parts.len() > 0 {
                string_of(&parts[0])
            } else {
                String::from_str("-")
            };
            let rss: u64 = if parts.len() > 1 {
                let t = string_of(&parts[1]);
                match parse_u64_text(t.as_str()) {
                    Some(v) => v,
                    None => 0,
                }
            } else {
                0
            };
            proof {
                if parts.len() > 0 {
                    assert(parts.deep_view()[0] == parts@[0]@);
                }
                if parts.len() > 1 {
                    assert(parts.deep_view()[1] == parts@[1]@);
                }
            }
            let is_dash = str_eq(cpu.as_str(), "-");
            let cpu_percent = if is_dash {
                String::from_str("-")
            } else {
                concat_str(cpu.as_str(), "%")
            };
            let bytes: u64 = if rss <= u64::MAX / 1024 {
                rss * 1024
            } else {
                u64::MAX
            };
            ContainerStatsInfo {
                container_id: String::from_str(container_id),
                cpu_percent,
                memory_usage: format_bytes(bytes),
                memory_percent: String::from_str("-"),
                net_io: String::from_str("-"),
                block_io: String::from_str("-"),
                pids: String::from_str("1"),
            }
        },
        None => ContainerStatsInfo {
            container_id: String::from_str(container_id),
            cpu_percent: String::from_str("0%"),
            memory_usage: String::from_str("0 B"),
            memory_percent: String::from_str("-"),
            net_io: String::from_str("-"),
            block_io: String::from_str("-"),
            pids: String::from_str("0"),
        },
    }
}

/// The notes logged before a native run about what the runtime does not isolate.
pub open spec fn run_notes_spec(req: RunRequestView) -> Seq<Seq<char>> {
    let a = if req.ports is Some {
        seq![
            "Native runtime prototype does not virtualize ports yet; published ports are informational and rely on the process binding the host port itself."@,
        ]
    } else {
        Seq::empty()
    };
    let b = if req.volume_mounts is Some {
        seq![
            "Native runtime prototype records volume mounts for now but does not isolate or remap them yet."@,
        ]
    } else {
        Seq::empty()
    };
    a + b
}

pub fn native_run_notes(req: &RunRequest) -> (res: Vec<String>)
    ensures
        res.deep_view() == run_notes_spec(req@),
{
    let mut res: Vec<String> = Vec::new();
    if req.ports.is_some() {
        res.push(
            String::from_str(
                "Native runtime prototype does not virtualize ports yet; published ports are informational and rely on the process binding the host port itself.",
            ),
        );
    }
    let ghost a = res.deep_view();
    if req.volume_mounts.is_some() {
        res.push(
            String::from_str(
                "Native runtime prototype records volume mounts for now but does not isolate or remap them yet.",
            ),
        );
    }
    assert(res.deep_view() =~= run_notes_spec(req@));
    res
}


/// The details of the native container with the given id.
pub fn inspect_native_container_entry(state: &NativeRuntimeState, container_id: &str) -> (res: Result<
    ContainerDetailsInfo,
    String,
>)
    ensures
        match find_native_spec(state@, container_id@) {
            Some(i) => res matches Ok(d) && d@ == native_details_spec(state@[i]),
            None => res matches Err(e) && e@ == native_not_found(container_id@),
        },
{
    match find_native_index(state, container_id) {
        Some(i) => {
            proof {
                crate::order::lemma_first_where_some(
                    state@,
                    |x: NativeContainerRecordView| x.id == container_id@,
                );
            }
            Ok(native_container_details(&state.containers[i]))
        },
        None => Err(native_not_found_message(container_id)),
    }
}


/// `str::parse::<i32>`: an optional sign, then one or more ASCII digits whose
/// value fits in 32 signed bits.
pub open spec fn parse_i32_spec(s: Seq<char>) -> Option<i32> {
    if s.len() > 0 && s[0] == '-' {
        let d = s.drop_first();
        if d.len() > 0 && (forall|i: int| 0 <= i < d.len() ==> is_digit(#[trigger] d[i]))
            && digits_value(d) <= 0x8000_0000 {
            Some((-(digits_value(d) as int)) as i32)
        } else {
            None
        }
    } else {
        match parse_u64_spec(s) {
            Some(v) => if v <= 0x7fff_ffff {
                Some(v as i32)
            } else {
                None
            },
            None => None,
        }
    }
}

pub fn parse_i32_text(s: &str) -> (res: Option<i32>)
    ensures
        res == parse_i32_spec(s@),
{
    let chars = chars_of(s);
    if chars.len() > 0 && chars[0] == '-' {
        let rest = slice_chars(&chars, 1, chars.len());
        assert(rest@ =~= s@.drop_first());
        if rest.len() == 0 || rest[0] == '+' {
            assert(rest.len() > 0 ==> !is_digit(rest@[0]));
            return None;
        }
        assert(unsigned_digits(rest@) == rest@);
        let r = string_of(&rest);
        match parse_u64_text(r.as_str()) {
            Some(v) => {
                if v <= 0x8000_0000 {
                    let n: i64 = -(v as i64);
                    Some(n as i32)
                } else {
                    None
                }
            },
            None => None,
        }
    } else {
        match parse_u64_text(s) {
            Some(v) => if v <= 0x7fff_ffff {
                Some(v as i32)
            } else {
                None
            },
            None => None,
        }
    }
}

/// The exit code a launcher left in its file: the trimmed text read as a number.
pub open spec fn exit_code_spec(text: Seq<char>) -> Option<i32> {
    parse_i32_spec(trim(text))
}

pub fn parse_exit_code(text: &str) -> (res: Option<i32>)
    ensures
        res == exit_code_spec(text@),
{
    let t = trim_str(text);
    parse_i32_text(t.as_str())
}


/// Each port mapping of a run is one nonempty word: it holds neither a comma
/// nor whitespace.
pub proof fn law_port_mappings_are_words(value: Option<Seq<char>>)
    ensures
        forall|k: int|
            0 <= k < port_mappings_spec(value).len() ==> (#[trigger] port_mappings_spec(
                value,
            )[k]).len() > 0,
        forall|k: int, j: int|
            0 <= k < port_mappings_spec(value).len() && 0 <= j < port_mappings_spec(value)[k].len()
                ==> (#[trigger] port_mappings_spec(value)[k][j]) != ',' && !crate::text::is_ws(
                port_mappings_spec(value)[k][j],
            ),
{
    if let Some(t) = value {
        crate::text::lemma_tokens_free(t, Sep::CommaOrWhitespace);
    }
}

} // verus!
