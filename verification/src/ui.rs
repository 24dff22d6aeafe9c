//! Text shown by the desktop: labels, filters and port hints.

use vstd::prelude::*;
use crate::model::{ContainerInfo, ContainerInfoView, DockerImageInfo, DockerImageInfoView, NetworkInfo, NetworkInfoView, ProjectInfo, ProjectInfoView, RuntimeStatusInfo, VolumeInfo, VolumeInfoView};
use crate::order::{first_where, sorted_by_keys, sort_strings};
use crate::numfmt::{dec, usize_to_chars};
use crate::text::{after_last, after_last_chars, before_first, before_first_chars, chars_of, contains_seq, contains_chars, lemma_char_vec_deep_view, lower_all, lower_chars, lower, is_ws, trim_start, trim_end, split_by, split_chars, string_of, take_chars, take_prefix, tokens, tokens_chars, trim, trim_chars, trim_str, Sep, concat_str};

verus! {

/// The first twelve characters of a container id.
pub open spec fn shorten_id_spec(value: Seq<char>) -> Seq<char> {
    take_chars(value, 12)
}

pub fn shorten_container_id(value: &str) -> (res: String)
    ensures
        res@ == shorten_id_spec(value@),
{
    let v = chars_of(value);
    let t = take_prefix(&v, 12);
    string_of(&t)
}

/// Shortening a container id twice changes nothing more.
pub proof fn law_shorten_container_id_idempotent(value: Seq<char>)
    ensures
        shorten_id_spec(shorten_id_spec(value)) == shorten_id_spec(value),
        shorten_id_spec(value).len() <= 12,
{
}

/// The pages of the desktop.
#[derive(PartialEq, Eq, Structural, Clone, Copy, Debug)]
pub enum WorkspaceTab {
    Home,
    Projects,
    Volumes,
    Networks,
    Containers,
    Images,
    Build,
    Logs,
}

pub open spec fn workspace_title_spec(tab: WorkspaceTab) -> Seq<char> {
    match tab {
        WorkspaceTab::Home => "Home"@,
        WorkspaceTab::Projects => "Projects"@,
        WorkspaceTab::Volumes => "Volumes"@,
        WorkspaceTab::Networks => "Networks"@,
        WorkspaceTab::Containers => "Containers"@,
        WorkspaceTab::Images => "Images"@,
        WorkspaceTab::Build => "Build & Run"@,
        WorkspaceTab::Logs => "Logs"@,
    }
}

pub fn workspace_title(tab: WorkspaceTab) -> (res: String)
    ensures
        res@ == workspace_title_spec(tab),
{
    match tab {
        WorkspaceTab::Home => String::from_str("Home"),
        WorkspaceTab::Projects => String::from_str("Projects"),
        WorkspaceTab::Volumes => String::from_str("Volumes"),
        WorkspaceTab::Networks => String::from_str("Networks"),
        WorkspaceTab::Containers => String::from_str("Containers"),
        WorkspaceTab::Images => String::from_str("Images"),
        WorkspaceTab::Build => String::from_str("Build & Run"),
        WorkspaceTab::Logs => String::from_str("Logs"),
    }
}

pub open spec fn runtime_badge_spec(native_ready: bool, bridge_ready: bool) -> Seq<char> {
    if native_ready && bridge_ready {
        "Native + Docker fallback online"@
    } else if native_ready {
        "Native runtime online"@
    } else if bridge_ready {
        "Docker fallback only"@
    } else {
        "Runtime offline"@
    }
}

pub fn runtime_badge_text(status: &RuntimeStatusInfo) -> (res: String)
    ensures
        res@ == runtime_badge_spec(status.native_ready, status.bridge_ready),
{
    if status.native_ready && status.bridge_ready {
        String::from_str("Native + Docker fallback online")
    } else if status.native_ready {
        String::from_str("Native runtime online")
    } else if status.bridge_ready {
        String::from_str("Docker fallback only")
    } else {
        String::from_str("Runtime offline")
    }
}

pub open spec fn compact_runtime_detail_spec(native_ready: bool, bridge_ready: bool) -> Seq<char> {
    if bridge_ready {
        "Native first, Docker fallback ready."@
    } else if native_ready {
        "Native first, Docker fallback offline."@
    } else {
        "Runtime is currently unavailable."@
    }
}

pub fn compact_runtime_detail(status: &RuntimeStatusInfo) -> (res: String)
    ensures
        res@ == compact_runtime_detail_spec(status.native_ready, status.bridge_ready),
{
    if status.bridge_ready {
        String::from_str("Native first, Docker fallback ready.")
    } else if status.native_ready {
        String::from_str("Native first, Docker fallback offline.")
    } else {
        String::from_str("Runtime is currently unavailable.")
    }
}

/// Backslashes turned into slashes.
pub open spec fn slashes(s: Seq<char>) -> Seq<char> {
    s.map_values(|c: char| if c == '\\' { '/' } else { c })
}

/// A path shortened to its last three components when it has more.
pub open spec fn compact_path_spec(path: Seq<char>) -> Seq<char> {
    let normalized = slashes(path);
    let parts = tokens(normalized, Sep::Char('/'));
    if parts.len() <= 3 {
        normalized
    } else {
        ".../"@ + parts[parts.len() - 3] + seq!['/'] + parts[parts.len() - 2] + seq!['/']
            + parts[parts.len() - 1]
    }
}

pub fn compact_path(path: &str) -> (res: String)
    ensures
        res@ == compact_path_spec(path@),
{
    broadcast use lemma_char_vec_deep_view;

    let v = chars_of(path);
    let mut normalized: Vec<char> = Vec::new();
    let mut i: usize = 0;
    while i < v.len()
        invariant
            i <= v.len(),
            normalized@ =~= slashes(v@).take(i as int),
        decreases v.len() - i,
    {
        if v[i] == '\\' {
            normalized.push('/');
        } else {
            normalized.push(v[i]);
        }
        i = i + 1;
    }
    assert(normalized@ =~= slashes(path@));
    let parts = tokens_chars(&normalized, Sep::Char('/'));
    let n = parts.len();
    if n <= 3 {
        string_of(&normalized)
    } else {
        let mut out: Vec<char> = Vec::new();
        out.push('.');
        out.push('.');
        out.push('.');
        out.push('/');
        proof {
            reveal_strlit(".../");
        }
        assert(out@ =~= ".../"@);
        let mut k: usize = n - 3;
        while k < n
            invariant
                n == parts.len() > 3,
                n - 3 <= k <= n,
                parts.deep_view() == tokens(slashes(path@), Sep::Char('/')),
                out@ =~= if k == n - 3 {
                    ".../"@
                } else if k == n - 2 {
                    ".../"@ + parts.deep_view()[n - 3]
                } else if k == n - 1 {
                    ".../"@ + parts.deep_view()[n - 3] + seq!['/'] + parts.deep_view()[n - 2]
                } else {
                    ".../"@ + parts.deep_view()[n - 3] + seq!['/'] + parts.deep_view()[n - 2]
                        + seq!['/'] + parts.deep_view()[n - 1]
                },
            decreases n - k,
        {
            proof {
                reveal_strlit(".../");
            }
            if k > n - 3 {
                out.push('/');
            }
            let p = &parts[k];
            assert(p.deep_view() == p@);
            let mut j: usize = 0;
            let ghost base = out@;
            while j < p.len()
                invariant
                    j <= p.len(),
                    out@ =~= base + p@.take(j as int),
                decreases p.len() - j,
            {
                out.push(p[j]);
                j = j + 1;
            }
            assert(p@.take(p.len() as int) =~= p@);
            k = k + 1;
        }
        string_of(&out)
    }
}

/// `-` for blank text, the trimmed text otherwise.
pub open spec fn empty_as_dash_spec(value: Seq<char>) -> Seq<char> {
    if trim(value).len() == 0 {
        seq!['-']
    } else {
        trim(value)
    }
}

pub fn empty_as_dash(value: &str) -> (res: String)
    ensures
        res@ == empty_as_dash_spec(value@),
{
    let t = trim_str(value);
    proof {
        reveal_strlit("-");
    }
    if t.as_str().is_empty() {
        String::from_str("-")
    } else {
        t
    }
}

pub open spec fn all_ascii_digits(s: Seq<char>) -> bool {
    forall|i: int| 0 <= i < s.len() ==> '0' <= #[trigger] s[i] && s[i] <= '9'
}

pub fn is_ascii_number(s: &Vec<char>) -> (res: bool)
    ensures
        res == (s.len() > 0 && all_ascii_digits(s@)),
{
    if s.len() == 0 {
        return false;
    }
    let mut i: usize = 0;
    while i < s.len()
        invariant
            i <= s.len(),
            forall|k: int| 0 <= k < i ==> '0' <= #[trigger] s@[k] && s@[k] <= '9',
        decreases s.len() - i,
    {
        if !('0' <= s[i] && s[i] <= '9') {
            return false;
        }
        i = i + 1;
    }
    true
}

/// The host port of a published mapping such as `0.0.0.0:8080->80/tcp`: what
/// follows the last `:` before `->`, when it is a number.
pub open spec fn host_port_of(mapping: Seq<char>) -> Option<Seq<char>> {
    let left = trim(before_first(mapping, "->"@));
    let port = trim(after_last(left, ':'));
    if port.len() == 0 || !all_ascii_digits(port) {
        None
    } else {
        Some(port)
    }
}

pub fn host_port(mapping: &Vec<char>) -> (res: Option<Vec<char>>)
    ensures
        res.deep_view() == host_port_of(mapping@),
{
    broadcast use lemma_char_vec_deep_view;

    let mut arrow: Vec<char> = Vec::new();
    arrow.push('-');
    arrow.push('>');
    proof {
        reveal_strlit("->");
    }
    assert(arrow@ =~= "->"@);
    let left0 = before_first_chars(mapping, &arrow);
    let left = trim_chars(&left0);
    let port0 = after_last_chars(&left, ':');
    let port = trim_chars(&port0);
    if is_ascii_number(&port) {
        assert(port.deep_view() == port@);
        Some(port)
    } else {
        None
    }
}

/// The host ports of a comma-separated list of published mappings.
pub open spec fn used_host_ports_spec(value: Seq<char>) -> Seq<Seq<char>> {
    split_by(value, Sep::Char(',')).filter(|m: Seq<char>| host_port_of(m) is Some).map_values(
        |m: Seq<char>| host_port_of(m).unwrap(),
    )
}

pub fn used_host_ports(value: &str) -> (res: Vec<String>)
    ensures
        res.deep_view() == used_host_ports_spec(value@),
{
    broadcast use lemma_char_vec_deep_view;
    broadcast use vstd::seq::Seq::lemma_filter_push;

    let v = chars_of(value);
    let pieces = split_chars(&v, Sep::Char(','));
    let ghost pv = pieces.deep_view();
    let ghost pred = |m: Seq<char>| host_port_of(m) is Some;
    let ghost f = |m: Seq<char>| host_port_of(m).unwrap();
    let mut out: Vec<String> = Vec::new();
    let mut i: usize = 0;
    reveal_with_fuel(Seq::filter, 1);
    assert(pv.take(0).filter(pred) =~= Seq::<Seq<char>>::empty());
    while i < pieces.len()
        invariant
            i <= pieces.len(),
            pv == pieces.deep_view(),
            pv == split_by(value@, Sep::Char(',')),
            pred == (|m: Seq<char>| host_port_of(m) is Some),
            f == (|m: Seq<char>| host_port_of(m).unwrap()),
            out.deep_view() =~= pv.take(i as int).filter(pred).map_values(f),
        decreases pieces.len() - i,
    {
        assert(pv.take(i + 1) =~= pv.take(i as int).push(pv[i as int]));
        assert(pieces@[i as int].deep_view() == pieces@[i as int]@);
        let ghost before = out.deep_view();
        proof {
            pv.take(i as int).lemma_filter_push(pv[i as int], pred);
        }
        match host_port(&pieces[i]) {
            Some(p) => {
                let s = string_of(&p);
                assert(p.deep_view() == p@);
                out.push(s);
                assert(out.deep_view() =~= before.push(f(pv[i as int])));
                assert(pv.take(i as int).filter(pred).push(pv[i as int]).map_values(f) =~= pv.take(
                    i as int,
                ).filter(pred).map_values(f).push(f(pv[i as int])));
            },
            None => {},
        }
        i = i + 1;
    }
    assert(pv.take(pieces.len() as int) =~= pv);
    out
}

/// The local URL of a host port.
pub open spec fn local_url(port: Seq<char>) -> Seq<char> {
    "http://localhost:"@ + port + seq!['/']
}

/// Neighbouring duplicates removed (`Vec::dedup`).
pub open spec fn dedup_spec(s: Seq<Seq<char>>) -> Seq<Seq<char>>
    decreases s.len(),
{
    if s.len() == 0 {
        s
    } else {
        let r = dedup_spec(s.drop_last());
        if s.len() > 1 && s[s.len() - 2] == s.last() {
            r
        } else {
            r.push(s.last())
        }
    }
}

pub open spec fn text_keys(s: Seq<Seq<char>>) -> Seq<(Seq<char>, Seq<char>)> {
    s.map_values(|x: Seq<char>| (x, Seq::<char>::empty()))
}

/// The distinct local URLs of the published host ports, sorted.
pub open spec fn published_urls_spec(value: Seq<char>) -> Seq<Seq<char>> {
    let urls = used_host_ports_spec(value).map_values(|p: Seq<char>| local_url(p));
    dedup_spec(sorted_by_keys(text_keys(urls), urls))
}

pub fn dedup_strings(v: &Vec<String>) -> (res: Vec<String>)
    ensures
        res.deep_view() == dedup_spec(v.deep_view()),
{
    let ghost vv = v.deep_view();
    let mut out: Vec<String> = Vec::new();
    let mut i: usize = 0;
    while i < v.len()
        invariant
            i <= v.len(),
            vv == v.deep_view(),
            out.deep_view() == dedup_spec(vv.take(i as int)),
        decreases v.len() - i,
    {
        assert(vv.take(i + 1).drop_last() =~= vv.take(i as int));
        let ghost before = out.deep_view();
        let dup = i > 0 && crate::text::str_eq(v[i - 1].as_str(), v[i].as_str());
        if !dup {
            out.push(v[i].clone());
            assert(out.deep_view() =~= before.push(vv[i as int]));
        }
        i = i + 1;
    }
    assert(vv.take(v.len() as int) =~= vv);
    out
}

/// `published_urls`: a browser URL for each published host port.
pub fn published_urls(value: &str) -> (res: Vec<String>)
    ensures
        res.deep_view() == published_urls_spec(value@),
{
    let ports = used_host_ports(value);
    let mut urls: Vec<String> = Vec::new();
    let mut i: usize = 0;
    while i < ports.len()
        invariant
            i <= ports.len(),
            urls.deep_view() =~= ports.deep_view().take(i as int).map_values(
                |p: Seq<char>| local_url(p),
            ),
        decreases ports.len() - i,
    {
        proof {
            reveal_strlit("/");
        }
        let mut u = String::from_str("http://localhost:");
        u.append(ports[i].as_str());
        u.append("/");
        assert(u@ =~= local_url(ports@[i as int]@));
        let ghost before = urls.deep_view();
        urls.push(u);
        assert(urls.deep_view() =~= before.push(local_url(ports@[i as int]@)));
        i = i + 1;
    }
    assert(ports.deep_view().take(ports.len() as int) =~= ports.deep_view());
    let sorted = sort_strings(&urls);
    assert(urls.deep_view().map_values(|s: Seq<char>| (s, Seq::<char>::empty())) =~= text_keys(
        urls.deep_view(),
    ));
    dedup_strings(&sorted)
}


/// `"{total} total"`, or `"{filtered} shown of {total}"` when a filter hides rows.
pub open spec fn filtered_total_label_spec(filtered: nat, total: nat) -> Seq<char> {
    if filtered == total {
        dec(total) + " total"@
    } else {
        dec(filtered) + " shown of "@ + dec(total)
    }
}

pub fn filtered_total_label(filtered: usize, total: usize) -> (res: String)
    ensures
        res@ == filtered_total_label_spec(filtered as nat, total as nat),
{
    let t = string_of(&usize_to_chars(total));
    if filtered == total {
        concat_str(t.as_str(), " total")
    } else {
        let f = string_of(&usize_to_chars(filtered));
        let mut s = concat_str(f.as_str(), " shown of ");
        s.append(t.as_str());
        s
    }
}

/// The filter text as matched: trimmed and lower-cased.
pub open spec fn normalize_filter_spec(value: Seq<char>) -> Seq<char> {
    lower_all(trim(value))
}

pub fn normalize_filter(value: &str) -> (res: String)
    ensures
        res@ == normalize_filter_spec(value@),
{
    let v = chars_of(value);
    let t = trim_chars(&v);
    let l = lower_chars(&t);
    string_of(&l)
}

proof fn lemma_trim_start_edge(s: Seq<char>)
    ensures
        trim_start(s).len() == 0 || !is_ws(trim_start(s)[0]),
        trim_start(s).len() <= s.len(),
        trim_start(s) == s.skip(s.len() - trim_start(s).len()),
    decreases s.len(),
{
    if s.len() > 0 && is_ws(s[0]) {
        lemma_trim_start_edge(s.drop_first());
        assert(s.drop_first().skip(s.drop_first().len() - trim_start(s).len()) =~= s.skip(
            s.len() - trim_start(s).len(),
        ));
    } else {
        assert(s.skip(0) =~= s);
    }
}

proof fn lemma_trim_end_edge(s: Seq<char>)
    ensures
        trim_end(s).len() == 0 || !is_ws(trim_end(s).last()),
        trim_end(s).len() <= s.len(),
        trim_end(s) == s.take(trim_end(s).len() as int),
    decreases s.len(),
{
    if s.len() > 0 && is_ws(s.last()) {
        lemma_trim_end_edge(s.drop_last());
        assert(s.drop_last().take(trim_end(s).len() as int) =~= s.take(trim_end(s).len() as int));
    } else {
        assert(s.take(s.len() as int) =~= s);
    }
}

/// A trimmed text starts and ends with something other than whitespace.
proof fn lemma_trim_edges(s: Seq<char>)
    ensures
        trim(s).len() == 0 || (!is_ws(trim(s)[0]) && !is_ws(trim(s).last())),
{
    let a = trim_start(s);
    lemma_trim_start_edge(s);
    lemma_trim_end_edge(a);
    if trim(s).len() > 0 {
        assert(trim(s)[0] == a[0]);
    }
}

/// Lower-casing keeps whether a character is whitespace.
proof fn lemma_lower_keeps_ws(c: char)
    ensures
        is_ws(lower(c)) == is_ws(c),
{
}

/// Normalizing a filter a second time changes nothing.
pub proof fn law_normalize_filter_idempotent(value: Seq<char>)
    ensures
        normalize_filter_spec(normalize_filter_spec(value)) == normalize_filter_spec(value),
{
    let t = trim(value);
    let l = lower_all(t);
    lemma_trim_edges(value);
    if l.len() > 0 {
        lemma_lower_keeps_ws(t[0]);
        lemma_lower_keeps_ws(t.last());
        assert(l[0] == lower(t[0]));
        assert(l.last() == lower(t.last()));
    }
    assert(trim_start(l) == l);
    assert(trim_end(l) == l);
    assert(lower_all(l) =~= l);
}

/// Some field, lower-cased, holds the needle.
pub open spec fn matches_filter_spec(fields: Seq<Seq<char>>, needle: Seq<char>) -> bool {
    exists|i: int| 0 <= i < fields.len() && contains_seq(lower_all(#[trigger] fields[i]), needle)
}

pub fn matches_filter(fields: &Vec<String>, needle: &str) -> (res: bool)
    ensures
        res == matches_filter_spec(fields.deep_view(), needle@),
{
    let n = chars_of(needle);
    let mut i: usize = 0;
    while i < fields.len()
        invariant
            i <= fields.len(),
            n@ == needle@,
            forall|k: int| 0 <= k < i ==> !contains_seq(lower_all(#[trigger] fields.deep_view()[k]), needle@),
        decreases fields.len() - i,
    {
        let f = chars_of(fields[i].as_str());
        let l = lower_chars(&f);
        if contains_chars(&l, &n) {
            assert(fields.deep_view()[i as int] == f@);
            return true;
        }
        assert(fields.deep_view()[i as int] == f@);
        i = i + 1;
    }
    false
}

pub open spec fn keep_row(fields: Seq<Seq<char>>, filter: Seq<char>) -> bool {
    let needle = normalize_filter_spec(filter);
    needle.len() == 0 || matches_filter_spec(fields, needle)
}

pub open spec fn image_fields(i: DockerImageInfoView) -> Seq<Seq<char>> {
    seq![i.repository, i.tag, i.image_id, i.size, i.source]
}

pub open spec fn container_fields(c: ContainerInfoView) -> Seq<Seq<char>> {
    seq![c.name, c.image, c.runtime, c.state, c.status, c.ports]
}

pub open spec fn project_fields(p: ProjectInfoView) -> Seq<Seq<char>> {
    seq![p.name, p.status, p.config_files, p.working_dir]
}

pub open spec fn volume_fields(v: VolumeInfoView) -> Seq<Seq<char>> {
    seq![v.name, v.driver, v.mountpoint, v.scope]
}

pub open spec fn network_fields(n: NetworkInfoView) -> Seq<Seq<char>> {
    seq![n.name, n.driver, n.subnet, n.gateway, n.scope]
}

/// The rows whose fields hold the filter text, in order; all rows for a blank filter.
pub fn filtered_images(items: &Vec<DockerImageInfo>, filter: &str) -> (res: Vec<DockerImageInfo>)
    ensures
        res@.map_values(|x: DockerImageInfo| x@) == items@.map_values(|x: DockerImageInfo| x@).filter(
            |x: DockerImageInfoView| keep_row(image_fields(x), filter@),
        ),
{
    broadcast use vstd::seq::Seq::lemma_filter_push;

    let needle = normalize_filter(filter);
    let ghost all = items@.map_values(|x: DockerImageInfo| x@);
    let ghost pred = |x: DockerImageInfoView| keep_row(image_fields(x), filter@);
    let mut out: Vec<DockerImageInfo> = Vec::new();
    let mut i: usize = 0;
    reveal_with_fuel(Seq::filter, 1);
    assert(all.take(0).filter(pred) =~= Seq::<DockerImageInfoView>::empty());
    assert(out@.map_values(|x: DockerImageInfo| x@) =~= Seq::<DockerImageInfoView>::empty());
    while i < items.len()
        invariant
            i <= items.len(),
            all == items@.map_values(|x: DockerImageInfo| x@),
            pred == (|x: DockerImageInfoView| keep_row(image_fields(x), filter@)),
            needle@ == normalize_filter_spec(filter@),
            out@.map_values(|x: DockerImageInfo| x@) =~= all.take(i as int).filter(pred),
        decreases items.len() - i,
    {
        let item = &items[i];
        let mut fields: Vec<String> = Vec::new();
        fields.push(item.repository.clone());
        fields.push(item.tag.clone());
        fields.push(item.image_id.clone());
        fields.push(item.size.clone());
        fields.push(item.source.clone());
        assert(fields.deep_view() =~= image_fields(item@));
        let keep = needle.as_str().is_empty() || matches_filter(&fields, needle.as_str());
        assert(all.take(i + 1) =~= all.take(i as int).push(all[i as int]));
        proof {
            all.take(i as int).lemma_filter_push(all[i as int], pred);
        }
        let ghost before = out@.map_values(|x: DockerImageInfo| x@);
        if keep {
            out.push(item.clone());
            assert(out@.map_values(|x: DockerImageInfo| x@) =~= before.push(all[i as int]));
        }
        i = i + 1;
    }
    assert(all.take(items.len() as int) =~= all);
    out
}

/// A blank filter keeps every row.
pub proof fn law_filtered_images_blank_keeps_all(items: Seq<DockerImageInfoView>, filter: Seq<char>)
    requires
        normalize_filter_spec(filter).len() == 0,
    ensures
        items.filter(|x: DockerImageInfoView| keep_row(image_fields(x), filter)) == items,
    decreases items.len(),
{
    reveal(Seq::filter);
    if items.len() > 0 {
        law_filtered_images_blank_keeps_all(items.drop_last(), filter);
        assert(items.drop_last().push(items.last()) =~= items);
    }
}

/// The rows whose fields hold the filter text, in order; all rows for a blank filter.
pub fn filtered_containers(items: &Vec<ContainerInfo>, filter: &str) -> (res: Vec<ContainerInfo>)
    ensures
        res@.map_values(|x: ContainerInfo| x@) == items@.map_values(|x: ContainerInfo| x@).filter(
            |x: ContainerInfoView| keep_row(container_fields(x), filter@),
        ),
{
    broadcast use vstd::seq::Seq::lemma_filter_push;

    let needle = normalize_filter(filter);
    let ghost all = items@.map_values(|x: ContainerInfo| x@);
    let ghost pred = |x: ContainerInfoView| keep_row(container_fields(x), filter@);
    let mut out: Vec<ContainerInfo> = Vec::new();
    let mut i: usize = 0;
    reveal_with_fuel(Seq::filter, 1);
    assert(all.take(0).filter(pred) =~= Seq::<ContainerInfoView>::empty());
    assert(out@.map_values(|x: ContainerInfo| x@) =~= Seq::<ContainerInfoView>::empty());
    while i < items.len()
        invariant
            i <= items.len(),
            all == items@.map_values(|x: ContainerInfo| x@),
            pred == (|x: ContainerInfoView| keep_row(container_fields(x), filter@)),
            needle@ == normalize_filter_spec(filter@),
            out@.map_values(|x: ContainerInfo| x@) =~= all.take(i as int).filter(pred),
        decreases items.len() - i,
    {
        let item = &items[i];
        let mut fields: Vec<String> = Vec::new();
        fields.push(item.name.clone());
        fields.push(item.image.clone());
        fields.push(item.runtime.clone());
        fields.push(item.state.clone());
        fields.push(item.status.clone());
        fields.push(item.ports.clone());
        assert(fields.deep_view() =~= container_fields(item@));
        let keep = needle.as_str().is_empty() || matches_filter(&fields, needle.as_str());
        assert(all.take(i + 1) =~= all.take(i as int).push(all[i as int]));
        proof {
            all.take(i as int).lemma_filter_push(all[i as int], pred);
        }
        let ghost before = out@.map_values(|x: ContainerInfo| x@);
        if keep {
            out.push(item.clone());
            assert(out@.map_values(|x: ContainerInfo| x@) =~= before.push(all[i as int]));
        }
        i = i + 1;
    }
    assert(all.take(items.len() as int) =~= all);
    out
}

/// A blank filter keeps every row.
pub proof fn law_filtered_containers_blank_keeps_all(items: Seq<ContainerInfoView>, filter: Seq<char>)
    requires
        normalize_filter_spec(filter).len() == 0,
    ensures
        items.filter(|x: ContainerInfoView| keep_row(container_fields(x), filter)) == items,
    decreases items.len(),
{
    reveal(Seq::filter);
    if items.len() > 0 {
        law_filtered_containers_blank_keeps_all(items.drop_last(), filter);
        assert(items.drop_last().push(items.last()) =~= items);
    }
}

/// Whether one of a container's columns, lower-cased, holds the text `n`.
pub open spec fn container_shows(c: ContainerInfoView, n: Seq<char>) -> bool {
    ||| contains_seq(lower_all(c.name), n)
    ||| contains_seq(lower_all(c.image), n)
    ||| contains_seq(lower_all(c.runtime), n)
    ||| contains_seq(lower_all(c.state), n)
    ||| contains_seq(lower_all(c.status), n)
    ||| contains_seq(lower_all(c.ports), n)
}

/// The container filter keeps a row exactly when the trimmed, lower-cased
/// filter is blank or one of its columns (name, image, runtime, state, status,
/// ports), lower-cased, holds it; the rows it keeps come from the list.
pub proof fn law_filtered_containers_match(items: Seq<ContainerInfoView>, filter: Seq<char>, i: int)
    requires
        0 <= i < items.len(),
    ensures
        ({
            let n = lower_all(trim(filter));
            let kept = items.filter(|x: ContainerInfoView| keep_row(container_fields(x), filter));
            &&& (n.len() == 0 || container_shows(items[i], n)) ==> kept.contains(items[i])
            &&& forall|j: int|
                0 <= j < kept.len() ==> items.contains(#[trigger] kept[j]) && (n.len() == 0
                    || container_shows(kept[j], n))
        }),
{
    let n = lower_all(trim(filter));
    let pred = |x: ContainerInfoView| keep_row(container_fields(x), filter);
    let kept = items.filter(pred);
    assert forall|c: ContainerInfoView| #[trigger] pred(c) <==> (n.len() == 0 || container_shows(c, n)) by {
        let f = container_fields(c);
        if container_shows(c, n) {
            if contains_seq(lower_all(c.name), n) { assert(contains_seq(lower_all(f[0]), n)); }
            if contains_seq(lower_all(c.image), n) { assert(contains_seq(lower_all(f[1]), n)); }
            if contains_seq(lower_all(c.runtime), n) { assert(contains_seq(lower_all(f[2]), n)); }
            if contains_seq(lower_all(c.state), n) { assert(contains_seq(lower_all(f[3]), n)); }
            if contains_seq(lower_all(c.status), n) { assert(contains_seq(lower_all(f[4]), n)); }
            if contains_seq(lower_all(c.ports), n) { assert(contains_seq(lower_all(f[5]), n)); }
        }
        if matches_filter_spec(f, n) {
            let k = choose|k: int| 0 <= k < f.len() && contains_seq(lower_all(#[trigger] f[k]), n);
            assert(0 <= k < 6);
        }
    }
    if n.len() == 0 || container_shows(items[i], n) {
        items.lemma_filter_contains(pred, i);
    }
    assert forall|j: int| 0 <= j < kept.len() implies items.contains(#[trigger] kept[j]) && (n.len()
        == 0 || container_shows(kept[j], n)) by {
        items.lemma_filter_pred(pred, j);
        items.lemma_filter_contains_rev(pred, kept[j]);
    }
}

/// The rows whose fields hold the filter text, in order; all rows for a blank filter.
pub fn filtered_projects(items: &Vec<ProjectInfo>, filter: &str) -> (res: Vec<ProjectInfo>)
    ensures
        res@.map_values(|x: ProjectInfo| x@) == items@.map_values(|x: ProjectInfo| x@).filter(
            |x: ProjectInfoView| keep_row(project_fields(x), filter@),
        ),
{
    broadcast use vstd::seq::Seq::lemma_filter_push;

    let needle = normalize_filter(filter);
    let ghost all = items@.map_values(|x: ProjectInfo| x@);
    let ghost pred = |x: ProjectInfoView| keep_row(project_fields(x), filter@);
    let mut out: Vec<ProjectInfo> = Vec::new();
    let mut i: usize = 0;
    reveal_with_fuel(Seq::filter, 1);
    assert(all.take(0).filter(pred) =~= Seq::<ProjectInfoView>::empty());
    assert(out@.map_values(|x: ProjectInfo| x@) =~= Seq::<ProjectInfoView>::empty());
    while i < items.len()
        invariant
            i <= items.len(),
            all == items@.map_values(|x: ProjectInfo| x@),
            pred == (|x: ProjectInfoView| keep_row(project_fields(x), filter@)),
            needle@ == normalize_filter_spec(filter@),
            out@.map_values(|x: ProjectInfo| x@) =~= all.take(i as int).filter(pred),
        decreases items.len() - i,
    {
        let item = &items[i];
        let mut fields: Vec<String> = Vec::new();
        fields.push(item.name.clone());
        fields.push(item.status.clone());
        fields.push(item.config_files.clone());
        fields.push(item.working_dir.clone());
        assert(fields.deep_view() =~= project_fields(item@));
        let keep = needle.as_str().is_empty() || matches_filter(&fields, needle.as_str());
        assert(all.take(i + 1) =~= all.take(i as int).push(all[i as int]));
        proof {
            all.take(i as int).lemma_filter_push(all[i as int], pred);
        }
        let ghost before = out@.map_values(|x: ProjectInfo| x@);
        if keep {
            out.push(item.clone());
            assert(out@.map_values(|x: ProjectInfo| x@) =~= before.push(all[i as int]));
        }
        i = i + 1;
    }
    assert(all.take(items.len() as int) =~= all);
    out
}

/// A blank filter keeps every row.
pub proof fn law_filtered_projects_blank_keeps_all(items: Seq<ProjectInfoView>, filter: Seq<char>)
    requires
        normalize_filter_spec(filter).len() == 0,
    ensures
        items.filter(|x: ProjectInfoView| keep_row(project_fields(x), filter)) == items,
    decreases items.len(),
{
    reveal(Seq::filter);
    if items.len() > 0 {
        law_filtered_projects_blank_keeps_all(items.drop_last(), filter);
        assert(items.drop_last().push(items.last()) =~= items);
    }
}

/// The rows whose fields hold the filter text, in order; all rows for a blank filter.
pub fn filtered_volumes(items: &Vec<VolumeInfo>, filter: &str) -> (res: Vec<VolumeInfo>)
    ensures
        res@.map_values(|x: VolumeInfo| x@) == items@.map_values(|x: VolumeInfo| x@).filter(
            |x: VolumeInfoView| keep_row(volume_fields(x), filter@),
        ),
{
    broadcast use vstd::seq::Seq::lemma_filter_push;

    let needle = normalize_filter(filter);
    let ghost all = items@.map_values(|x: VolumeInfo| x@);
    let ghost pred = |x: VolumeInfoView| keep_row(volume_fields(x), filter@);
    let mut out: Vec<VolumeInfo> = Vec::new();
    let mut i: usize = 0;
    reveal_with_fuel(Seq::filter, 1);
    assert(all.take(0).filter(pred) =~= Seq::<VolumeInfoView>::empty());
    assert(out@.map_values(|x: VolumeInfo| x@) =~= Seq::<VolumeInfoView>::empty());
    while i < items.len()
        invariant
            i <= items.len(),
            all == items@.map_values(|x: VolumeInfo| x@),
            pred == (|x: VolumeInfoView| keep_row(volume_fields(x), filter@)),
            needle@ == normalize_filter_spec(filter@),
            out@.map_values(|x: VolumeInfo| x@) =~= all.take(i as int).filter(pred),
        decreases items.len() - i,
    {
        let item = &items[i];
        let mut fields: Vec<String> = Vec::new();
        fields.push(item.name.clone());
        fields.push(item.driver.clone());
        fields.push(item.mountpoint.clone());
        fields.push(item.scope.clone());
        assert(fields.deep_view() =~= volume_fields(item@));
        let keep = needle.as_str().is_empty() || matches_filter(&fields, needle.as_str());
        assert(all.take(i + 1) =~= all.take(i as int).push(all[i as int]));
        proof {
            all.take(i as int).lemma_filter_push(all[i as int], pred);
        }
        let ghost before = out@.map_values(|x: VolumeInfo| x@);
        if keep {
            out.push(item.clone());
            assert(out@.map_values(|x: VolumeInfo| x@) =~= before.push(all[i as int]));
        }
        i = i + 1;
    }
    assert(all.take(items.len() as int) =~= all);
    out
}

/// A blank filter keeps every row.
pub proof fn law_filtered_volumes_blank_keeps_all(items: Seq<VolumeInfoView>, filter: Seq<char>)
    requires
        normalize_filter_spec(filter).len() == 0,
    ensures
        items.filter(|x: VolumeInfoView| keep_row(volume_fields(x), filter)) == items,
    decreases items.len(),
{
    reveal(Seq::filter);
    if items.len() > 0 {
        law_filtered_volumes_blank_keeps_all(items.drop_last(), filter);
        assert(items.drop_last().push(items.last()) =~= items);
    }
}

/// The rows whose fields hold the filter text, in order; all rows for a blank filter.
pub fn filtered_networks(items: &Vec<NetworkInfo>, filter: &str) -> (res: Vec<NetworkInfo>)
    ensures
        res@.map_values(|x: NetworkInfo| x@) == items@.map_values(|x: NetworkInfo| x@).filter(
            |x: NetworkInfoView| keep_row(network_fields(x), filter@),
        ),
{
    broadcast use vstd::seq::Seq::lemma_filter_push;

    let needle = normalize_filter(filter);
    let ghost all = items@.map_values(|x: NetworkInfo| x@);
    let ghost pred = |x: NetworkInfoView| keep_row(network_fields(x), filter@);
    let mut out: Vec<NetworkInfo> = Vec::new();
    let mut i: usize = 0;
    reveal_with_fuel(Seq::filter, 1);
    assert(all.take(0).filter(pred) =~= Seq::<NetworkInfoView>::empty());
    assert(out@.map_values(|x: NetworkInfo| x@) =~= Seq::<NetworkInfoView>::empty());
    while i < items.len()
        invariant
            i <= items.len(),
            all == items@.map_values(|x: NetworkInfo| x@),
            pred == (|x: NetworkInfoView| keep_row(network_fields(x), filter@)),
            needle@ == normalize_filter_spec(filter@),
            out@.map_values(|x: NetworkInfo| x@) =~= all.take(i as int).filter(pred),
        decreases items.len() - i,
    {
        let item = &items[i];
        let mut fields: Vec<String> = Vec::new();
        fields.push(item.name.clone());
        fields.push(item.driver.clone());
        fields.push(item.subnet.clone());
        fields.push(item.gateway.clone());
        fields.push(item.scope.clone());
        assert(fields.deep_view() =~= network_fields(item@));
        let keep = needle.as_str().is_empty() || matches_filter(&fields, needle.as_str());
        assert(all.take(i + 1) =~= all.take(i as int).push(all[i as int]));
        proof {
            all.take(i as int).lemma_filter_push(all[i as int], pred);
        }
        let ghost before = out@.map_values(|x: NetworkInfo| x@);
        if keep {
            out.push(item.clone());
            assert(out@.map_values(|x: NetworkInfo| x@) =~= before.push(all[i as int]));
        }
        i = i + 1;
    }
    assert(all.take(items.len() as int) =~= all);
    out
}

/// A blank filter keeps every row.
pub proof fn law_filtered_networks_blank_keeps_all(items: Seq<NetworkInfoView>, filter: Seq<char>)
    requires
        normalize_filter_spec(filter).len() == 0,
    ensures
        items.filter(|x: NetworkInfoView| keep_row(network_fields(x), filter)) == items,
    decreases items.len(),
{
    reveal(Seq::filter);
    if items.len() > 0 {
        law_filtered_networks_blank_keeps_all(items.drop_last(), filter);
        assert(items.drop_last().push(items.last()) =~= items);
    }
}

/// Ports suggested for well-known images.
pub open spec fn default_ports_spec(image: Seq<char>) -> Seq<char> {
    let i = lower_all(image);
    if contains_seq(i, "hello-world"@) || contains_seq(i, "alpine"@) || contains_seq(i, "busybox"@) {
        Seq::empty()
    } else if contains_seq(i, "postgres"@) {
        "5432:5432"@
    } else if contains_seq(i, "mysql"@) {
        "3306:3306"@
    } else if contains_seq(i, "redis"@) {
        "6379:6379"@
    } else if contains_seq(i, "nginx"@) {
        "8080:80"@
    } else {
        Seq::empty()
    }
}

fn lower_has(i: &Vec<char>, word: &str) -> (res: bool)
    ensures
        res == contains_seq(i@, word@),
{
    let w = chars_of(word);
    contains_chars(i, &w)
}

pub fn default_ports_for_image(image: &str) -> (res: String)
    ensures
        res@ == default_ports_spec(image@),
{
    let v = chars_of(image);
    let i = lower_chars(&v);
    proof {
        reveal_strlit("");
    }
    if lower_has(&i, "hello-world") || lower_has(&i, "alpine") || lower_has(&i, "busybox") {
        let s = String::new();
        s
    } else if lower_has(&i, "postgres") {
        String::from_str("5432:5432")
    } else if lower_has(&i, "mysql") {
        String::from_str("3306:3306")
    } else if lower_has(&i, "redis") {
        String::from_str("6379:6379")
    } else if lower_has(&i, "nginx") {
        String::from_str("8080:80")
    } else {
        String::new()
    }
}

/// The host part of a requested mapping such as `8080:80` or `127.0.0.1:8080:80`:
/// the next-to-last `:`-separated piece.
pub open spec fn requested_host_port(mapping: Seq<char>) -> Option<Seq<char>> {
    let parts = split_by(mapping, Sep::Char(':'));
    if parts.len() >= 2 {
        Some(parts[parts.len() - 2])
    } else {
        None
    }
}

/// The host ports requested in a list of mappings separated by commas or whitespace.
pub open spec fn requested_host_ports_spec(value: Seq<char>) -> Seq<Seq<char>> {
    tokens(value, Sep::CommaOrWhitespace).filter(|m: Seq<char>| requested_host_port(m) is Some).map_values(
        |m: Seq<char>| requested_host_port(m).unwrap(),
    )
}

pub fn parse_requested_host_ports(value: &str) -> (res: Vec<String>)
    ensures
        res.deep_view() == requested_host_ports_spec(value@),
{
    broadcast use lemma_char_vec_deep_view;
    broadcast use vstd::seq::Seq::lemma_filter_push;

    let v = chars_of(value);
    let words = tokens_chars(&v, Sep::CommaOrWhitespace);
    let ghost wv = words.deep_view();
    let ghost pred = |m: Seq<char>| requested_host_port(m) is Some;
    let ghost f = |m: Seq<char>| requested_host_port(m).unwrap();
    let mut out: Vec<String> = Vec::new();
    let mut i: usize = 0;
    reveal_with_fuel(Seq::filter, 1);
    assert(wv.take(0).filter(pred) =~= Seq::<Seq<char>>::empty());
    while i < words.len()
        invariant
            i <= words.len(),
            wv == words.deep_view(),
            wv == tokens(value@, Sep::CommaOrWhitespace),
            pred == (|m: Seq<char>| requested_host_port(m) is Some),
            f == (|m: Seq<char>| requested_host_port(m).unwrap()),
            out.deep_view() =~= wv.take(i as int).filter(pred).map_values(f),
        decreases words.len() - i,
    {
        assert(wv.take(i + 1) =~= wv.take(i as int).push(wv[i as int]));
        assert(words@[i as int].deep_view() == words@[i as int]@);
        proof {
            wv.take(i as int).lemma_filter_push(wv[i as int], pred);
        }
        let parts = split_chars(&words[i], Sep::Char(':'));
        let ghost before = out.deep_view();
        if parts.len() >= 2 {
            let p = &parts[parts.len() - 2];
            assert(p.deep_view() == p@);
            out.push(string_of(p));
            assert(out.deep_view() =~= before.push(f(wv[i as int])));
            assert(wv.take(i as int).filter(pred).push(wv[i as int]).map_values(f) =~= wv.take(
                i as int,
            ).filter(pred).map_values(f).push(f(wv[i as int])));
        }
        i = i + 1;
    }
    assert(wv.take(words.len() as int) =~= wv);
    out
}

/// The colour of a container state, as red, green and blue.
pub open spec fn state_rgb_spec(state: Seq<char>) -> (u8, u8, u8) {
    let s = lower_all(state);
    if s == "running"@ {
        (46, 204, 113)
    } else if s == "exited"@ {
        (231, 76, 60)
    } else if s == "created"@ {
        (241, 196, 15)
    } else {
        (149, 165, 166)
    }
}

pub fn state_rgb(state: &str) -> (res: (u8, u8, u8))
    ensures
        res == state_rgb_spec(state@),
{
    let v = chars_of(state);
    let l = lower_chars(&v);
    let s = string_of(&l);
    if crate::text::str_eq(s.as_str(), "running") {
        (46, 204, 113)
    } else if crate::text::str_eq(s.as_str(), "exited") {
        (231, 76, 60)
    } else if crate::text::str_eq(s.as_str(), "created") {
        (241, 196, 15)
    } else {
        (149, 165, 166)
    }
}

/// The first non-blank entry of a comma-separated list of compose files, trimmed.
pub open spec fn primary_target_spec(config_files: Seq<char>) -> Seq<char> {
    let parts = split_by(config_files, Sep::Char(',')).map_values(|p: Seq<char>| trim(p));
    match first_where(parts, |p: Seq<char>| p.len() > 0) {
        Some(i) => parts[i],
        None => Seq::empty(),
    }
}

pub fn primary_project_target(config_files: &str) -> (res: String)
    ensures
        res@ == primary_target_spec(config_files@),
{
    broadcast use lemma_char_vec_deep_view;

    let v = chars_of(config_files);
    let pieces = split_chars(&v, Sep::Char(','));
    let ghost parts = split_by(config_files@, Sep::Char(',')).map_values(|p: Seq<char>| trim(p));
    let ghost pred = |p: Seq<char>| p.len() > 0;
    let mut i: usize = 0;
    while i < pieces.len()
        invariant
            i <= pieces.len(),
            pieces.deep_view() == split_by(config_files@, Sep::Char(',')),
            parts == split_by(config_files@, Sep::Char(',')).map_values(|p: Seq<char>| trim(p)),
            pred == (|p: Seq<char>| p.len() > 0),
            forall|k: int| 0 <= k < i ==> !pred(#[trigger] parts[k]),
        decreases pieces.len() - i,
    {
        assert(pieces@[i as int].deep_view() == pieces@[i as int]@);
        let t = trim_chars(&pieces[i]);
        if t.len() > 0 {
            proof {
                first_where_hit(parts, pred, i as int);
            }
            return string_of(&t);
        }
        i = i + 1;
    }
    proof {
        first_where_hit(parts, pred, i as int);
    }
    String::new()
}

proof fn first_where_hit(s: Seq<Seq<char>>, p: spec_fn(Seq<char>) -> bool, i: int)
    requires
        0 <= i <= s.len(),
        forall|j: int| 0 <= j < i ==> !p(#[trigger] s[j]),
    ensures
        i < s.len() && p(s[i]) ==> first_where(s, p) == Some(i),
        i == s.len() ==> first_where(s, p) is None,
{
    crate::order::lemma_first_where(s, p, i);
}

} // verus!
