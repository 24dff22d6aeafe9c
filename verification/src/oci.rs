//! The native OCI store: image references, digests and where their files
//! live, the records kept for pulled and built images, what an image shows
//! when inspected, and what the store may delete.

use vstd::prelude::*;
use oci_spec::distribution::{ParseError, Reference};
use sha2::{Digest, Sha256};
use crate::model::{ImageDetailsInfo, ImageDetailsInfoView, RuntimeConfig, RuntimeConfigView, StoredImageRecord, StoredImageRecordView};
use crate::numfmt::{dec, hex_bytes, hex_of_bytes, u64_to_chars};
use crate::order::{first_where, lemma_first_where, sort_strings};
use crate::store::{display_of, display_record, shorten_digest, shorten_digest_spec};
use crate::text::{chars_of, clone_strings, concat_str, ends_with, join, join_strings, split_once, split_once_chars, starts_with, str_ends_with, str_eq, str_starts_with, string_of, trimmed_option};
use crate::units::{format_bytes, format_bytes_spec};
use crate::docker_cli::{sort_pairs_by_key, sorted_pairs, sorted_texts};
use crate::runtime::{items_or_empty, opt_trim_of, text_or_empty};
use crate::text::{trim, trim_str};
use crate::paths::{is_absolute_path, join_path, path_is_absolute, path_join};
use crate::dockerfile::{Instr, InstrView};

verus! {

broadcast use crate::text::group_text;

#[verifier::external_type_specification]
#[verifier::external_body]
pub struct ExReference(Reference);

#[verifier::external_type_specification]
#[verifier::external_body]
pub struct ExParseError(ParseError);

/// The parts of a parsed image reference that the store keeps.
#[derive(Debug)]
pub struct ImageReference {
    /// The whole reference, registry and tag included (`Reference::whole`).
    pub whole: String,
    pub repository: String,
    pub tag: Option<String>,
}

pub struct ImageReferenceView {
    pub whole: Seq<char>,
    pub repository: Seq<char>,
    pub tag: Option<Seq<char>>,
}

impl View for ImageReference {
    type V = ImageReferenceView;

    open spec fn view(&self) -> ImageReferenceView {
        ImageReferenceView {
            whole: self.whole@,
            repository: self.repository@,
            tag: self.tag.deep_view(),
        }
    }
}

/// What `Reference::from_str` makes of a text, read back through `whole`,
/// `repository` and `tag`; nothing where the text does not parse.
pub uninterp spec fn reference_parse(text: Seq<char>) -> Option<ImageReferenceView>;

/// `str::parse::<Reference>` (oci-spec's `Reference::from_str`), with the
/// result read through `Reference::whole`, `repository` and `tag`. The contract
/// names the result and states one fact of the source: an empty text is refused.
#[verifier::external_body]
fn reference_from_str(text: &str) -> (res: Result<ImageReference, ParseError>)
    ensures
        match res {
            Ok(r) => reference_parse(text@) == Some(r@),
            Err(_) => reference_parse(text@) is None,
        },
        text@.len() == 0 ==> res is Err,
{
    match text.parse::<Reference>() {
        Ok(r) => Ok(
            ImageReference {
                whole: r.whole(),
                repository: r.repository().to_string(),
                tag: r.tag().map(String::from),
            },
        ),
        Err(e) => Err(e),
    }
}

/// Parses an image reference; `error` is the message where it does not parse.
pub fn parse_image_reference(text: &str, error: &str) -> (res: Result<ImageReference, String>)
    ensures
        match reference_parse(text@) {
            Some(v) => res matches Ok(r) && r@ == v,
            None => res matches Err(e) && e@ == error@,
        },
        text@.len() == 0 ==> res is Err,
{
    match reference_from_str(text) {
        Ok(r) => Ok(r),
        Err(_) => Err(String::from_str(error)),
    }
}

/// The SHA-256 hash of a byte string.
pub uninterp spec fn sha256_of(bytes: Seq<u8>) -> Seq<u8>;

/// `Sha256::digest` (sha2), its 32 bytes copied out. The contract names the
/// hash and states its length.
#[verifier::external_body]
fn sha256_bytes(bytes: &Vec<u8>) -> (res: Vec<u8>)
    ensures
        res@ == sha256_of(bytes@),
        res@.len() == 32,
{
    Sha256::digest(bytes.as_slice()).to_vec()
}

/// The OCI digest of a byte string: `sha256:` and the hash in lower-case hex.
pub open spec fn sha256_digest_spec(bytes: Seq<u8>) -> Seq<char> {
    "sha256:"@ + hex_bytes(sha256_of(bytes))
}

pub fn sha256_digest(bytes: &Vec<u8>) -> (res: String)
    ensures
        res@ == sha256_digest_spec(bytes@),
        res@.len() == 71,
{
    let h = sha256_bytes(bytes);
    let hx = string_of(&hex_of_bytes(&h));
    proof {
        reveal_strlit("sha256:");
        lemma_hex_bytes_len(h@);
    }
    concat_str("sha256:", hx.as_str())
}

proof fn lemma_hex_bytes_len(bs: Seq<u8>)
    ensures
        hex_bytes(bs).len() == 2 * bs.len(),
    decreases bs.len(),
{
    if bs.len() > 0 {
        lemma_hex_bytes_len(bs.drop_last());
    }
}

/// The message for a digest without an algorithm.
pub open spec fn invalid_digest(digest: Seq<char>) -> Seq<char> {
    "invalid OCI digest `"@ + digest + "`"@
}

/// A digest split into its algorithm and its hex part.
pub fn split_digest(digest: &str) -> (res: Result<(String, String), String>)
    ensures
        match split_once(digest@, ':') {
            Some((a, h)) => res matches Ok((x, y)) && x@ == a && y@ == h,
            None => res matches Err(e) && e@ == invalid_digest(digest@),
        },
{
    let chars = chars_of(digest);
    match split_once_chars(&chars, ':') {
        Some((a, h)) => Ok((string_of(&a), string_of(&h))),
        None => {
            let m = concat_str("invalid OCI digest `", digest);
            Err(concat_str(m.as_str(), "`"))
        },
    }
}

/// Where a manifest's or configuration's file lives under its store folder:
/// `<base>/<algorithm>/<hex>.json`.
pub open spec fn digest_json_path_spec(base: Seq<char>, digest: Seq<char>) -> Option<Seq<char>> {
    match split_once(digest, ':') {
        Some((a, h)) => Some(path_join(path_join(base, a), h + ".json"@)),
        None => None,
    }
}

/// Where a layer blob lives under the blob folder: `<base>/<algorithm>/<hex>`.
pub open spec fn digest_blob_path_spec(base: Seq<char>, digest: Seq<char>) -> Option<Seq<char>> {
    match split_once(digest, ':') {
        Some((a, h)) => Some(path_join(path_join(base, a), h)),
        None => None,
    }
}

pub fn digest_json_path(base: &str, digest: &str) -> (res: Result<String, String>)
    ensures
        match digest_json_path_spec(base@, digest@) {
            Some(p) => res matches Ok(x) && x@ == p,
            None => res matches Err(e) && e@ == invalid_digest(digest@),
        },
{
    match split_digest(digest) {
        Ok((a, h)) => {
            let dir = join_path(base, a.as_str());
            let file = concat_str(h.as_str(), ".json");
            Ok(join_path(dir.as_str(), file.as_str()))
        },
        Err(e) => Err(e),
    }
}

pub fn digest_blob_path(base: &str, digest: &str) -> (res: Result<String, String>)
    ensures
        match digest_blob_path_spec(base@, digest@) {
            Some(p) => res matches Ok(x) && x@ == p,
            None => res matches Err(e) && e@ == invalid_digest(digest@),
        },
{
    match split_digest(digest) {
        Ok((a, h)) => {
            let dir = join_path(base, a.as_str());
            Ok(join_path(dir.as_str(), h.as_str()))
        },
        Err(e) => Err(e),
    }
}

/// The record an image name picks out of the store, by its full reference or
/// its `repository:tag`.
pub fn find_stored_image(images: &Vec<StoredImageRecord>, image: &str) -> (res: Result<usize, String>)
    ensures
        match first_where(
            store_views(images@),
            |r: StoredImageRecordView| crate::store::names_image(r, image@),
        ) {
            Some(i) => res matches Ok(x) && x == i,
            None => res matches Err(e) && e@ == crate::store::not_found_message(image@),
        },
{
    match crate::store::find_image_index(images, image) {
        Some(i) => {
            assert(store_views(images@) =~= crate::store::record_views(images@));
            Ok(i)
        },
        None => {
            assert(store_views(images@) =~= crate::store::record_views(images@));
            let a = concat_str("image `", image);
            Err(concat_str(a.as_str(), "` was not found in the native store"))
        },
    }
}

/// The message when a run names an image the store lacks.
pub open spec fn unavailable_message(image: Seq<char>) -> Seq<char> {
    "image `"@ + image + "` is not available in the native OCI store yet"@
}

pub fn image_unavailable_message(image: &str) -> (res: String)
    ensures
        res@ == unavailable_message(image@),
{
    let a = concat_str("image `", image);
    concat_str(a.as_str(), "` is not available in the native OCI store yet")
}

/// The bytes of a pulled manifest's layers: each size, negative sizes counted as none.
pub open spec fn pulled_layer_total(sizes: Seq<i64>) -> nat
    decreases sizes.len(),
{
    if sizes.len() == 0 {
        0
    } else {
        pulled_layer_total(sizes.drop_last()) + if sizes.last() > 0 {
            sizes.last() as nat
        } else {
            0nat
        }
    }
}

/// The bytes of a built manifest's layers.
pub open spec fn built_layer_total(sizes: Seq<u64>) -> nat
    decreases sizes.len(),
{
    if sizes.len() == 0 {
        0
    } else {
        built_layer_total(sizes.drop_last()) + sizes.last() as nat
    }
}

/// The record the store keeps for an image under `reference`.
pub open spec fn image_record_spec(
    reference: ImageReferenceView,
    manifest_digest: Seq<char>,
    config_digest: Seq<char>,
    size: nat,
    source: Seq<char>,
    architecture: Seq<char>,
    os: Seq<char>,
    now: u64,
) -> StoredImageRecordView {
    StoredImageRecordView {
        canonical_reference: reference.whole,
        repository: reference.repository,
        tag: match reference.tag {
            Some(t) => t,
            None => "latest"@,
        },
        manifest_digest,
        config_digest,
        size_bytes: size as u64,
        source,
        architecture,
        os,
        created_at_epoch: now,
    }
}

fn tag_or_latest(reference: &ImageReference) -> (res: String)
    ensures
        res@ == match reference@.tag {
            Some(t) => t,
            None => "latest"@,
        },
{
    match &reference.tag {
        Some(t) => t.clone(),
        None => String::from_str("latest"),
    }
}

/// The record of an image pulled from a registry; its size counts the layers
/// and the configuration.
pub fn pulled_record(
    reference: &ImageReference,
    manifest_digest: String,
    config_digest: String,
    layer_sizes: &Vec<i64>,
    config_len: u64,
    architecture: String,
    os: String,
    now: u64,
) -> (res: StoredImageRecord)
    requires
        pulled_layer_total(layer_sizes@) + config_len <= u64::MAX,
    ensures
        res@ == image_record_spec(
            reference@,
            manifest_digest@,
            config_digest@,
            pulled_layer_total(layer_sizes@) + config_len as nat,
            "pulled-native"@,
            architecture@,
            os@,
            now,
        ),
{
    let mut total: u64 = 0;
    let mut i: usize = 0;
    while i < layer_sizes.len()
        invariant
            i <= layer_sizes.len(),
            total == pulled_layer_total(layer_sizes@.take(i as int)),
            pulled_layer_total(layer_sizes@) + config_len <= u64::MAX,
        decreases layer_sizes.len() - i,
    {
        assert(layer_sizes@.take(i + 1).drop_last() =~= layer_sizes@.take(i as int));
        proof {
            lemma_pulled_total_prefix(layer_sizes@, i + 1);
        }
        let s = layer_sizes[i];
        if s > 0 {
            total = total + (s as u64);
        }
        i = i + 1;
    }
    assert(layer_sizes@.take(layer_sizes.len() as int) =~= layer_sizes@);
    StoredImageRecord {
        canonical_reference: reference.whole.clone(),
        repository: reference.repository.clone(),
        tag: tag_or_latest(reference),
        manifest_digest,
        config_digest,
        size_bytes: total + config_len,
        source: String::from_str("pulled-native"),
        architecture,
        os,
        created_at_epoch: now,
    }
}

proof fn lemma_pulled_total_prefix(s: Seq<i64>, k: int)
    requires
        0 <= k <= s.len(),
    ensures
        pulled_layer_total(s.take(k)) <= pulled_layer_total(s),
    decreases s.len(),
{
    if k < s.len() {
        assert(s.drop_last().take(k) =~= s.take(k));
        lemma_pulled_total_prefix(s.drop_last(), k);
    } else {
        assert(s.take(k) =~= s);
    }
}

proof fn lemma_built_total_prefix(s: Seq<u64>, k: int)
    requires
        0 <= k <= s.len(),
    ensures
        built_layer_total(s.take(k)) <= built_layer_total(s),
    decreases s.len(),
{
    if k < s.len() {
        assert(s.drop_last().take(k) =~= s.take(k));
        lemma_built_total_prefix(s.drop_last(), k);
    } else {
        assert(s.take(k) =~= s);
    }
}

/// The record of an image built from a base image's layers and a new configuration.
pub fn built_record(
    reference: &ImageReference,
    manifest_digest: String,
    config_digest: String,
    layer_sizes: &Vec<u64>,
    config_len: u64,
    architecture: String,
    os: String,
    now: u64,
) -> (res: StoredImageRecord)
    requires
        built_layer_total(layer_sizes@) + config_len <= u64::MAX,
    ensures
        res@ == image_record_spec(
            reference@,
            manifest_digest@,
            config_digest@,
            built_layer_total(layer_sizes@) + config_len as nat,
            "built-native"@,
            architecture@,
            os@,
            now,
        ),
{
    let mut total: u64 = 0;
    let mut i: usize = 0;
    while i < layer_sizes.len()
        invariant
            i <= layer_sizes.len(),
            total == built_layer_total(layer_sizes@.take(i as int)),
            built_layer_total(layer_sizes@) + config_len <= u64::MAX,
        decreases layer_sizes.len() - i,
    {
        assert(layer_sizes@.take(i + 1).drop_last() =~= layer_sizes@.take(i as int));
        proof {
            lemma_built_total_prefix(layer_sizes@, i + 1);
        }
        total = total + layer_sizes[i];
        i = i + 1;
    }
    assert(layer_sizes@.take(layer_sizes.len() as int) =~= layer_sizes@);
    StoredImageRecord {
        canonical_reference: reference.whole.clone(),
        repository: reference.repository.clone(),
        tag: tag_or_latest(reference),
        manifest_digest,
        config_digest,
        size_bytes: total + config_len,
        source: String::from_str("built-native"),
        architecture,
        os,
        created_at_epoch: now,
    }
}

/// What an image in the store shows when inspected, given its record, its
/// configuration's runtime part and its manifest's layer count.
pub open spec fn image_details_spec(
    r: StoredImageRecordView,
    c: RuntimeConfigView,
    layer_count: usize,
) -> ImageDetailsInfoView {
    ImageDetailsInfoView {
        reference: display_of(r),
        image_id: shorten_digest_spec(r.config_digest),
        manifest_digest: r.manifest_digest,
        config_digest: r.config_digest,
        size: format_bytes_spec(r.size_bytes as nat),
        source: r.source,
        architecture: r.architecture,
        os: r.os,
        created: dec(r.created_at_epoch as nat),
        layer_count,
        env: items_or_empty(c.env),
        labels: sorted_pairs(
            match c.labels {
                Some(l) => l,
                None => Seq::empty(),
            },
        ),
        exposed_ports: sorted_texts(items_or_empty(c.exposed_ports)),
        user: text_or_empty(c.user),
        working_dir: text_or_empty(c.working_dir),
        command: join(items_or_empty(c.cmd), " "@),
        entrypoint: join(items_or_empty(c.entrypoint), " "@),
    }
}

fn strings_or_empty(v: &Option<Vec<String>>) -> (res: Vec<String>)
    ensures
        res.deep_view() == items_or_empty(v.deep_view()),
{
    match v {
        Some(items) => clone_strings(items),
        None => Vec::new(),
    }
}

fn text_or_empty_of(v: &Option<String>) -> (res: String)
    ensures
        res@ == text_or_empty(v.deep_view()),
{
    match v {
        Some(t) => t.clone(),
        None => String::new(),
    }
}

pub fn inspect_image_entry(record: &StoredImageRecord, config: &RuntimeConfig, layer_count: usize) -> (res:
    ImageDetailsInfo)
    ensures
        res@ == image_details_spec(record@, config@, layer_count),
{
    let labels = match &config.labels {
        Some(l) => sort_pairs_by_key(l),
        None => {
            let empty: Vec<(String, String)> = Vec::new();
            sort_pairs_by_key(&empty)
        },
    };
    let ports = strings_or_empty(&config.exposed_ports);
    let cmd = strings_or_empty(&config.cmd);
    let ep = strings_or_empty(&config.entrypoint);
    let res = ImageDetailsInfo {
        reference: display_record(record),
        image_id: shorten_digest(record.config_digest.as_str()),
        manifest_digest: record.manifest_digest.clone(),
        config_digest: record.config_digest.clone(),
        size: format_bytes(record.size_bytes),
        source: record.source.clone(),
        architecture: record.architecture.clone(),
        os: record.os.clone(),
        created: string_of(&u64_to_chars(record.created_at_epoch)),
        layer_count,
        env: strings_or_empty(&config.env),
        labels,
        exposed_ports: sort_strings(&ports),
        user: text_or_empty_of(&config.user),
        working_dir: text_or_empty_of(&config.working_dir),
        command: join_strings(&cmd, " "),
        entrypoint: join_strings(&ep, " "),
    };
    let ghost spec = image_details_spec(record@, config@, layer_count);
    assert(res@.labels == spec.labels);
    assert(res@.exposed_ports == spec.exposed_ports);
    assert(res@.env == spec.env);
    res
}


/// The position of the record an image name picks out of the store, if any.
pub open spec fn named_record(images: Seq<StoredImageRecord>, image: Seq<char>) -> Option<int> {
    first_where(store_views(images), |r: StoredImageRecordView| crate::store::names_image(r, image))
}

/// What inspecting a record gives once its configuration and layer count were
/// loaded, or the error of that load.
pub open spec fn inspect_outcome(
    rec: StoredImageRecordView,
    out: Result<(RuntimeConfig, usize), String>,
) -> Result<ImageDetailsInfoView, Seq<char>> {
    match out {
        Ok((c, n)) => Ok(image_details_spec(rec, c@, n)),
        Err(e) => Err(e@),
    }
}

pub open spec fn details_result_view(res: Result<ImageDetailsInfo, String>) -> Result<ImageDetailsInfoView, Seq<char>> {
    match res {
        Ok(d) => Ok(d@),
        Err(e) => Err(e@),
    }
}

/// `inspect_image_entry` by name: the first record whose full reference or
/// `repository:tag` is `image`, then `load(i)` reads record `i`'s configuration
/// and layer count from the store. A name that matches no record gives the
/// not-found error, and `load` is not called.
pub fn inspect_image_named<F>(images: &Vec<StoredImageRecord>, image: &str, load: F) -> (res: Result<
    ImageDetailsInfo,
    String,
>) where F: Fn(usize) -> Result<(RuntimeConfig, usize), String>
    requires
        forall|i: usize| i < images.len() ==> call_requires(load, (i,)),
    ensures
        match named_record(images@, image@) {
            None => res matches Err(e) && e@ == crate::store::not_found_message(image@),
            Some(i) => exists|out: Result<(RuntimeConfig, usize), String>|
                #[trigger] call_ensures(load, (i as usize,), out) && details_result_view(res)
                    == inspect_outcome(images@[i]@, out),
        },
{
    match find_stored_image(images, image) {
        Err(e) => Err(e),
        Ok(i) => {
            proof {
                crate::order::lemma_first_where_some(
                    store_views(images@),
                    |r: StoredImageRecordView| crate::store::names_image(r, image@),
                );
            }
            let out = load(i);
            let ghost g = out;
            let res = match out {
                Ok((config, layers)) => Ok(inspect_image_entry(&images[i], &config, layers)),
                Err(e) => Err(e),
            };
            assert(call_ensures(load, (i,), g));
            assert(details_result_view(res) == inspect_outcome(images@[i as int]@, g));
            assert(named_record(images@, image@) == Some(i as int));
            assert((i as int) as usize == i);
            res
        },
    }
}


/// A CPU architecture an image index names.
#[derive(PartialEq, Eq, Structural, Clone, Copy, Debug)]
pub enum CpuArch {
    Amd64,
    Arm64,
    Other,
}

/// The platform of an image index entry: whether it is Linux, and its CPU.
#[derive(Clone, Copy, Debug)]
pub struct Platform {
    pub linux: bool,
    pub arch: CpuArch,
}

/// An image index entry: the manifest digest and its platform, if given.
#[derive(Debug)]
pub struct PlatformEntry {
    pub digest: String,
    pub platform: Option<Platform>,
}

pub struct PlatformEntryView {
    pub digest: Seq<char>,
    pub platform: Option<Platform>,
}

impl View for PlatformEntry {
    type V = PlatformEntryView;

    open spec fn view(&self) -> PlatformEntryView {
        PlatformEntryView { digest: self.digest@, platform: self.platform }
    }
}

/// The architecture preferred on a host (`std::env::consts::ARCH`): ARM64 on
/// `aarch64`, else AMD64.
pub open spec fn preferred_arch(host: Seq<char>) -> CpuArch {
    if host == "aarch64"@ {
        CpuArch::Arm64
    } else {
        CpuArch::Amd64
    }
}

pub open spec fn is_linux_on(e: PlatformEntryView, arch: CpuArch) -> bool {
    match e.platform {
        Some(p) => p.linux && p.arch == arch,
        None => false,
    }
}

/// The manifest chosen from an image index: the first Linux entry for the
/// host's architecture, else the first Linux AMD64 entry.
pub open spec fn select_platform_spec(entries: Seq<PlatformEntryView>, host: Seq<char>) -> Option<
    Seq<char>,
> {
    match first_where(entries, |e: PlatformEntryView| is_linux_on(e, preferred_arch(host))) {
        Some(i) => Some(entries[i].digest),
        None => match first_where(entries, |e: PlatformEntryView| is_linux_on(e, CpuArch::Amd64)) {
            Some(i) => Some(entries[i].digest),
            None => None,
        },
    }
}

pub open spec fn entry_views(s: Seq<PlatformEntry>) -> Seq<PlatformEntryView> {
    s.map_values(|e: PlatformEntry| e@)
}

fn first_linux_on(entries: &Vec<PlatformEntry>, arch: CpuArch) -> (res: Option<usize>)
    ensures
        match res {
            Some(i) => first_where(
                entry_views(entries@),
                |e: PlatformEntryView| is_linux_on(e, arch),
            ) == Some(i as int),
            None => first_where(
                entry_views(entries@),
                |e: PlatformEntryView| is_linux_on(e, arch),
            ) is None,
        },
{
    let ghost ev = entry_views(entries@);
    let ghost p = |e: PlatformEntryView| is_linux_on(e, arch);
    let mut i: usize = 0;
    while i < entries.len()
        invariant
            i <= entries.len(),
            ev == entry_views(entries@),
            p == (|e: PlatformEntryView| is_linux_on(e, arch)),
            forall|j: int| 0 <= j < i ==> !p(#[trigger] ev[j]),
        decreases entries.len() - i,
    {
        let hit = match entries[i].platform {
            Some(pl) => pl.linux && pl.arch == arch,
            None => false,
        };
        if hit {
            proof {
                lemma_first_where(ev, p, i as int);
            }
            return Some(i);
        }
        i = i + 1;
    }
    proof {
        lemma_first_where(ev, p, i as int);
    }
    None
}

/// The platform resolver handed to the registry client.
pub fn select_platform(entries: &Vec<PlatformEntry>, host_arch: &str) -> (res: Option<String>)
    ensures
        res.deep_view() == select_platform_spec(entry_views(entries@), host_arch@),
{
    let preferred = if str_eq(host_arch, "aarch64") {
        CpuArch::Arm64
    } else {
        CpuArch::Amd64
    };
    proof {
        crate::order::lemma_first_where_some(
            entry_views(entries@),
            |e: PlatformEntryView| is_linux_on(e, preferred),
        );
        crate::order::lemma_first_where_some(
            entry_views(entries@),
            |e: PlatformEntryView| is_linux_on(e, CpuArch::Amd64),
        );
    }
    assert(preferred == preferred_arch(host_arch@));
    match first_linux_on(entries, preferred) {
        Some(i) => {
            assert(entry_views(entries@)[i as int] == entries@[i as int]@);
            Some(entries[i].digest.clone())
        },
        None => match first_linux_on(entries, CpuArch::Amd64) {
            Some(i) => {
                assert(entry_views(entries@)[i as int] == entries@[i as int]@);
                Some(entries[i].digest.clone())
            },
            None => None,
        },
    }
}

/// What the store deletes once an image's record is gone.
#[derive(Debug)]
pub struct GcPlan {
    /// The layer blobs to delete.
    pub layers: Vec<String>,
    /// Whether the image's manifest is deleted.
    pub manifest: bool,
    /// Whether the image's configuration is deleted.
    pub config: bool,
}

pub struct GcPlanView {
    pub layers: Seq<Seq<char>>,
    pub manifest: bool,
    pub config: bool,
}

impl View for GcPlan {
    type V = GcPlanView;

    open spec fn view(&self) -> GcPlanView {
        GcPlanView { layers: self.layers.deep_view(), manifest: self.manifest, config: self.config }
    }
}

pub open spec fn manifest_used(kept: Seq<StoredImageRecordView>, digest: Seq<char>) -> bool {
    exists|i: int| 0 <= i < kept.len() && (#[trigger] kept[i]).manifest_digest == digest
}

pub open spec fn config_used(kept: Seq<StoredImageRecordView>, digest: Seq<char>) -> bool {
    exists|i: int| 0 <= i < kept.len() && (#[trigger] kept[i]).config_digest == digest
}

/// `garbage_collect_store`: the removed image's manifest and its layers that
/// no kept manifest lists go where no kept record uses that manifest; its
/// configuration goes where no kept record uses it.
pub open spec fn gc_plan_spec(
    kept: Seq<StoredImageRecordView>,
    kept_layers: Seq<Seq<char>>,
    removed: StoredImageRecordView,
    removed_layers: Seq<Seq<char>>,
) -> GcPlanView {
    let manifest = !manifest_used(kept, removed.manifest_digest);
    GcPlanView {
        layers: if manifest {
            removed_layers.filter(|l: Seq<char>| !kept_layers.contains(l))
        } else {
            Seq::empty()
        },
        manifest,
        config: !config_used(kept, removed.config_digest),
    }
}

fn contains_text(v: &Vec<String>, x: &str) -> (res: bool)
    ensures
        res == v.deep_view().contains(x@),
{
    let mut i: usize = 0;
    while i < v.len()
        invariant
            i <= v.len(),
            forall|j: int| 0 <= j < i ==> v.deep_view()[j] != x@,
        decreases v.len() - i,
    {
        if str_eq(v[i].as_str(), x) {
            assert(v.deep_view()[i as int] == x@);
            return true;
        }
        i = i + 1;
    }
    false
}

pub open spec fn store_views(s: Seq<StoredImageRecord>) -> Seq<StoredImageRecordView> {
    s.map_values(|r: StoredImageRecord| r@)
}

/// `kept_layers` are the layers the kept records' manifests list;
/// `removed_layers` those of the removed image's manifest.
pub fn garbage_collect_store(
    kept: &Vec<StoredImageRecord>,
    kept_layers: &Vec<String>,
    removed: &StoredImageRecord,
    removed_layers: &Vec<String>,
) -> (res: GcPlan)
    ensures
        res@ == gc_plan_spec(
            store_views(kept@),
            kept_layers.deep_view(),
            removed@,
            removed_layers.deep_view(),
        ),
{
    broadcast use vstd::seq::Seq::lemma_filter_push;

    let ghost kv = store_views(kept@);
    let mut manifest_seen = false;
    let mut config_seen = false;
    let mut i: usize = 0;
    while i < kept.len()
        invariant
            i <= kept.len(),
            kv == store_views(kept@),
            manifest_seen <==> exists|j: int|
                0 <= j < i && (#[trigger] kv[j]).manifest_digest == removed@.manifest_digest,
            config_seen <==> exists|j: int|
                0 <= j < i && (#[trigger] kv[j]).config_digest == removed@.config_digest,
        decreases kept.len() - i,
    {
        assert(kv[i as int] == kept@[i as int]@);
        if str_eq(kept[i].manifest_digest.as_str(), removed.manifest_digest.as_str()) {
            manifest_seen = true;
        }
        if str_eq(kept[i].config_digest.as_str(), removed.config_digest.as_str()) {
            config_seen = true;
        }
        i = i + 1;
    }
    let mut layers: Vec<String> = Vec::new();
    let ghost pred = |l: Seq<char>| !kept_layers.deep_view().contains(l);
    let ghost rl = removed_layers.deep_view();
    if !manifest_seen {
        let mut k: usize = 0;
        reveal_with_fuel(Seq::filter, 1);
        assert(rl.take(0).filter(pred) =~= Seq::<Seq<char>>::empty());
        while k < removed_layers.len()
            invariant
                k <= removed_layers.len(),
                rl == removed_layers.deep_view(),
                pred == (|l: Seq<char>| !kept_layers.deep_view().contains(l)),
                layers.deep_view() == rl.take(k as int).filter(pred),
            decreases removed_layers.len() - k,
        {
            assert(rl.take(k + 1) =~= rl.take(k as int).push(rl[k as int]));
            proof {
                rl.take(k as int).lemma_filter_push(rl[k as int], pred);
            }
            let used = contains_text(kept_layers, removed_layers[k].as_str());
            if !used {
                let ghost before = layers.deep_view();
                layers.push(removed_layers[k].clone());
                assert(layers.deep_view() =~= before.push(rl[k as int]));
            }
            k = k + 1;
        }
        assert(rl.take(removed_layers.len() as int) =~= rl);
    }
    assert(!manifest_seen ==> layers.deep_view() == removed_layers.deep_view().filter(
        |l: Seq<char>| !kept_layers.deep_view().contains(l),
    ));
    assert(manifest_seen == manifest_used(kv, removed@.manifest_digest));
    assert(config_seen == config_used(kv, removed@.config_digest));
    let res = GcPlan { layers, manifest: !manifest_seen, config: !config_seen };
    let ghost spec = gc_plan_spec(kv, kept_layers.deep_view(), removed@, removed_layers.deep_view());
    assert(res@.manifest == spec.manifest);
    assert(res@.config == spec.config);
    assert(res@.layers == spec.layers);
    res
}

/// The store never deletes what a kept image still uses: no layer a kept
/// manifest lists, no manifest or configuration a kept record names.
pub proof fn law_gc_keeps_what_is_used(
    kept: Seq<StoredImageRecordView>,
    kept_layers: Seq<Seq<char>>,
    removed: StoredImageRecordView,
    removed_layers: Seq<Seq<char>>,
)
    ensures
        ({
            let plan = gc_plan_spec(kept, kept_layers, removed, removed_layers);
            &&& forall|i: int| 0 <= i < plan.layers.len() ==> !kept_layers.contains(
                #[trigger] plan.layers[i],
            )
            &&& forall|i: int| 0 <= i < plan.layers.len() ==> removed_layers.contains(
                #[trigger] plan.layers[i],
            )
            &&& plan.manifest ==> forall|i: int|
                0 <= i < kept.len() ==> (#[trigger] kept[i]).manifest_digest
                    != removed.manifest_digest
            &&& plan.config ==> forall|i: int|
                0 <= i < kept.len() ==> (#[trigger] kept[i]).config_digest
                    != removed.config_digest
        }),
{
    let pred = |l: Seq<char>| !kept_layers.contains(l);
    let plan = gc_plan_spec(kept, kept_layers, removed, removed_layers);
    assert forall|i: int| 0 <= i < plan.layers.len() implies !kept_layers.contains(
        #[trigger] plan.layers[i],
    ) && removed_layers.contains(plan.layers[i]) by {
        removed_layers.lemma_filter_pred(pred, i);
        assert(removed_layers.filter(pred).contains(plan.layers[i]));
        removed_layers.lemma_filter_contains_rev(pred, plan.layers[i]);
    }
}

pub open spec fn any_prefix(s: Seq<char>) -> bool {
    starts_with(s, "https://"@) || starts_with(s, "http://"@) || starts_with(s, "git@"@)
        || starts_with(s, "ssh://"@)
}

/// Whether a build context names a Git repository.
pub open spec fn git_url_spec(s: Seq<char>) -> bool {
    any_prefix(s) || ends_with(s, ".git"@)
}

pub fn looks_like_git_url(value: &str) -> (res: bool)
    ensures
        res == git_url_spec(value@),
{
    str_starts_with(value, "https://") || str_starts_with(value, "http://") || str_starts_with(
        value,
        "git@",
    ) || str_starts_with(value, "ssh://") || str_ends_with(value, ".git")
}

pub open spec fn is_hex_digit(c: char) -> bool {
    ('0' <= c && c <= '9') || ('a' <= c && c <= 'f') || ('A' <= c && c <= 'F')
}

/// Whether a text reads as a container id: at least twelve hex digits and nothing else.
pub open spec fn container_id_spec(s: Seq<char>) -> bool {
    s.len() >= 12 && forall|i: int| 0 <= i < s.len() ==> is_hex_digit(#[trigger] s[i])
}

pub fn looks_like_container_id(value: &str) -> (res: bool)
    ensures
        res == container_id_spec(value@),
{
    let chars = chars_of(value);
    if chars.len() < 12 {
        return false;
    }
    let mut i: usize = 0;
    while i < chars.len()
        invariant
            i <= chars.len(),
            chars@ == value@,
            forall|j: int| 0 <= j < i ==> is_hex_digit(#[trigger] chars@[j]),
        decreases chars.len() - i,
    {
        let c = chars[i];
        if !(('0' <= c && c <= '9') || ('a' <= c && c <= 'f') || ('A' <= c && c <= 'F')) {
            assert(!is_hex_digit(chars@[i as int]));
            return false;
        }
        i = i + 1;
    }
    true
}

/// Where the Dockerfile of a build is looked for: the given path (under the
/// context unless absolute), else `Dockerfile` in the context.
pub open spec fn dockerfile_candidate_spec(root: Seq<char>, given: Option<Seq<char>>) -> Seq<char> {
    match opt_trim_of(given) {
        Some(p) => if path_is_absolute(p) {
            p
        } else {
            path_join(root, p)
        },
        None => path_join(root, "Dockerfile"@),
    }
}

pub fn resolve_dockerfile_path(root: &str, given: Option<&str>) -> (res: String)
    ensures
        res@ == dockerfile_candidate_spec(
            root@,
            match given {
                Some(t) => Some(t@),
                None => None,
            },
        ),
{
    let picked = match given {
        Some(t) => trimmed_option(t),
        None => None,
    };
    match picked {
        Some(p) => {
            if is_absolute_path(p.as_str()) {
                p
            } else {
                join_path(root, p.as_str())
            }
        },
        None => join_path(root, "Dockerfile"),
    }
}

/// The images of a Dockerfile's `FROM` instructions, in order.
pub open spec fn from_images(instrs: Seq<InstrView>) -> Seq<Seq<char>>
    decreases instrs.len(),
{
    if instrs.len() == 0 {
        Seq::empty()
    } else {
        let rest = from_images(instrs.drop_last());
        match instrs.last() {
            InstrView::From(image) => rest.push(image),
            _ => rest,
        }
    }
}

/// The base image of a build: the image of its one `FROM` stage.
pub open spec fn base_image_spec(instrs: Seq<InstrView>) -> Result<Seq<char>, Seq<char>> {
    if from_images(instrs).len() == 1 {
        Ok(from_images(instrs)[0])
    } else {
        Err("native builder currently supports exactly one FROM stage"@)
    }
}

pub open spec fn instr_views(s: Seq<Instr>) -> Seq<InstrView> {
    s.map_values(|i: Instr| i@)
}

pub fn base_image_of(instrs: &Vec<Instr>) -> (res: Result<String, String>)
    ensures
        match base_image_spec(instr_views(instrs@)) {
            Ok(image) => res matches Ok(r) && r@ == image,
            Err(m) => res matches Err(e) && e@ == m,
        },
{
    let ghost iv = instr_views(instrs@);
    let mut images: Vec<String> = Vec::new();
    let mut i: usize = 0;
    while i < instrs.len()
        invariant
            i <= instrs.len(),
            iv == instr_views(instrs@),
            images.deep_view() == from_images(iv.take(i as int)),
        decreases instrs.len() - i,
    {
        assert(iv.take(i + 1).drop_last() =~= iv.take(i as int));
        assert(iv.take(i + 1).last() == instrs@[i as int]@);
        match &instrs[i] {
            Instr::From(image) => {
                let ghost before = images.deep_view();
                images.push(image.clone());
                assert(images.deep_view() =~= before.push(image@));
            },
            _ => {},
        }
        i = i + 1;
    }
    assert(iv.take(instrs.len() as int) =~= iv);
    if images.len() == 1 {
        Ok(images[0].clone())
    } else {
        Err(String::from_str("native builder currently supports exactly one FROM stage"))
    }
}

/// The error of a failed `git clone`: with its trimmed error output where there is any.
pub open spec fn clone_failure_spec(stderr: Seq<char>) -> Seq<char> {
    if trim(stderr).len() == 0 {
        "git clone failed"@
    } else {
        "git clone failed: "@ + trim(stderr)
    }
}

pub fn git_clone_failure(stderr: &str) -> (res: String)
    ensures
        res@ == clone_failure_spec(stderr@),
{
    let t = trim_str(stderr);
    if t.as_str().is_empty() {
        String::from_str("git clone failed")
    } else {
        concat_str("git clone failed: ", t.as_str())
    }
}


/// The error for a build context that is neither a folder nor a Git URL.
pub open spec fn bad_context_spec(context: Seq<char>) -> Seq<char> {
    "build context `"@ + context + "` is not a directory or supported Git URL"@
}

pub fn bad_context_message(context: &str) -> (res: String)
    ensures
        res@ == bad_context_spec(context@),
{
    let a = concat_str("build context `", context);
    concat_str(a.as_str(), "` is not a directory or supported Git URL")
}

/// The error for a Dockerfile that is not where it was looked for.
pub open spec fn dockerfile_missing_spec(candidate: Seq<char>) -> Seq<char> {
    "Dockerfile not found at "@ + candidate
}

pub fn dockerfile_missing_message(candidate: &str) -> (res: String)
    ensures
        res@ == dockerfile_missing_spec(candidate@),
{
    concat_str("Dockerfile not found at ", candidate)
}

} // verus!
