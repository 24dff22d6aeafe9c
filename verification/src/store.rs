//! The native image store: its records, lookups, updates and listings.

use vstd::prelude::*;
use crate::model::{DockerImageInfo, DockerImageInfoView, StoredImageRecord, StoredImageRecordView};
use crate::order::{
    first_where, lemma_first_where, lemma_first_where_some, lemma_stable_order_len, sorted_by_keys, stable_order,
    stable_sort_positions,
};
use crate::text::{
    chars_of, concat_chars, lemma_char_vec_deep_view, split_once, split_once_chars, str_eq,
    string_of, take_chars, take_prefix,
};
use crate::units::{format_bytes, format_bytes_spec};

verus! {

/// The image records kept in the store's metadata file.
#[derive(Debug)]
pub struct EngineState {
    pub images: Vec<StoredImageRecord>,
}

pub open spec fn record_views(s: Seq<StoredImageRecord>) -> Seq<StoredImageRecordView> {
    s.map_values(|r: StoredImageRecord| r@)
}

impl View for EngineState {
    type V = Seq<StoredImageRecordView>;

    open spec fn view(&self) -> Seq<StoredImageRecordView> {
        record_views(self.images@)
    }
}

impl EngineState {
    /// A store with no images.
    pub fn new() -> (res: Self)
        ensures
            res@ == Seq::<StoredImageRecordView>::empty(),
    {
        let res = EngineState { images: Vec::new() };
        assert(res@ =~= Seq::<StoredImageRecordView>::empty());
        res
    }
}

/// `repository:tag`.
pub open spec fn display_of(r: StoredImageRecordView) -> Seq<char> {
    r.repository + seq![':'] + r.tag
}

/// The short name of a record, `repository:tag`.
pub fn display_record(record: &StoredImageRecord) -> (res: String)
    ensures
        res@ == display_of(record@),
{
    let mut s = record.repository.clone();
    s.append(":");
    proof {
        reveal_strlit(":");
    }
    s.append(record.tag.as_str());
    s
}

/// A record answers to its canonical reference and to `repository:tag`.
pub open spec fn names_image(r: StoredImageRecordView, image: Seq<char>) -> bool {
    r.canonical_reference == image || display_of(r) == image
}

pub fn record_names_image(record: &StoredImageRecord, image: &str) -> (res: bool)
    ensures
        res == names_image(record@, image@),
{
    let d = display_record(record);
    str_eq(record.canonical_reference.as_str(), image) || str_eq(d.as_str(), image)
}

/// Position of the first record that answers to `image`.
pub fn find_image_index(images: &Vec<StoredImageRecord>, image: &str) -> (res: Option<usize>)
    ensures
        res matches Some(i) ==> first_where(
            record_views(images@),
            |r: StoredImageRecordView| names_image(r, image@),
        ) == Some(i as int),
        res is None ==> first_where(
            record_views(images@),
            |r: StoredImageRecordView| names_image(r, image@),
        ) is None,
{
    let ghost p = |r: StoredImageRecordView| names_image(r, image@);
    let ghost rv = record_views(images@);
    let mut i: usize = 0;
    while i < images.len()
        invariant
            i <= images.len(),
            rv == record_views(images@),
            p == (|r: StoredImageRecordView| names_image(r, image@)),
            forall|j: int| 0 <= j < i ==> !p(#[trigger] rv[j]),
        decreases images.len() - i,
    {
        if record_names_image(&images[i], image) {
            proof {
                lemma_first_where(rv, p, i as int);
            }
            return Some(i);
        }
        i = i + 1;
    }
    proof {
        lemma_first_where(rv, p, i as int);
    }
    None
}

/// A record survives adding `new` unless it has the same `repository:tag` or
/// the same canonical reference.
pub open spec fn survives_upsert(item: StoredImageRecordView, new: StoredImageRecordView) -> bool {
    !(item.repository == new.repository && item.tag == new.tag) && item.canonical_reference
        != new.canonical_reference
}

/// The store after `upsert_record`.
pub open spec fn upsert_spec(
    images: Seq<StoredImageRecordView>,
    new: StoredImageRecordView,
) -> Seq<StoredImageRecordView> {
    images.filter(|item: StoredImageRecordView| survives_upsert(item, new)).push(new)
}

/// Replaces every record with the same `repository:tag` or canonical reference
/// by `record`, which goes last.
pub fn upsert_record(state: &mut EngineState, record: StoredImageRecord)
    ensures
        final(state)@ == upsert_spec(old(state)@, record@),
{
    broadcast use vstd::seq::Seq::lemma_filter_push;

    let ghost p = |item: StoredImageRecordView| survives_upsert(item, record@);
    let ghost ov = old(state)@;
    let mut kept: Vec<StoredImageRecord> = Vec::new();
    let mut i: usize = 0;
    reveal_with_fuel(Seq::filter, 1);
    assert(record_views(kept@) =~= ov.take(0).filter(p));
    while i < state.images.len()
        invariant
            i <= state.images.len(),
            ov == state@,
            p == (|item: StoredImageRecordView| survives_upsert(item, record@)),
            record_views(kept@) == ov.take(i as int).filter(p),
        decreases state.images.len() - i,
    {
        let item = &state.images[i];
        let same_name = str_eq(item.repository.as_str(), record.repository.as_str()) && str_eq(
            item.tag.as_str(),
            record.tag.as_str(),
        );
        let same_ref = str_eq(
            item.canonical_reference.as_str(),
            record.canonical_reference.as_str(),
        );
        assert(ov.take(i + 1) =~= ov.take(i as int).push(ov[i as int]));
        let ghost before = record_views(kept@);
        proof {
            ov.take(i as int).lemma_filter_push(ov[i as int], p);
            assert(ov[i as int] == item@);
            assert(p(ov[i as int]) == (!same_name && !same_ref));
        }
        if !same_name && !same_ref {
            kept.push(item.clone());
            assert(record_views(kept@) =~= before.push(ov[i as int]));
        }
        i = i + 1;
    }
    assert(ov.take(i as int) =~= ov);
    let ghost before = record_views(kept@);
    kept.push(record);
    assert(record_views(kept@) =~= before.push(record@));
    state.images = kept;
}

/// No two records share a `repository:tag` or a canonical reference.
pub open spec fn distinct_records(s: Seq<StoredImageRecordView>) -> bool {
    forall|i: int, j: int|
        0 <= i < j < s.len() ==> !(s[i].repository == s[j].repository && s[i].tag == s[j].tag)
            && s[i].canonical_reference != s[j].canonical_reference
}

proof fn lemma_filter_keeps_distinct(s: Seq<StoredImageRecordView>, p: spec_fn(StoredImageRecordView) -> bool)
    requires
        distinct_records(s),
    ensures
        distinct_records(s.filter(p)),
    decreases s.len(),
{
    reveal(Seq::filter);
    if s.len() > 0 {
        let d = s.drop_last();
        assert(distinct_records(d)) by {
            assert forall|i: int, j: int| 0 <= i < j < d.len() implies !(d[i].repository
                == d[j].repository && d[i].tag == d[j].tag) && d[i].canonical_reference
                != d[j].canonical_reference by {
                assert(d[i] == s[i] && d[j] == s[j]);
            }
        }
        lemma_filter_keeps_distinct(d, p);
        let f = d.filter(p);
        if p(s.last()) {
            let g = f.push(s.last());
            assert forall|i: int, j: int| 0 <= i < j < g.len() implies !(g[i].repository
                == g[j].repository && g[i].tag == g[j].tag) && g[i].canonical_reference
                != g[j].canonical_reference by {
                if j == g.len() - 1 {
                    assert(f.contains(g[i]));
                    d.lemma_filter_contains_rev(p, g[i]);
                    let k = choose|k: int| 0 <= k < d.len() && d[k] == g[i];
                    assert(s[k] == g[i] && s[s.len() - 1] == g[j]);
                } else {
                    assert(g[i] == f[i] && g[j] == f[j]);
                }
            }
        }
    }
}

/// Adding a record keeps the store free of duplicate names and references.
pub proof fn law_upsert_keeps_records_distinct(
    images: Seq<StoredImageRecordView>,
    new: StoredImageRecordView,
)
    requires
        distinct_records(images),
    ensures
        distinct_records(upsert_spec(images, new)),
{
    broadcast use vstd::seq::Seq::lemma_filter_pred;

    let p = |item: StoredImageRecordView| survives_upsert(item, new);
    lemma_filter_keeps_distinct(images, p);
    let f = images.filter(p);
    let g = f.push(new);
    assert forall|i: int, j: int| 0 <= i < j < g.len() implies !(g[i].repository
        == g[j].repository && g[i].tag == g[j].tag) && g[i].canonical_reference
        != g[j].canonical_reference by {
        assert(g[i] == f[i]);
        if j == g.len() - 1 {
            assert(p(f[i]));
        } else {
            assert(g[j] == f[j]);
        }
    }
}

/// After a record is added, looking up its canonical reference finds it.
pub proof fn law_upsert_then_find(images: Seq<StoredImageRecordView>, new: StoredImageRecordView)
    ensures
        ({
            let after = upsert_spec(images, new);
            first_where(
                after,
                |r: StoredImageRecordView| r.canonical_reference == new.canonical_reference,
            ) == Some(after.len() - 1) && after[after.len() - 1] == new
        }),
{
    broadcast use vstd::seq::Seq::lemma_filter_pred;

    let p = |item: StoredImageRecordView| survives_upsert(item, new);
    let q = |r: StoredImageRecordView| r.canonical_reference == new.canonical_reference;
    let f = images.filter(p);
    let after = f.push(new);
    assert forall|j: int| 0 <= j < after.len() - 1 implies !q(#[trigger] after[j]) by {
        assert(after[j] == f[j]);
        assert(p(f[j]));
    }
    lemma_first_where(after, q, after.len() - 1);
}

/// The first record with the given canonical reference.
pub fn find_record(state: &EngineState, canonical_reference: &str) -> (res: Option<
    StoredImageRecord,
>)
    ensures
        match first_where(
            state@,
            |r: StoredImageRecordView| r.canonical_reference == canonical_reference@,
        ) {
            Some(i) => res matches Some(r) && r@ == state@[i],
            None => res is None,
        },
{
    let ghost p = |r: StoredImageRecordView| r.canonical_reference == canonical_reference@;
    let mut i: usize = 0;
    while i < state.images.len()
        invariant
            i <= state.images.len(),
            p == (|r: StoredImageRecordView| r.canonical_reference == canonical_reference@),
            forall|j: int| 0 <= j < i ==> !p(#[trigger] state@[j]),
        decreases state.images.len() - i,
    {
        if str_eq(state.images[i].canonical_reference.as_str(), canonical_reference) {
            proof {
                lemma_first_where(state@, p, i as int);
            }
            return Some(state.images[i].clone());
        }
        i = i + 1;
    }
    proof {
        lemma_first_where(state@, p, i as int);
    }
    None
}

/// The message for an image that the store does not hold.
pub open spec fn not_found_message(image: Seq<char>) -> Seq<char> {
    "image `"@ + image + "` was not found in the native store"@
}

/// Removes the first record that answers to `image` and returns it.
pub fn remove_image_entry(state: &mut EngineState, image: &str) -> (res: Result<
    StoredImageRecord,
    String,
>)
    ensures
        match first_where(old(state)@, |r: StoredImageRecordView| names_image(r, image@)) {
            Some(i) => res matches Ok(r) && r@ == old(state)@[i] && final(state)@ == old(
                state,
            )@.remove(i),
            None => res matches Err(msg) && msg@ == not_found_message(image@) && final(state)@
                == old(state)@,
        },
{
    match find_image_index(&state.images, image) {
        Some(i) => {
            proof {
                lemma_first_where_some(
                    record_views(state.images@),
                    |r: StoredImageRecordView| names_image(r, image@),
                );
            }
            let ghost ov = state@;
            let removed = state.images.remove(i);
            assert(state@ =~= ov.remove(i as int));
            Ok(removed)
        },
        None => {
            let mut msg = String::from_str("image `");
            msg.append(image);
            msg.append("` was not found in the native store");
            Err(msg)
        },
    }
}

/// `digest` shortened for display: `algo:` and twelve characters, or the first
/// eighteen characters when there is no `:`.
pub open spec fn shorten_digest_spec(digest: Seq<char>) -> Seq<char> {
    match split_once(digest, ':') {
        Some((algo, hex)) => algo + seq![':'] + take_chars(hex, 12),
        None => take_chars(digest, 18),
    }
}

pub fn shorten_digest(digest: &str) -> (res: String)
    ensures
        res@ == shorten_digest_spec(digest@),
{
    broadcast use lemma_char_vec_deep_view;

    let d = chars_of(digest);
    match split_once_chars(&d, ':') {
        Some((algo, hex)) => {
            let mut out = algo;
            out.push(':');
            let short = take_prefix(&hex, 12);
            let joined = concat_chars(&out, &short);
            string_of(&joined)
        },
        None => {
            let short = take_prefix(&d, 18);
            string_of(&short)
        },
    }
}

/// The list row for a stored image.
pub open spec fn image_info_spec(r: StoredImageRecordView) -> DockerImageInfoView {
    DockerImageInfoView {
        repository: r.repository,
        tag: r.tag,
        image_id: shorten_digest_spec(r.config_digest),
        size: format_bytes_spec(r.size_bytes as nat),
        source: r.source,
    }
}

pub fn image_info_of(record: &StoredImageRecord) -> (res: DockerImageInfo)
    ensures
        res@ == image_info_spec(record@),
{
    DockerImageInfo {
        repository: record.repository.clone(),
        tag: record.tag.clone(),
        image_id: shorten_digest(record.config_digest.as_str()),
        size: format_bytes(record.size_bytes),
        source: record.source.clone(),
    }
}

pub open spec fn image_info_views(s: Seq<DockerImageInfo>) -> Seq<DockerImageInfoView> {
    s.map_values(|i: DockerImageInfo| i@)
}

/// The image list: one row per record, sorted by repository and then tag.
pub open spec fn list_images_spec(images: Seq<StoredImageRecordView>) -> Seq<DockerImageInfoView> {
    sorted_by_keys(
        images.map_values(|r: StoredImageRecordView| (r.repository, r.tag)),
        images.map_values(|r: StoredImageRecordView| image_info_spec(r)),
    )
}

pub fn list_images(state: &EngineState) -> (res: Vec<DockerImageInfo>)
    ensures
        image_info_views(res@) == list_images_spec(state@),
{
    broadcast use lemma_char_vec_deep_view;

    let ghost kspec = state@.map_values(|r: StoredImageRecordView| (r.repository, r.tag));
    let ghost ispec = state@.map_values(|r: StoredImageRecordView| image_info_spec(r));
    let mut keys: Vec<(Vec<char>, Vec<char>)> = Vec::new();
    let mut infos: Vec<DockerImageInfo> = Vec::new();
    let mut i: usize = 0;
    while i < state.images.len()
        invariant
            i <= state.images.len(),
            keys.deep_view() =~= kspec.take(i as int),
            image_info_views(infos@) =~= ispec.take(i as int),
            kspec == state@.map_values(|r: StoredImageRecordView| (r.repository, r.tag)),
            ispec == state@.map_values(|r: StoredImageRecordView| image_info_spec(r)),
        decreases state.images.len() - i,
    {
        let r = &state.images[i];
        let a = chars_of(r.repository.as_str());
        let b = chars_of(r.tag.as_str());
        let ghost ok = keys.deep_view();
        let ghost oi = image_info_views(infos@);
        assert(a.deep_view() == a@ && b.deep_view() == b@);
        keys.push((a, b));
        infos.push(image_info_of(r));
        assert(keys.deep_view() =~= ok.push(kspec[i as int]));
        assert(image_info_views(infos@) =~= oi.push(ispec[i as int]));
        i = i + 1;
    }
    assert(keys.deep_view() =~= kspec);
    assert(image_info_views(infos@) =~= ispec);
    let order = stable_sort_positions(&keys);
    proof {
        lemma_stable_order_len(kspec);
    }
    let mut res: Vec<DockerImageInfo> = Vec::new();
    let mut j: usize = 0;
    while j < order.len()
        invariant
            kspec == keys.deep_view(),
            ispec == image_info_views(infos@),
            infos.len() == keys.len(),
            order@.map_values(|i: usize| i as int) == stable_order(kspec),
            order.len() == keys.len(),
            forall|k: int| 0 <= k < order.len() ==> #[trigger] order@[k] < keys.len(),
            j <= order.len(),
            image_info_views(res@) =~= sorted_by_keys(kspec, ispec).take(j as int),
        decreases order.len() - j,
    {
        let ghost old_res = image_info_views(res@);
        assert(stable_order(kspec)[j as int] == order@[j as int] as int);
        res.push(infos[order[j]].clone());
        assert(image_info_views(res@) =~= old_res.push(sorted_by_keys(kspec, ispec)[j as int]));
        j = j + 1;
    }
    assert(image_info_views(res@) =~= sorted_by_keys(kspec, ispec));
    res
}


/// The image list is ordered by repository, then by tag.
pub proof fn law_image_list_is_ordered(images: Seq<StoredImageRecordView>)
    ensures
        ({
            let list = list_images_spec(images);
            forall|a: int, b: int|
                0 <= a < b < list.len() ==> crate::order::key_le(
                    (#[trigger] list[a].repository, list[a].tag),
                    (#[trigger] list[b].repository, list[b].tag),
                )
        }),
{
    let kspec = images.map_values(|r: StoredImageRecordView| (r.repository, r.tag));
    let ispec = images.map_values(|r: StoredImageRecordView| image_info_spec(r));
    let o = stable_order(kspec);
    crate::order::law_stable_order_is_ordered(kspec);
    lemma_stable_order_len(kspec);
    crate::order::lemma_stable_order_bounds(kspec);
    let list = list_images_spec(images);
    assert forall|a: int, b: int| 0 <= a < b < list.len() implies crate::order::key_le(
        (#[trigger] list[a].repository, list[a].tag),
        (#[trigger] list[b].repository, list[b].tag),
    ) by {
        assert(list[a] == ispec[o[a]]);
        assert(list[b] == ispec[o[b]]);
        assert(kspec[o[a]] == (list[a].repository, list[a].tag));
        assert(kspec[o[b]] == (list[b].repository, list[b].tag));
    }
}


/// The image list shows every stored image once: it is the records'
/// rows in the order of some permutation of the records.
pub proof fn law_image_list_shows_each_record_once(images: Seq<StoredImageRecordView>)
    ensures
        ({
            let o = stable_order(images.map_values(|r: StoredImageRecordView| (r.repository, r.tag)));
            let list = list_images_spec(images);
            &&& crate::order::is_permutation(o, images.len() as int)
            &&& list.len() == images.len()
            &&& forall|a: int| 0 <= a < list.len() ==> #[trigger] list[a] == image_info_spec(images[o[a]])
        }),
{
    let kspec = images.map_values(|r: StoredImageRecordView| (r.repository, r.tag));
    crate::order::law_stable_order_is_permutation(kspec);
    lemma_stable_order_len(kspec);
}

} // verus!
