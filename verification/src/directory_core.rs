//! Directory logic: the manifest partition filter, the chunked file store,
//! and the file bookkeeping behind stats and deferred deletion.
//!
//! The storage adapters move bytes; everything they decide — which
//! manifest a reader sees, how a payload splits into parts and reassembles,
//! which keys address it, which files belong to a segment — is here.

use vstd::prelude::*;

use crate::json_data::Jv;
use crate::json_data::JsonValue;
use crate::json_data::jv_of;
use crate::json_data::jv_of_members;
use crate::json_data::clone_value;
use crate::pagination::SegmentMeta;
use crate::pagination::seg_views;
use crate::pagination::sm_to_json;
use crate::schema::is_prefix_of;
use crate::schema::starts_with;
use crate::search_doc::member_idx_from;
use crate::text::clone_string;
use crate::text::str_concat;
use crate::text::str_eq;

verus! {

use vstd::string::StringSliceAdditionalSpecFns;


/// The first-member index stays within bounds.
proof fn lemma_member_idx_bounds(ms: Seq<(Seq<char>, Jv)>, key: Seq<char>, i: int)
    requires
        0 <= i <= ms.len(),
    ensures
        i <= member_idx_from(ms, key, i) <= ms.len(),
    decreases ms.len() - i,
{
    if i < ms.len() && ms[i].0 != key {
        lemma_member_idx_bounds(ms, key, i + 1);
    }
}

/// Replaces the `segments` member of a manifest object with the pinned
/// snapshot, leaving every other member as it was (appending the member
/// when the manifest lacks one).  This is how a reader opened with a
/// pinned snapshot sees only its partition's segments: the on-disk bytes
/// stay untouched.  Fails exactly when the manifest is not an object.
#[verifier::loop_isolation(false)]
pub fn apply_manifest_filter(meta: &JsonValue, segments: &Vec<SegmentMeta>) -> (r: Option<
    JsonValue,
>)
    ensures
        r is Some <==> jv_of(*meta) is Obj,
        r matches Some(f) ==> {
            let ms0 = jv_of(*meta)->Obj_0;
            let p = member_idx_from(ms0, "segments"@, 0);
            let pinned = ("segments"@, Jv::Arr(seg_views(segments@)));
            &&& jv_of(f) is Obj
            &&& (p < ms0.len() ==> jv_of(f)->Obj_0 == ms0.update(p, pinned))
            &&& (p >= ms0.len() ==> jv_of(f)->Obj_0 == ms0.push(pinned))
        },
{
    match meta {
        JsonValue::Obj(ms) => {
            proof {
                crate::json_data::lemma_jv_of_members(ms@);
            }
            let ghost ms0 = jv_of_members(ms@);
            let mut segs_json: Vec<JsonValue> = Vec::new();
            let mut s: usize = 0;
            while s < segments.len()
                invariant
                    s <= segments.len(),
                    segs_json@.len() == s,
                    forall|k: int| 0 <= k < s ==> jv_of(#[trigger] segs_json@[k])
                        == segments@[k]@,
                decreases segments.len() - s,
            {
                let j = sm_to_json(&segments[s]);
                segs_json.push(j);
                s = s + 1;
            }
            let pinned_value = JsonValue::Arr(segs_json);
            proof {
                crate::json_data::lemma_jv_of_items(pinned_value->Arr_0@);
                assert(crate::json_data::jv_of_items(pinned_value->Arr_0@) =~= seg_views(
                    segments@,
                ));
            }
            proof {
                lemma_member_idx_bounds(ms0, "segments"@, 0);
            }
            let mut members: Vec<(String, JsonValue)> = Vec::new();
            let mut i: usize = 0;
            let mut replaced: bool = false;
            while i < ms.len()
                invariant
                    i <= ms@.len(),
                    members@.len() == i,
                    replaced <==> member_idx_from(ms0, "segments"@, 0) < i,
                    member_idx_from(ms0, "segments"@, 0) >= i ==> member_idx_from(
                        ms0,
                        "segments"@,
                        0,
                    ) == member_idx_from(ms0, "segments"@, i as int),
                    forall|k: int|
                        0 <= k < i && k != member_idx_from(ms0, "segments"@, 0)
                            ==> #[trigger] jv_of_members(members@)[k] == ms0[k],
                    replaced ==> jv_of_members(members@)[member_idx_from(ms0, "segments"@, 0)]
                        == ("segments"@, Jv::Arr(seg_views(segments@))),
                decreases ms@.len() - i,
            {
                let ghost idx0 = member_idx_from(ms0, "segments"@, 0);
                let ghost pre_members = members@;
                proof {
                    crate::json_data::lemma_jv_of_members(members@);
                    lemma_member_idx_bounds(ms0, "segments"@, i as int);
                    lemma_member_idx_bounds(ms0, "segments"@, i + 1);
                    assert(ms0[i as int] == (ms@[i as int].0@, jv_of(ms@[i as int].1)));
                }
                let hit = str_eq(ms[i].0.as_str(), "segments");
                if !replaced && hit {
                    members.push(("segments".to_owned(), clone_value(&pinned_value)));
                    replaced = true;
                    proof {
                        assert(idx0 == i as int);
                    }
                } else {
                    members.push((clone_string(&ms[i].0), clone_value(&ms[i].1)));
                    proof {
                        if !replaced {
                            assert(ms0[i as int].0 != "segments"@);
                        }
                    }
                }
                proof {
                    crate::json_data::lemma_jv_of_members(members@);
                    assert forall|k: int| 0 <= k < i + 1 && k != idx0 implies #[trigger] jv_of_members(
                        members@,
                    )[k] == ms0[k] by {
                        if k < i {
                            assert(members@[k] == pre_members[k]);
                            assert(jv_of_members(pre_members)[k] == ms0[k]);
                            assert(jv_of_members(members@)[k] == (
                                members@[k].0@,
                                jv_of(members@[k].1),
                            ));
                            assert(jv_of_members(pre_members)[k] == (
                                pre_members[k].0@,
                                jv_of(pre_members[k].1),
                            ));
                        } else {
                            assert(jv_of_members(members@)[k] == (
                                members@[k].0@,
                                jv_of(members@[k].1),
                            ));
                        }
                    }
                    if replaced && idx0 < i {
                        assert(jv_of_members(members@)[idx0] == (
                            members@[idx0].0@,
                            jv_of(members@[idx0].1),
                        ));
                        assert(members@[idx0] == pre_members[idx0]);
                        assert(jv_of_members(pre_members)[idx0] == (
                            pre_members[idx0].0@,
                            jv_of(pre_members[idx0].1),
                        ));
                    }
                    if replaced && idx0 == i {
                        assert(jv_of_members(members@)[idx0] == (
                            members@[idx0].0@,
                            jv_of(members@[idx0].1),
                        ));
                    }
                }
                i = i + 1;
            }
            proof {
                lemma_member_idx_bounds(ms0, "segments"@, ms0.len() as int);
            }
            let ghost pre_final = members@;
            if !replaced {
                members.push(("segments".to_owned(), pinned_value));
            }
            let f = JsonValue::Obj(members);
            proof {
                crate::json_data::lemma_jv_of_members(members@);
                crate::json_data::lemma_jv_of_members(pre_final);
                let p = member_idx_from(ms0, "segments"@, 0);
                let pinned = ("segments"@, Jv::Arr(seg_views(segments@)));
                if p < ms0.len() {
                    assert(jv_of(f)->Obj_0 =~= ms0.update(p, pinned));
                } else {
                    let last = ms0.len() as int;
                    assert(members@.len() == ms0.len() + 1);
                    assert forall|k: int| 0 <= k < last implies #[trigger] jv_of_members(
                        members@,
                    )[k] == ms0[k] by {
                        assert(members@[k] == pre_final[k]);
                        assert(jv_of_members(pre_final)[k] == ms0[k]);
                        assert(jv_of_members(members@)[k] == (
                            members@[k].0@,
                            jv_of(members@[k].1),
                        ));
                        assert(jv_of_members(pre_final)[k] == (
                            pre_final[k].0@,
                            jv_of(pre_final[k].1),
                        ));
                    }
                    assert(jv_of_members(members@)[last] == (
                        members@[last].0@,
                        jv_of(members@[last].1),
                    ));
                    assert(members@[last].0@ == "segments"@);
                    assert(jv_of(members@[last].1) == Jv::Arr(seg_views(segments@)));
                    assert(jv_of(f)->Obj_0 =~= ms0.push(pinned));
                }
            }
            Some(f)
        },
        _ => None,
    }
}

/// Manifest filter law: a filtered manifest survives the codec round trip,
/// and its pinned `segments` member re-serializes byte-for-byte as the
/// snapshot's canonical form.
pub proof fn lemma_manifest_filter_pins(f: Jv, segs: Seq<Jv>, p: int)
    requires
        f matches Jv::Obj(fm) && 0 <= p < fm.len() && fm[p] == ("segments"@, Jv::Arr(segs)),
    ensures
        crate::json_parse::p_doc(crate::json_codec::ser_value(f)) == Some(f),
        crate::json_codec::ser_value(f->Obj_0[p].1) == crate::json_codec::ser_value(
            Jv::Arr(segs),
        ),
{
    crate::json_laws::lemma_parse_of_serialized(f);
}

/// The concatenation of a part list.
pub open spec fn parts_flat(parts: Seq<Seq<u8>>) -> Seq<u8>
    decreases parts.len(),
{
    if parts.len() == 0 {
        Seq::empty()
    } else {
        parts_flat(parts.drop_last()) + parts.last()
    }
}

/// The models of a part list.
pub open spec fn part_views(parts: Seq<Vec<u8>>) -> Seq<Seq<u8>> {
    Seq::new(parts.len(), |i: int| parts[i]@)
}

/// A file staged as numbered parts: each buffered write becomes the next
/// part, and termination stores them; a reader concatenates the parts in
/// order and sees exactly the written bytes.
pub struct ChunkedFile {
    pub path: String,
    pub parts: Vec<Vec<u8>>,
}

impl ChunkedFile {
    /// An empty staged file.
    pub fn create(path: &str) -> (r: ChunkedFile)
        ensures
            r.path@ == path@,
            r.parts@.len() == 0,
    {
        ChunkedFile { path: path.to_owned(), parts: Vec::new() }
    }

    /// Buffers one write as the next part.
    pub fn write(&mut self, buf: Vec<u8>)
        ensures
            final(self).path == old(self).path,
            part_views(final(self).parts@) =~= part_views(old(self).parts@).push(buf@),
    {
        self.parts.push(buf);
    }

    /// The whole payload: the parts concatenated in order, as a reader of
    /// the stored parts reassembles them.
    #[verifier::loop_isolation(false)]
    pub fn assembled(&self) -> (r: Vec<u8>)
        ensures
            r@ == parts_flat(part_views(self.parts@)),
    {
        let mut out: Vec<u8> = Vec::new();
        let mut i: usize = 0;
        while i < self.parts.len()
            invariant
                i <= self.parts@.len(),
                out@ == parts_flat(part_views(self.parts@).take(i as int)),
            decreases self.parts@.len() - i,
        {
            let mut j: usize = 0;
            let ghost pre = out@;
            while j < self.parts[i].len()
                invariant
                    i < self.parts@.len(),
                    j <= self.parts@[i as int]@.len(),
                    out@ == pre + self.parts@[i as int]@.subrange(0, j as int),
                decreases self.parts@[i as int]@.len() - j,
            {
                let b = self.parts[i][j];
                out.push(b);
                proof {
                    assert(out@ =~= pre + self.parts@[i as int]@.subrange(0, j + 1 as int));
                }
                j = j + 1;
            }
            proof {
                assert(self.parts@[i as int]@.subrange(
                    0,
                    self.parts@[i as int]@.len() as int,
                ) =~= part_views(self.parts@)[i as int]);
                assert(part_views(self.parts@).take(i + 1 as int).drop_last() =~= part_views(
                    self.parts@,
                ).take(i as int));
                assert(out@ =~= parts_flat(part_views(self.parts@).take(i + 1 as int)));
            }
            i = i + 1;
        }
        proof {
            assert(part_views(self.parts@).take(self.parts@.len() as int) =~= part_views(
                self.parts@,
            ));
        }
        out
    }
}

/// The partition key of the content row of a chunked file:
/// `store|{id}|file_content|{path}`.
pub fn file_content_pk(store_id: &str, path: &str) -> (r: String)
    ensures
        r@ == "store|"@ + store_id@ + "|file_content|"@ + path@,
{
    let r = str_concat("store|", store_id);
    let r = str_concat(r.as_str(), "|file_content|");
    let r = str_concat(r.as_str(), path);
    proof {
        assert(r@ =~= "store|"@ + store_id@ + "|file_content|"@ + path@);
    }
    r
}

/// The partition key of the header row partition of a store:
/// `store|{id}|file_header`.
pub fn file_header_pk(store_id: &str) -> (r: String)
    ensures
        r@ == "store|"@ + store_id@ + "|file_header"@,
{
    let r = str_concat("store|", store_id);
    let r = str_concat(r.as_str(), "|file_header");
    proof {
        assert(r@ =~= "store|"@ + store_id@ + "|file_header"@);
    }
    r
}

/// The sort key of a file's header row: `file_header|{path}`.
pub fn file_header_sk(path: &str) -> (r: String)
    ensures
        r@ == "file_header|"@ + path@,
{
    str_concat("file_header|", path)
}

/// Index of the first entry of a path in a store model, or the length
/// when absent.
pub open spec fn fs_first(m: Seq<(Seq<char>, Seq<u8>)>, path: Seq<char>) -> int
    decreases m.len(),
{
    if m.len() == 0 {
        0
    } else if m.first().0 == path {
        0
    } else {
        1 + fs_first(m.drop_first(), path)
    }
}

/// The first-entry index stays within bounds, and marks a match exactly
/// when one exists.
pub proof fn lemma_fs_first(m: Seq<(Seq<char>, Seq<u8>)>, path: Seq<char>)
    ensures
        0 <= fs_first(m, path) <= m.len(),
        fs_first(m, path) < m.len() ==> m[fs_first(m, path)].0 == path,
        forall|k: int| 0 <= k < fs_first(m, path) ==> (#[trigger] m[k]).0 != path,
    decreases m.len(),
{
    if m.len() > 0 && m.first().0 != path {
        lemma_fs_first(m.drop_first(), path);
        let i = fs_first(m, path);
        assert forall|k: int| 0 <= k < i implies (#[trigger] m[k]).0 != path by {
            if k > 0 {
                assert(m.drop_first()[k - 1] == m[k]);
            }
        }
        if i < m.len() {
            assert(m.drop_first()[i - 1] == m[i]);
        }
    }
}

/// A path-addressed file store: the model is its entries in order, and
/// every operation says exactly how it moves them.
pub trait FileStore {
    /// The stored entries, in order.
    spec fn files_model(&self) -> Seq<(Seq<char>, Seq<u8>)>;

    /// Stores the full content under the path: the path's first entry is
    /// replaced, or a new entry appended; no other entry changes.
    fn write_file(&mut self, path: &str, content: Vec<u8>)
        ensures
            ({
                let pre = old(self).files_model();
                let post = final(self).files_model();
                let i = fs_first(pre, path@);
                &&& i < pre.len() ==> post == pre.update(i, (path@, content@))
                &&& i >= pre.len() ==> post == pre.push((path@, content@))
            }),
    ;

    /// Whether a file is stored under the path.
    fn has_file(&self, path: &str) -> (r: bool)
        ensures
            r == (fs_first(self.files_model(), path@) < self.files_model().len()),
    ;

    /// The stored content of the path, if any: its first entry's bytes.
    fn get_content(&self, path: &str) -> (r: Option<Vec<u8>>)
        ensures
            ({
                let m = self.files_model();
                let i = fs_first(m, path@);
                &&& i < m.len() ==> (r matches Some(c) && c@ == m[i].1)
                &&& i >= m.len() ==> r is None
            }),
    ;

    /// The stored paths, in order.
    fn list_files(&self) -> (r: Vec<String>)
        ensures
            r@.len() == self.files_model().len(),
            forall|k: int| 0 <= k < r@.len() ==> (#[trigger] r@[k])@ == self.files_model()[k].0,
    ;

    /// Removes the path's first entry, if any; no other entry changes.
    fn delete(&mut self, path: &str)
        ensures
            ({
                let pre = old(self).files_model();
                let post = final(self).files_model();
                let i = fs_first(pre, path@);
                &&& i < pre.len() ==> post == pre.remove(i)
                &&& i >= pre.len() ==> post == pre
            }),
    ;
}

/// An in-memory file store keyed by path, with the same surface the
/// KV-backed store offers through its header and content rows.
pub struct MemFileStore {
    pub files: Vec<(String, Vec<u8>)>,
}

impl MemFileStore {
    pub fn new() -> (r: MemFileStore)
        ensures
            r.files@.len() == 0,
    {
        MemFileStore { files: Vec::new() }
    }

    fn find(&self, path: &str) -> (r: Option<usize>)
        ensures
            ({
                let m = self.files_model();
                match r {
                    Some(i) => i as int == fs_first(m, path@) && i < m.len(),
                    None => fs_first(m, path@) >= m.len(),
                }
            }),
    {
        proof {
            lemma_fs_first(self.files_model(), path@);
        }
        let ghost m = self.files_model();
        let mut i: usize = 0;
        while i < self.files.len()
            invariant
                i <= self.files@.len(),
                m == self.files_model(),
                forall|k: int| 0 <= k < i ==> (#[trigger] m[k]).0 != path@,
            decreases self.files@.len() - i,
        {
            if str_eq(self.files[i].0.as_str(), path) {
                proof {
                    lemma_fs_first_at(m, path@, i as int);
                }
                return Some(i);
            }
            i = i + 1;
        }
        proof {
            lemma_fs_first(m, path@);
            if fs_first(m, path@) < m.len() {
                assert(m[fs_first(m, path@)].0 == path@);
            }
        }
        None
    }
}

/// When index `i` holds the path and nothing before it does, it is the
/// first entry.
proof fn lemma_fs_first_at(m: Seq<(Seq<char>, Seq<u8>)>, path: Seq<char>, i: int)
    requires
        0 <= i < m.len(),
        m[i].0 == path,
        forall|k: int| 0 <= k < i ==> (#[trigger] m[k]).0 != path,
    ensures
        fs_first(m, path) == i,
    decreases i,
{
    if i > 0 {
        assert(m.first().0 != path);
        lemma_fs_first_at(m.drop_first(), path, i - 1);
        assert forall|k: int| 0 <= k < i - 1 implies (#[trigger] m.drop_first()[k]).0
            != path by {
            assert(m.drop_first()[k] == m[k + 1]);
        }
        assert(m.drop_first()[i - 1] == m[i]);
    }
}

impl FileStore for MemFileStore {
    open spec fn files_model(&self) -> Seq<(Seq<char>, Seq<u8>)> {
        Seq::new(self.files@.len(), |i: int| (self.files@[i].0@, self.files@[i].1@))
    }

    fn write_file(&mut self, path: &str, content: Vec<u8>) {
        let ghost pre = self.files_model();
        match self.find(path) {
            Some(i) => {
                self.files.set(i, (path.to_owned(), content));
                proof {
                    assert(self.files_model() =~= pre.update(
                        fs_first(pre, path@),
                        (path@, content@),
                    ));
                }
            },
            None => {
                self.files.push((path.to_owned(), content));
                proof {
                    assert(self.files_model() =~= pre.push((path@, content@)));
                }
            },
        }
    }

    fn has_file(&self, path: &str) -> (r: bool) {
        matches!(self.find(path), Some(_))
    }

    fn get_content(&self, path: &str) -> (r: Option<Vec<u8>>) {
        match self.find(path) {
            Some(i) => {
                let mut out: Vec<u8> = Vec::new();
                let mut j: usize = 0;
                while j < self.files[i].1.len()
                    invariant
                        i < self.files@.len(),
                        j <= self.files@[i as int].1@.len(),
                        out@ == self.files@[i as int].1@.subrange(0, j as int),
                    decreases self.files@[i as int].1@.len() - j,
                {
                    let b = self.files[i].1[j];
                    out.push(b);
                    proof {
                        assert(out@ =~= self.files@[i as int].1@.subrange(0, j + 1 as int));
                    }
                    j = j + 1;
                }
                proof {
                    assert(out@ =~= self.files@[i as int].1@);
                }
                Some(out)
            },
            None => None,
        }
    }

    fn list_files(&self) -> (r: Vec<String>) {
        let mut out: Vec<String> = Vec::new();
        let mut i: usize = 0;
        while i < self.files.len()
            invariant
                i <= self.files@.len(),
                out@.len() == i,
                forall|k: int| 0 <= k < i ==> (#[trigger] out@[k])@ == self.files@[k].0@,
            decreases self.files@.len() - i,
        {
            let n = clone_string(&self.files[i].0);
            out.push(n);
            i = i + 1;
        }
        out
    }

    fn delete(&mut self, path: &str) {
        let ghost pre = self.files_model();
        match self.find(path) {
            Some(i) => {
                self.files.remove(i);
                proof {
                    assert(self.files_model() =~= pre.remove(fs_first(pre, path@)));
                }
            },
            None => {},
        }
    }
}

/// The names, in order, from `nv[i..]` that the byte prefix matches.
pub open spec fn prefixed_from(nv: Seq<Seq<char>>, pre: Seq<u8>, i: int) -> Seq<Seq<char>>
    decreases nv.len() - i,
{
    if i < 0 || i >= nv.len() {
        Seq::empty()
    } else {
        (if is_prefix_of(pre, vstd::utf8::encode_utf8(nv[i])) {
            seq![nv[i]]
        } else {
            Seq::empty()
        }) + prefixed_from(nv, pre, i + 1)
    }
}

/// The models of a list of names.
pub open spec fn name_views(names: Seq<String>) -> Seq<Seq<char>> {
    Seq::new(names.len(), |i: int| names[i]@)
}

/// The file names that belong to a segment: exactly those the segment id
/// byte-prefixes, in order.  A commit that supersedes the segment issues
/// one deferred deletion job per such file.
#[verifier::loop_isolation(false)]
pub fn files_for_segment(names: &Vec<String>, segment_id: &str) -> (r: Vec<String>)
    ensures
        name_views(r@) == prefixed_from(name_views(names@), segment_id.spec_bytes(), 0),
{
    let ghost nv = name_views(names@);
    let ghost pre = segment_id.spec_bytes();
    let mut out: Vec<String> = Vec::new();
    let mut i: usize = 0;
    while i < names.len()
        invariant
            i <= names@.len(),
            name_views(out@) + prefixed_from(nv, pre, i as int) == prefixed_from(nv, pre, 0),
        decreases names@.len() - i,
    {
        proof {
            assert(prefixed_from(nv, pre, i as int) == (if is_prefix_of(
                pre,
                vstd::utf8::encode_utf8(nv[i as int]),
            ) {
                seq![nv[i as int]]
            } else {
                Seq::<Seq<char>>::empty()
            }) + prefixed_from(nv, pre, i + 1));
        }
        if starts_with(names[i].as_str(), segment_id) {
            let n = clone_string(&names[i]);
            out.push(n);
            proof {
                assert(name_views(out@) + prefixed_from(nv, pre, i + 1) =~= prefixed_from(
                    nv,
                    pre,
                    0,
                ));
            }
        } else {
            proof {
                assert(name_views(out@) + prefixed_from(nv, pre, i + 1) =~= prefixed_from(
                    nv,
                    pre,
                    0,
                ));
            }
        }
        i = i + 1;
    }
    proof {
        assert(name_views(out@) =~= prefixed_from(nv, pre, 0));
    }
    out
}

/// The total size of a segment's files: the sizes of the files the segment
/// id prefixes, summed; nothing when the sum overflows.
pub open spec fn spec_segment_size(files: Seq<(Seq<char>, u64)>, pre: Seq<u8>) -> int
    decreases files.len(),
{
    if files.len() == 0 {
        0
    } else {
        spec_segment_size(files.drop_last(), pre) + (if is_prefix_of(
            pre,
            vstd::utf8::encode_utf8(files.last().0),
        ) {
            files.last().1 as int
        } else {
            0
        })
    }
}

/// Sums the sizes of a segment's files.
#[verifier::loop_isolation(false)]
pub fn segment_files_size(files: &Vec<(String, u64)>, segment_id: &str) -> (r: Option<u64>)
    ensures
        r matches Some(n) ==> n as int == spec_segment_size(
            Seq::new(files@.len(), |i: int| (files@[i].0@, files@[i].1)),
            segment_id.spec_bytes(),
        ),
{
    let ghost fv = Seq::new(files@.len(), |i: int| (files@[i].0@, files@[i].1));
    let mut total: u64 = 0;
    let mut i: usize = 0;
    while i < files.len()
        invariant
            i <= files@.len(),
            total as int == spec_segment_size(fv.take(i as int), segment_id.spec_bytes()),
        decreases files@.len() - i,
    {
        proof {
            assert(fv.take(i + 1 as int).drop_last() =~= fv.take(i as int));
            assert(fv.take(i + 1 as int).last() == fv[i as int]);
        }
        if starts_with(files[i].0.as_str(), segment_id) {
            let sz = files[i].1;
            if total > u64::MAX - sz {
                return None;
            }
            total = total + sz;
        }
        i = i + 1;
    }
    proof {
        assert(fv.take(files@.len() as int) =~= fv);
    }
    Some(total)
}

/// Per-segment statistics, with sizes in bytes.
#[derive(Debug)]
pub struct SegmentStats {
    pub id: String,
    pub num_docs: u64,
    pub num_deleted: u64,
    pub size_bytes: u64,
}

/// Assembles the stats of an index's segments: for each segment, its id,
/// document counts, and the total size of the files its id prefixes.
/// Fails only when a segment's file sizes overflow the sum.
#[verifier::loop_isolation(false)]
pub fn segment_stats(
    ids: &Vec<String>,
    num_docs: &Vec<u64>,
    num_deleted: &Vec<u64>,
    files: &Vec<(String, u64)>,
) -> (r: Option<Vec<SegmentStats>>)
    requires
        ids@.len() == num_docs@.len(),
        ids@.len() == num_deleted@.len(),
    ensures
        r matches Some(stats) ==> stats@.len() == ids@.len() && (forall|i: int|
            0 <= i < stats@.len() ==> {
                &&& (#[trigger] stats@[i]).id@ == ids@[i]@
                &&& stats@[i].num_docs == num_docs@[i]
                &&& stats@[i].num_deleted == num_deleted@[i]
                &&& stats@[i].size_bytes as int == spec_segment_size(
                    Seq::new(files@.len(), |k: int| (files@[k].0@, files@[k].1)),
                    vstd::utf8::encode_utf8(ids@[i]@),
                )
            }),
{
    let mut stats: Vec<SegmentStats> = Vec::new();
    let mut i: usize = 0;
    while i < ids.len()
        invariant
            i <= ids@.len(),
            stats@.len() == i,
            forall|k: int|
                0 <= k < i ==> {
                    &&& (#[trigger] stats@[k]).id@ == ids@[k]@
                    &&& stats@[k].num_docs == num_docs@[k]
                    &&& stats@[k].num_deleted == num_deleted@[k]
                    &&& stats@[k].size_bytes as int == spec_segment_size(
                        Seq::new(files@.len(), |t: int| (files@[t].0@, files@[t].1)),
                        vstd::utf8::encode_utf8(ids@[k]@),
                    )
                },
        decreases ids@.len() - i,
    {
        let size_bytes = match segment_files_size(files, ids[i].as_str()) {
            Some(n) => n,
            None => {
                return None;
            },
        };
        stats.push(
            SegmentStats {
                id: clone_string(&ids[i]),
                num_docs: num_docs[i],
                num_deleted: num_deleted[i],
                size_bytes,
            },
        );
        i = i + 1;
    }
    Some(stats)
}

} // verus!
