//! Row metadata sequences of fragments: where they are stored, and moving them
//! between the manifest and external files.
use std::collections::HashMap;

use vstd::prelude::*;

use lance_core::utils::path::LancePathExt;
use object_store::path::Path;

use crate::error::{Error, ErrorOf};
use crate::text::concat3;

verus! {

/// Directory under the dataset root holding externalized row-meta sequences
/// (row ids and created_at / last_updated_at version sequences too large to
/// store inline in the manifest).
pub const ROWIDS_DIR: &'static str = "_rowids";

/// A piece of an external file.
#[derive(Debug)]
pub struct ExternalFile {
    /// Path below the dataset root.
    pub path: String,
    pub offset: u64,
    pub size: u64,
}

#[verifier::ext_equal]
pub struct FileView {
    pub path: Seq<char>,
    pub offset: u64,
    pub size: u64,
}

impl View for ExternalFile {
    type V = FileView;

    open spec fn view(&self) -> FileView {
        FileView { path: self.path@, offset: self.offset, size: self.size }
    }
}

impl Clone for ExternalFile {
    fn clone(&self) -> (r: Self)
        ensures
            r@ == self@,
    {
        ExternalFile { path: self.path.clone(), offset: self.offset, size: self.size }
    }
}

/// Where the row ids of a fragment are stored.
#[derive(Debug)]
pub enum RowIdMeta {
    Inline(Vec<u8>),
    External(ExternalFile),
}

/// Where a version sequence of a fragment is stored.
#[derive(Debug)]
pub enum RowDatasetVersionMeta {
    Inline(Vec<u8>),
    External(ExternalFile),
}

/// The row metadata of a fragment.
#[derive(Debug)]
pub struct Fragment {
    pub id: u64,
    pub has_deletion_file: bool,
    pub row_id_meta: Option<RowIdMeta>,
    pub created_at_version_meta: Option<RowDatasetVersionMeta>,
    pub last_updated_at_version_meta: Option<RowDatasetVersionMeta>,
}

/// A stored sequence, if there is one: its bytes or where they are.
pub enum MetaView {
    Absent,
    Inline(Seq<u8>),
    External(FileView),
}

#[verifier::ext_equal]
pub struct FragmentView {
    pub id: u64,
    pub has_deletion_file: bool,
    pub row_ids: MetaView,
    pub created_at: MetaView,
    pub last_updated_at: MetaView,
}

pub open spec fn row_id_meta_view(m: Option<RowIdMeta>) -> MetaView {
    match m {
        None => MetaView::Absent,
        Some(RowIdMeta::Inline(data)) => MetaView::Inline(data@),
        Some(RowIdMeta::External(file)) => MetaView::External(file@),
    }
}

pub open spec fn version_meta_view(m: Option<RowDatasetVersionMeta>) -> MetaView {
    match m {
        None => MetaView::Absent,
        Some(RowDatasetVersionMeta::Inline(data)) => MetaView::Inline(data@),
        Some(RowDatasetVersionMeta::External(file)) => MetaView::External(file@),
    }
}

impl View for Fragment {
    type V = FragmentView;

    open spec fn view(&self) -> FragmentView {
        FragmentView {
            id: self.id,
            has_deletion_file: self.has_deletion_file,
            row_ids: row_id_meta_view(self.row_id_meta),
            created_at: version_meta_view(self.created_at_version_meta),
            last_updated_at: version_meta_view(self.last_updated_at_version_meta),
        }
    }
}

/// The views of a vector of fragments.
pub open spec fn fragment_views(v: Seq<Fragment>) -> Seq<FragmentView> {
    Seq::new(v.len(), |i: int| v[i]@)
}

/// Which of the three per-fragment row-meta sequences is meant.
#[derive(Debug, Clone, Copy, PartialEq, Eq, Structural)]
pub enum RowMetaKind {
    RowId,
    CreatedAtVersion,
    LastUpdatedAtVersion,
}

/// The kinds in the order in which they are visited.
pub open spec fn kind_at(k: int) -> RowMetaKind {
    if k == 0 {
        RowMetaKind::RowId
    } else if k == 1 {
        RowMetaKind::CreatedAtVersion
    } else {
        RowMetaKind::LastUpdatedAtVersion
    }
}

fn kind_number(k: usize) -> (r: RowMetaKind)
    ensures
        r == kind_at(k as int),
{
    if k == 0 {
        RowMetaKind::RowId
    } else if k == 1 {
        RowMetaKind::CreatedAtVersion
    } else {
        RowMetaKind::LastUpdatedAtVersion
    }
}

impl FragmentView {
    pub open spec fn get(self, kind: RowMetaKind) -> MetaView {
        match kind {
            RowMetaKind::RowId => self.row_ids,
            RowMetaKind::CreatedAtVersion => self.created_at,
            RowMetaKind::LastUpdatedAtVersion => self.last_updated_at,
        }
    }

    pub open spec fn with(self, kind: RowMetaKind, m: MetaView) -> FragmentView {
        match kind {
            RowMetaKind::RowId => FragmentView { row_ids: m, ..self },
            RowMetaKind::CreatedAtVersion => FragmentView { created_at: m, ..self },
            RowMetaKind::LastUpdatedAtVersion => FragmentView { last_updated_at: m, ..self },
        }
    }
}

/// The bytes of a sequence that is stored inline.
pub fn inline_bytes(fragment: &Fragment, kind: RowMetaKind) -> (r: Option<&Vec<u8>>)
    ensures
        match fragment@.get(kind) {
            MetaView::Inline(b) => r matches Some(v) && v@ == b,
            _ => r is None,
        },
{
    match kind {
        RowMetaKind::RowId => match &fragment.row_id_meta {
            Some(RowIdMeta::Inline(data)) => Some(data),
            _ => None,
        },
        RowMetaKind::CreatedAtVersion => match &fragment.created_at_version_meta {
            Some(RowDatasetVersionMeta::Inline(data)) => Some(data),
            _ => None,
        },
        RowMetaKind::LastUpdatedAtVersion => match &fragment.last_updated_at_version_meta {
            Some(RowDatasetVersionMeta::Inline(data)) => Some(data),
            _ => None,
        },
    }
}

/// Where a sequence that is stored externally is.
pub fn external_file(fragment: &Fragment, kind: RowMetaKind) -> (r: Option<&ExternalFile>)
    ensures
        match fragment@.get(kind) {
            MetaView::External(f) => r matches Some(v) && v@ == f,
            _ => r is None,
        },
{
    match kind {
        RowMetaKind::RowId => match &fragment.row_id_meta {
            Some(RowIdMeta::External(file)) => Some(file),
            _ => None,
        },
        RowMetaKind::CreatedAtVersion => match &fragment.created_at_version_meta {
            Some(RowDatasetVersionMeta::External(file)) => Some(file),
            _ => None,
        },
        RowMetaKind::LastUpdatedAtVersion => match &fragment.last_updated_at_version_meta {
            Some(RowDatasetVersionMeta::External(file)) => Some(file),
            _ => None,
        },
    }
}

/// Store a sequence externally.
pub fn set_external(fragment: &mut Fragment, kind: RowMetaKind, file: ExternalFile)
    ensures
        final(fragment)@ == old(fragment)@.with(kind, MetaView::External(file@)),
{
    match kind {
        RowMetaKind::RowId => {
            fragment.row_id_meta = Some(RowIdMeta::External(file));
        },
        RowMetaKind::CreatedAtVersion => {
            fragment.created_at_version_meta = Some(RowDatasetVersionMeta::External(file));
        },
        RowMetaKind::LastUpdatedAtVersion => {
            fragment.last_updated_at_version_meta = Some(RowDatasetVersionMeta::External(file));
        },
    }
}

/// Store a sequence inline.
pub fn set_inline(fragment: &mut Fragment, kind: RowMetaKind, bytes: Vec<u8>)
    ensures
        final(fragment)@ == old(fragment)@.with(kind, MetaView::Inline(bytes@)),
{
    match kind {
        RowMetaKind::RowId => {
            fragment.row_id_meta = Some(RowIdMeta::Inline(bytes));
        },
        RowMetaKind::CreatedAtVersion => {
            fragment.created_at_version_meta = Some(RowDatasetVersionMeta::Inline(bytes));
        },
        RowMetaKind::LastUpdatedAtVersion => {
            fragment.last_updated_at_version_meta = Some(RowDatasetVersionMeta::Inline(bytes));
        },
    }
}

/// Whether any of the fragment's three row-meta sequences is stored
/// externally.
pub fn fragment_has_external_row_meta(fragment: &Fragment) -> (r: bool)
    ensures
        r == exists|kind: RowMetaKind| #[trigger] fragment@.get(kind) is External,
{
    let a = external_file(fragment, RowMetaKind::RowId).is_some();
    let b = external_file(fragment, RowMetaKind::CreatedAtVersion).is_some();
    let c = external_file(fragment, RowMetaKind::LastUpdatedAtVersion).is_some();
    assert(a == fragment@.get(RowMetaKind::RowId) is External);
    assert(b == fragment@.get(RowMetaKind::CreatedAtVersion) is External);
    assert(c == fragment@.get(RowMetaKind::LastUpdatedAtVersion) is External);
    a || b || c
}

/// Where to get the bytes of a sequence from.
#[derive(Debug)]
pub enum MetaSource {
    Bytes(Vec<u8>),
    Read(ExternalFile),
}

/// Where to get the row ids of a fragment from.
pub fn row_id_source(fragment: &Fragment) -> (r: Result<MetaSource, Error>)
    ensures
        match fragment@.row_ids {
            MetaView::Absent => crate::error::fails_with(
                r,
                crate::error::internal_error("Missing row id meta"@),
            ),
            MetaView::Inline(b) => r matches Ok(MetaSource::Bytes(v)) && v@ == b,
            MetaView::External(f) => r matches Ok(MetaSource::Read(v)) && v@ == f,
        },
{
    match &fragment.row_id_meta {
        None => Err(ErrorOf::Internal { message: "Missing row id meta".to_owned() }),
        Some(RowIdMeta::Inline(data)) => {
            let copy = data.clone();
            assert(copy@ =~= data@);
            Ok(MetaSource::Bytes(copy))
        },
        Some(RowIdMeta::External(file)) => Ok(MetaSource::Read(file.clone())),
    }
}

/// Where to get a version sequence from.
pub fn version_source(meta: &RowDatasetVersionMeta) -> (r: MetaSource)
    ensures
        match version_meta_view(Some(*meta)) {
            MetaView::Inline(b) => r matches MetaSource::Bytes(v) && v@ == b,
            MetaView::External(f) => r matches MetaSource::Read(v) && v@ == f,
            MetaView::Absent => false,
        },
{
    match meta {
        RowDatasetVersionMeta::Inline(data) => {
            let copy = data.clone();
            assert(copy@ =~= data@);
            MetaSource::Bytes(copy)
        },
        RowDatasetVersionMeta::External(file) => MetaSource::Read(file.clone()),
    }
}

/// The last of the fragments that a 32-bit fragment id stands for.
pub open spec fn fragment_with_id(fragments: Seq<FragmentView>, id: u32) -> Option<int>
    decreases fragments.len(),
{
    if fragments.len() == 0 {
        None
    } else if fragments.last().id as u32 == id {
        Some(fragments.len() - 1)
    } else {
        fragment_with_id(fragments.drop_last(), id)
    }
}

/// Whether the fragment that a row id sequence belongs to has a deletion file;
/// nothing if there is no such fragment.
pub fn sequence_has_deletions(fragments: &Vec<Fragment>, fragment_id: u32) -> (r: Option<bool>)
    ensures
        match fragment_with_id(fragment_views(fragments@), fragment_id) {
            Some(i) => r == Some(fragments@[i].has_deletion_file),
            None => r is None,
        },
{
    let ghost views = fragment_views(fragments@);
    let n = fragments.len();
    assert(views.take(n as int) =~= views);
    for k in 0..n
        invariant
            n == fragments@.len(),
            views == fragment_views(fragments@),
            fragment_with_id(views, fragment_id) == fragment_with_id(
                views.take(n - k),
                fragment_id,
            ),
    {
        let i = n - 1 - k;
        assert(views.take(n - k).drop_last() =~= views.take(i as int));
        assert(views.take(n - k).last() == fragments@[i as int]@);
        let id: u32 = #[verifier::truncate] (fragments[i].id as u32);
        if id == fragment_id {
            return Some(fragments[i].has_deletion_file);
        }
    }
    None
}

/// The deleted rows that count: those loaded, where there is a deletion file
/// and loading it gave some; none otherwise.
pub fn effective_deletions(has_deletion_file: bool, loaded: Result<Option<Vec<u32>>, Error>) -> (r:
    Vec<u32>)
    ensures
        r@ == (match loaded {
            Ok(Some(v)) if has_deletion_file => v@,
            _ => Seq::empty(),
        }),
{
    match loaded {
        Ok(Some(v)) => {
            if has_deletion_file {
                v
            } else {
                Vec::new()
            }
        },
        _ => Vec::new(),
    }
}

/// The path of a file that is given relative to a base, or why there is none.
pub uninterp spec fn path_below(base: Seq<char>, relative: Seq<char>) -> Result<
    Seq<char>,
    Seq<char>,
>;

/// `LancePathExt::child_path` of `lance_core` on paths that
/// `object_store::path::Path::parse` accepts; the error is that of `parse`.
#[verifier::external_body]
fn child_path(base: &str, relative: &str) -> (r: Result<String, String>)
    ensures
        match (r, path_below(base@, relative@)) {
            (Ok(p), Ok(v)) => p@ == v,
            (Err(e), Err(v)) => e@ == v,
            _ => false,
        },
{
    let base = Path::parse(base).map_err(|e| e.to_string())?;
    let relative = Path::parse(relative).map_err(|e| e.to_string())?;
    Ok(base.child_path(&relative).to_string())
}

/// The path of a name in a directory below a base, or why there is none.
pub uninterp spec fn path_of_child(
    base: Seq<char>,
    directory: Seq<char>,
    name: Seq<char>,
) -> Result<Seq<char>, Seq<char>>;

/// `object_store::path::Path::child` twice on a path that `Path::parse`
/// accepts; the error is that of `parse`. Separators in a part are encoded.
#[verifier::external_body]
fn nested_child(base: &str, directory: &str, name: &str) -> (r: Result<String, String>)
    ensures
        match (r, path_of_child(base@, directory@, name@)) {
            (Ok(p), Ok(v)) => p@ == v,
            (Err(e), Err(v)) => e@ == v,
            _ => false,
        },
{
    let base = Path::parse(base).map_err(|e| e.to_string())?;
    Ok(base.child(directory).child(name).to_string())
}

/// What to read to get an external sequence.
#[derive(Debug)]
pub struct ExternalRead {
    pub path: String,
    pub start: usize,
    pub end: usize,
}

/// What to read to get an external sequence: which file, and which bytes of it.
pub fn external_read(base_path: &str, file: &ExternalFile) -> (r: Result<ExternalRead, String>)
    requires
        file.offset + file.size <= usize::MAX,
    ensures
        match path_below(base_path@, file@.path) {
            Ok(p) => r matches Ok(read) && read.path@ == p && read.start == file.offset && read.end
                == file.offset + file.size,
            Err(e) => r matches Err(x) && x@ == e,
        },
{
    match child_path(base_path, file.path.as_str()) {
        Ok(path) => Ok(
            ExternalRead {
                path,
                start: file.offset as usize,
                end: file.offset as usize + file.size as usize,
            },
        ),
        Err(e) => Err(e),
    }
}

/// The path that a spill file is written to.
pub fn spill_path(base_path: &str, file_name: &str) -> (r: Result<String, String>)
    ensures
        match path_of_child(base_path@, ROWIDS_DIR@, file_name@) {
            Ok(p) => r matches Ok(path) && path@ == p,
            Err(e) => r matches Err(x) && x@ == e,
        },
{
    nested_child(base_path, ROWIDS_DIR, file_name)
}

/// A sequence that was pulled inline: where it was and what it held.
#[derive(Debug)]
pub struct HydratedMeta {
    pub file: ExternalFile,
    pub bytes: Vec<u8>,
}

/// Bytes and original location of row metas that were pulled inline, by
/// fragment id and kind.
#[derive(Debug)]
pub struct HydratedRowMetas {
    row_ids: HashMap<u64, HydratedMeta>,
    created_at: HashMap<u64, HydratedMeta>,
    last_updated_at: HashMap<u64, HydratedMeta>,
}

pub open spec fn meta_entry(m: Map<u64, HydratedMeta>, id: u64) -> Option<(FileView, Seq<u8>)> {
    if m.contains_key(id) {
        Some((m[id].file@, m[id].bytes@))
    } else {
        None
    }
}

impl HydratedRowMetas {
    /// What was pulled inline for a fragment and a kind.
    pub closed spec fn entry(&self, id: u64, kind: RowMetaKind) -> Option<(FileView, Seq<u8>)> {
        match kind {
            RowMetaKind::RowId => meta_entry(self.row_ids@, id),
            RowMetaKind::CreatedAtVersion => meta_entry(self.created_at@, id),
            RowMetaKind::LastUpdatedAtVersion => meta_entry(self.last_updated_at@, id),
        }
    }

    /// Nothing pulled inline.
    pub fn new() -> (r: HydratedRowMetas)
        ensures
            forall|id: u64, kind: RowMetaKind| (#[trigger] r.entry(id, kind)) is None,
    {
        broadcast use vstd::std_specs::hash::group_hash_axioms;

        HydratedRowMetas {
            row_ids: HashMap::new(),
            created_at: HashMap::new(),
            last_updated_at: HashMap::new(),
        }
    }

    /// Note a sequence that was pulled inline.
    pub fn insert(&mut self, id: u64, kind: RowMetaKind, file: ExternalFile, bytes: Vec<u8>)
        ensures
            forall|i: u64, k: RowMetaKind| #[trigger]
                final(self).entry(i, k) == (if i == id && k == kind {
                    Some((file@, bytes@))
                } else {
                    old(self).entry(i, k)
                }),
    {
        broadcast use vstd::std_specs::hash::group_hash_axioms;

        let meta = HydratedMeta { file, bytes };
        match kind {
            RowMetaKind::RowId => {
                self.row_ids.insert(id, meta);
            },
            RowMetaKind::CreatedAtVersion => {
                self.created_at.insert(id, meta);
            },
            RowMetaKind::LastUpdatedAtVersion => {
                self.last_updated_at.insert(id, meta);
            },
        }
    }

    /// What was pulled inline for a fragment and a kind.
    pub fn get(&self, id: u64, kind: RowMetaKind) -> (r: Option<&HydratedMeta>)
        ensures
            match self.entry(id, kind) {
                Some((f, b)) => r matches Some(m) && m.file@ == f && m.bytes@ == b,
                None => r is None,
            },
    {
        broadcast use vstd::std_specs::hash::group_hash_axioms;

        match kind {
            RowMetaKind::RowId => self.row_ids.get(&id),
            RowMetaKind::CreatedAtVersion => self.created_at.get(&id),
            RowMetaKind::LastUpdatedAtVersion => self.last_updated_at.get(&id),
        }
    }
}

/// An external sequence that has to be read.
#[derive(Debug)]
pub struct PendingMeta {
    pub kind: RowMetaKind,
    pub file: ExternalFile,
}

/// The external sequences among the first `k` kinds of a fragment, in order.
pub open spec fn pending(f: FragmentView, k: nat) -> Seq<(RowMetaKind, FileView)>
    decreases k,
{
    if k == 0 {
        Seq::empty()
    } else {
        let rest = pending(f, (k - 1) as nat);
        match f.get(kind_at(k - 1)) {
            MetaView::External(file) => rest.push((kind_at(k - 1), file)),
            _ => rest,
        }
    }
}

pub open spec fn pending_views(v: Seq<PendingMeta>) -> Seq<(RowMetaKind, FileView)> {
    Seq::new(v.len(), |i: int| (v[i].kind, v[i].file@))
}

/// The external sequences of a fragment, in order.
pub fn external_metas(fragment: &Fragment) -> (r: Vec<PendingMeta>)
    ensures
        pending_views(r@) == pending(fragment@, 3),
{
    let mut out: Vec<PendingMeta> = Vec::new();
    assert(pending_views(out@) =~= pending(fragment@, 0));
    for k in 0..3usize
        invariant
            pending_views(out@) == pending(fragment@, k as nat),
    {
        let kind = kind_number(k);
        match external_file(fragment, kind) {
            Some(file) => {
                let ghost before = out@;
                out.push(PendingMeta { kind, file: file.clone() });
                assert(pending_views(out@) =~= pending_views(before).push(
                    (kind, fragment@.get(kind)->External_0),
                ));
            },
            None => {},
        }
    }
    out
}

/// Pull one external sequence inline, given its bytes.
pub fn hydrate_meta(
    fragment: &mut Fragment,
    hydrated: &mut HydratedRowMetas,
    pending: PendingMeta,
    bytes: Vec<u8>,
)
    ensures
        final(fragment)@ == old(fragment)@.with(pending.kind, MetaView::Inline(bytes@)),
        forall|i: u64, k: RowMetaKind| #[trigger]
            final(hydrated).entry(i, k) == (if i == old(fragment)@.id && k == pending.kind {
                Some((pending.file@, bytes@))
            } else {
                old(hydrated).entry(i, k)
            }),
{
    let copy = bytes.clone();
    assert(copy@ =~= bytes@);
    hydrated.insert(fragment.id, pending.kind, pending.file, copy);
    set_inline(fragment, pending.kind, bytes);
}

/// A fragment with all its sequences inline; `read` gives the bytes of external
/// ones.
pub open spec fn hydrated_meta(m: MetaView, read: spec_fn(FileView) -> Seq<u8>) -> MetaView {
    match m {
        MetaView::External(file) => MetaView::Inline(read(file)),
        _ => m,
    }
}

pub open spec fn hydrated_fragment(
    f: FragmentView,
    read: spec_fn(FileView) -> Seq<u8>,
) -> FragmentView {
    FragmentView {
        row_ids: hydrated_meta(f.row_ids, read),
        created_at: hydrated_meta(f.created_at, read),
        last_updated_at: hydrated_meta(f.last_updated_at, read),
        ..f
    }
}

/// A fragment after the sequences of its pending list were pulled inline.
pub open spec fn hydrated_upto(
    f: FragmentView,
    list: Seq<(RowMetaKind, FileView)>,
    read: spec_fn(FileView) -> Seq<u8>,
) -> FragmentView
    decreases list.len(),
{
    if list.len() == 0 {
        f
    } else {
        hydrated_upto(f, list.drop_last(), read).with(
            list.last().0,
            MetaView::Inline(read(list.last().1)),
        )
    }
}

/// Pulling the external sequences of a fragment inline one after the other
/// leaves it with all of them inline and nothing else changed.
pub proof fn hydration_is_complete(f: FragmentView, read: spec_fn(FileView) -> Seq<u8>)
    ensures
        hydrated_upto(f, pending(f, 3), read) == hydrated_fragment(f, read),
        forall|kind: RowMetaKind| !(#[trigger] hydrated_fragment(f, read).get(kind) is External),
{
    reveal_with_fuel(pending, 4);
    reveal_with_fuel(hydrated_upto, 4);
    let one = pending(f, 1);
    let two = pending(f, 2);
    let three = pending(f, 3);
    hydrated_step(f, read, 0);
    hydrated_step(f, read, 1);
    hydrated_step(f, read, 2);
    assert(hydrated_upto(f, pending(f, 0), read) == f);
}

proof fn hydrated_step(f: FragmentView, read: spec_fn(FileView) -> Seq<u8>, k: nat)
    requires
        k < 3,
    ensures
        hydrated_upto(f, pending(f, k + 1), read) == (match f.get(kind_at(k as int)) {
            MetaView::External(file) => hydrated_upto(f, pending(f, k), read).with(
                kind_at(k as int),
                MetaView::Inline(read(file)),
            ),
            _ => hydrated_upto(f, pending(f, k), read),
        }),
{
    match f.get(kind_at(k as int)) {
        MetaView::External(file) => {
            assert(pending(f, k + 1).drop_last() =~= pending(f, k));
        },
        _ => {},
    }
}

/// The whole of what a spill does to a sequence: nothing to one that is not
/// inline or not larger than the threshold; the original reference for one that
/// is what was pulled inline; otherwise a place in the spill file.
pub open spec fn spilled_meta(
    f: FragmentView,
    kind: RowMetaKind,
    h: HydratedRowMetas,
    threshold: nat,
    path: Seq<char>,
    offset: nat,
) -> MetaView {
    match f.get(kind) {
        MetaView::Inline(b) => if b.len() <= threshold {
            f.get(kind)
        } else if restored(f, kind, h) {
            MetaView::External((h.entry(f.id, kind)->0).0)
        } else {
            MetaView::External(FileView { path, offset: offset as u64, size: b.len() as u64 })
        },
        m => m,
    }
}

/// An inline sequence is what was pulled inline.
pub open spec fn restored(f: FragmentView, kind: RowMetaKind, h: HydratedRowMetas) -> bool {
    match (f.get(kind), h.entry(f.id, kind)) {
        (MetaView::Inline(b), Some((_, original))) => original == b,
        _ => false,
    }
}

/// A sequence is written to the spill file.
pub open spec fn spills(
    f: FragmentView,
    kind: RowMetaKind,
    h: HydratedRowMetas,
    threshold: nat,
) -> bool {
    match f.get(kind) {
        MetaView::Inline(b) => b.len() > threshold && !restored(f, kind, h),
        _ => false,
    }
}

/// The bytes that the spill file holds before the `k`th kind of the `i`th
/// fragment: all spilled sequences before it, in order.
pub open spec fn spilled_before(
    fs: Seq<FragmentView>,
    h: HydratedRowMetas,
    threshold: nat,
    i: nat,
    k: nat,
) -> Seq<u8>
    decreases i, k,
{
    if k > 0 {
        let rest = spilled_before(fs, h, threshold, i, (k - 1) as nat);
        let kind = kind_at(k - 1);
        if spills(fs[i as int], kind, h, threshold) {
            rest + fs[i as int].get(kind)->Inline_0
        } else {
            rest
        }
    } else if i > 0 {
        spilled_before(fs, h, threshold, (i - 1) as nat, 3)
    } else {
        Seq::empty()
    }
}

/// How many sequences are spilled before the `k`th kind of the `i`th fragment.
pub open spec fn spill_count(
    fs: Seq<FragmentView>,
    h: HydratedRowMetas,
    threshold: nat,
    i: nat,
    k: nat,
) -> nat
    decreases i, k,
{
    if k > 0 {
        spill_count(fs, h, threshold, i, (k - 1) as nat) + if spills(
            fs[i as int],
            kind_at(k - 1),
            h,
            threshold,
        ) {
            1nat
        } else {
            0nat
        }
    } else if i > 0 {
        spill_count(fs, h, threshold, (i - 1) as nat, 3)
    } else {
        0
    }
}

/// The `i`th fragment with its first `k` kinds spilled.
pub open spec fn spilled_kinds(
    fs: Seq<FragmentView>,
    h: HydratedRowMetas,
    threshold: nat,
    path: Seq<char>,
    i: int,
    k: nat,
) -> FragmentView
    decreases k,
{
    if k == 0 {
        fs[i]
    } else {
        let kind = kind_at(k - 1);
        spilled_kinds(fs, h, threshold, path, i, (k - 1) as nat).with(
            kind,
            spilled_meta(
                fs[i],
                kind,
                h,
                threshold,
                path,
                spilled_before(fs, h, threshold, i as nat, (k - 1) as nat).len(),
            ),
        )
    }
}

/// The fragments after spilling everything before the `k`th kind of the `i`th.
pub open spec fn spilled_upto(
    fs: Seq<FragmentView>,
    h: HydratedRowMetas,
    threshold: nat,
    path: Seq<char>,
    i: int,
    k: nat,
) -> Seq<FragmentView> {
    Seq::new(
        fs.len(),
        |j: int|
            if j < i {
                spilled_kinds(fs, h, threshold, path, j, 3)
            } else if j == i {
                spilled_kinds(fs, h, threshold, path, j, k)
            } else {
                fs[j]
            },
    )
}

/// One sequence that is to be stored externally.
#[derive(Debug)]
pub struct MetaEdit {
    pub fragment_index: usize,
    pub kind: RowMetaKind,
    pub file: ExternalFile,
}

/// The fragments after the edits.
pub open spec fn edited(fs: Seq<FragmentView>, edits: Seq<MetaEdit>) -> Seq<FragmentView>
    decreases edits.len(),
{
    if edits.len() == 0 {
        fs
    } else {
        let e = edits.last();
        let before = edited(fs, edits.drop_last());
        before.update(
            e.fragment_index as int,
            before[e.fragment_index as int].with(e.kind, MetaView::External(e.file@)),
        )
    }
}

/// What a spill will do: the bytes to write, and the references to set once
/// they are written.
#[derive(Debug)]
pub struct SpillPlan {
    edits: Vec<MetaEdit>,
    buffer: Vec<u8>,
    spilled: usize,
}

impl SpillPlan {
    pub closed spec fn edit_list(&self) -> Seq<MetaEdit> {
        self.edits@
    }

    pub closed spec fn bytes(&self) -> Seq<u8> {
        self.buffer@
    }

    pub closed spec fn count(&self) -> nat {
        self.spilled as nat
    }

    /// The plan is that of the given fragments.
    pub open spec fn is_for(
        &self,
        fs: Seq<FragmentView>,
        h: HydratedRowMetas,
        threshold: nat,
        path: Seq<char>,
    ) -> bool {
        &&& self.bytes() == spilled_before(fs, h, threshold, fs.len(), 0)
        &&& self.count() == spill_count(fs, h, threshold, fs.len(), 0)
        &&& edited(fs, self.edit_list()) == spilled_upto(
            fs,
            h,
            threshold,
            path,
            fs.len() as int,
            0,
        )
        &&& forall|e: int|
            0 <= e < self.edit_list().len() ==> (#[trigger] self.edit_list()[e]).fragment_index
                < fs.len()
    }

    /// The bytes to write to the spill file; no file is written for none.
    pub fn buffer(&self) -> (r: &Vec<u8>)
        ensures
            r@ == self.bytes(),
    {
        &self.buffer
    }
}

fn same_bytes(a: &Vec<u8>, b: &Vec<u8>) -> (r: bool)
    ensures
        r == (a@ == b@),
{
    if a.len() != b.len() {
        return false;
    }
    for i in 0..a.len()
        invariant
            a@.len() == b@.len(),
            forall|j: int| 0 <= j < i ==> a@[j] == b@[j],
    {
        if a[i] != b[i] {
            return false;
        }
    }
    assert(a@ =~= b@);
    true
}

fn append_bytes(buffer: &mut Vec<u8>, bytes: &Vec<u8>)
    ensures
        final(buffer)@ == old(buffer)@ + bytes@,
{
    let ghost start = buffer@;
    for i in 0..bytes.len()
        invariant
            buffer@ == start + bytes@.take(i as int),
    {
        buffer.push(bytes[i]);
        assert(bytes@.take(i + 1) =~= bytes@.take(i as int).push(bytes@[i as int]));
        assert(buffer@ =~= start + bytes@.take(i + 1));
    }
    assert(bytes@.take(bytes@.len() as int) =~= bytes@);
}

/// Adding the edit for one sequence.
proof fn edit_step(
    fs: Seq<FragmentView>,
    h: HydratedRowMetas,
    threshold: nat,
    path: Seq<char>,
    edits: Seq<MetaEdit>,
    i: int,
    k: nat,
    e: MetaEdit,
)
    requires
        0 <= i < fs.len(),
        k < 3,
        edited(fs, edits) == spilled_upto(fs, h, threshold, path, i, k),
        e.fragment_index == i,
        e.kind == kind_at(k as int),
        MetaView::External(e.file@) == spilled_meta(
            fs[i],
            e.kind,
            h,
            threshold,
            path,
            spilled_before(fs, h, threshold, i as nat, k).len(),
        ),
    ensures
        edited(fs, edits.push(e)) == spilled_upto(fs, h, threshold, path, i, k + 1),
{
    assert(edits.push(e).drop_last() =~= edits);
    assert(edited(fs, edits.push(e)) =~= spilled_upto(fs, h, threshold, path, i, k + 1));
}

/// A sequence that spilling leaves alone.
proof fn no_edit_step(
    fs: Seq<FragmentView>,
    h: HydratedRowMetas,
    threshold: nat,
    path: Seq<char>,
    i: int,
    k: nat,
)
    requires
        0 <= i < fs.len(),
        k < 3,
        spilled_meta(
            fs[i],
            kind_at(k as int),
            h,
            threshold,
            path,
            spilled_before(fs, h, threshold, i as nat, k).len(),
        ) == fs[i].get(kind_at(k as int)),
    ensures
        spilled_upto(fs, h, threshold, path, i, k + 1) == spilled_upto(
            fs,
            h,
            threshold,
            path,
            i,
            k,
        ),
{
    spilled_kinds_get(fs, h, threshold, path, i, k);
    assert(spilled_kinds(fs, h, threshold, path, i, k).get(kind_at(k as int)) == fs[i].get(
        kind_at(k as int),
    ));
    assert(spilled_kinds(fs, h, threshold, path, i, k + 1) == spilled_kinds(
        fs,
        h,
        threshold,
        path,
        i,
        k,
    ));
    assert(spilled_upto(fs, h, threshold, path, i, k + 1) =~= spilled_upto(
        fs,
        h,
        threshold,
        path,
        i,
        k,
    ));
}

/// What a fragment holds after its first `k` kinds were spilled.
pub proof fn spilled_kinds_get(
    fs: Seq<FragmentView>,
    h: HydratedRowMetas,
    threshold: nat,
    path: Seq<char>,
    i: int,
    k: nat,
)
    requires
        0 <= i < fs.len(),
        k <= 3,
    ensures
        spilled_kinds(fs, h, threshold, path, i, k).id == fs[i].id,
        forall|j: int|
            0 <= j < 3 ==> #[trigger] spilled_kinds(fs, h, threshold, path, i, k).get(kind_at(j))
                == (if j < k {
                spilled_meta(
                    fs[i],
                    kind_at(j),
                    h,
                    threshold,
                    path,
                    spilled_before(fs, h, threshold, i as nat, j as nat).len(),
                )
            } else {
                fs[i].get(kind_at(j))
            }),
    decreases k,
{
    if k > 0 {
        let earlier = spilled_kinds(fs, h, threshold, path, i, (k - 1) as nat);
        let now = spilled_kinds(fs, h, threshold, path, i, k);
        spilled_kinds_get(fs, h, threshold, path, i, (k - 1) as nat);
        assert forall|j: int| 0 <= j < 3 && j != k - 1 implies #[trigger] now.get(kind_at(j))
            == earlier.get(kind_at(j)) by {}
        assert forall|j: int| 0 <= j < 3 implies #[trigger] now.get(kind_at(j)) == (if j < k {
            spilled_meta(
                fs[i],
                kind_at(j),
                h,
                threshold,
                path,
                spilled_before(fs, h, threshold, i as nat, j as nat).len(),
            )
        } else {
            fs[i].get(kind_at(j))
        }) by {
            if j != k - 1 {
                assert(earlier.get(kind_at(j)) == now.get(kind_at(j)));
            }
        }
    }
}

/// Plan moving every inline sequence larger than `threshold_bytes` out of the
/// manifest: unchanged hydrated sequences get their reference back, the others
/// share one file.
pub fn plan_externalize(
    fragments: &Vec<Fragment>,
    file_name: &str,
    hydrated: &HydratedRowMetas,
    threshold_bytes: usize,
) -> (r: SpillPlan)
    ensures
        r.is_for(
            fragment_views(fragments@),
            *hydrated,
            threshold_bytes as nat,
            ROWIDS_DIR@ + "/"@ + file_name@,
        ),
{
    let relative_path = concat3(ROWIDS_DIR, "/", file_name);
    let mut edits: Vec<MetaEdit> = Vec::new();
    let mut buffer: Vec<u8> = Vec::new();
    let mut spilled: usize = 0;
    let ghost fs = fragment_views(fragments@);
    let ghost h = *hydrated;
    let ghost t = threshold_bytes as nat;
    let ghost path = relative_path@;
    proof {
        assert(edited(fs, edits@) =~= spilled_upto(fs, h, t, path, 0, 0));
        assert(buffer@ =~= spilled_before(fs, h, t, 0, 0));
    }
    for i in 0..fragments.len()
        invariant
            fs == fragment_views(fragments@),
            h == *hydrated,
            t == threshold_bytes,
            path == relative_path@,
            buffer@ == spilled_before(fs, h, t, i as nat, 0),
            spilled == spill_count(fs, h, t, i as nat, 0),
            spilled <= buffer@.len(),
            edited(fs, edits@) == spilled_upto(fs, h, t, path, i as int, 0),
            forall|e: int| 0 <= e < edits@.len() ==> (#[trigger] edits@[e]).fragment_index < i,
    {
        for k in 0..3usize
            invariant
                i < fragments@.len(),
                fs == fragment_views(fragments@),
                h == *hydrated,
                t == threshold_bytes,
                path == relative_path@,
                buffer@ == spilled_before(fs, h, t, i as nat, k as nat),
                spilled == spill_count(fs, h, t, i as nat, k as nat),
                spilled <= buffer@.len(),
                edited(fs, edits@) == spilled_upto(fs, h, t, path, i as int, k as nat),
                forall|e: int|
                    0 <= e < edits@.len() ==> (#[trigger] edits@[e]).fragment_index <= i,
        {
            let kind = kind_number(k);
            let ghost before = edits@;
            assert(fs[i as int] == fragments@[i as int]@);
            match inline_bytes(&fragments[i], kind) {
                None => {
                    proof {
                        no_edit_step(fs, h, t, path, i as int, k as nat);
                    }
                },
                Some(bytes) => {
                    if bytes.len() <= threshold_bytes {
                        proof {
                            no_edit_step(fs, h, t, path, i as int, k as nat);
                        }
                    } else {
                        let original = match hydrated.get(fragments[i].id, kind) {
                            Some(meta) => {
                                if same_bytes(&meta.bytes, bytes) {
                                    Some(meta.file.clone())
                                } else {
                                    None
                                }
                            },
                            None => None,
                        };
                        match original {
                            Some(file) => {
                                let edit = MetaEdit { fragment_index: i, kind, file };
                                proof {
                                    assert(restored(fs[i as int], kind, h));
                                    edit_step(fs, h, t, path, edits@, i as int, k as nat, edit);
                                }
                                edits.push(edit);
                            },
                            None => {
                                let file = ExternalFile {
                                    path: relative_path.clone(),
                                    offset: buffer.len() as u64,
                                    size: bytes.len() as u64,
                                };
                                let edit = MetaEdit { fragment_index: i, kind, file };
                                proof {
                                    assert(!restored(fs[i as int], kind, h));
                                    edit_step(fs, h, t, path, edits@, i as int, k as nat, edit);
                                }
                                append_bytes(&mut buffer, bytes);
                                edits.push(edit);
                                let total: usize = buffer.len();
                                assert(spilled < total);
                                spilled += 1;
                            },
                        }
                    }
                },
            }
        }
        assert(spilled_upto(fs, h, t, path, i as int, 3) =~= spilled_upto(
            fs,
            h,
            t,
            path,
            i + 1,
            0,
        ));
        assert(spilled_before(fs, h, t, (i + 1) as nat, 0) == spilled_before(
            fs,
            h,
            t,
            i as nat,
            3,
        ));
        assert(spill_count(fs, h, t, (i + 1) as nat, 0) == spill_count(fs, h, t, i as nat, 3));
    }
    SpillPlan { edits, buffer, spilled }
}

/// Set the references of a plan whose bytes were written; gives the number of
/// sequences written.
pub fn apply_externalize(fragments: &mut Vec<Fragment>, plan: SpillPlan) -> (r: usize)
    requires
        forall|e: int|
            0 <= e < plan.edit_list().len() ==> (#[trigger] plan.edit_list()[e]).fragment_index
                < old(fragments)@.len(),
    ensures
        fragment_views(final(fragments)@) == edited(
            fragment_views(old(fragments)@),
            plan.edit_list(),
        ),
        r == plan.count(),
{
    let ghost fs = fragment_views(fragments@);
    let ghost list = plan.edit_list();
    let edits = plan.edits;
    assert(list == edits@);
    assert forall|e: int| 0 <= e < edits@.len() implies (#[trigger] edits@[e]).fragment_index
        < fs.len() by {
        assert(list[e].fragment_index < fs.len());
    }
    for e in 0..edits.len()
        invariant
            fragments@.len() == fs.len(),
            fragment_views(fragments@) == edited(fs, edits@.take(e as int)),
            forall|e: int|
                0 <= e < edits@.len() ==> (#[trigger] edits@[e]).fragment_index < fs.len(),
    {
        let edit = &edits[e];
        let ghost before = fragments@;
        set_external(&mut fragments[edit.fragment_index], edit.kind, edit.file.clone());
        proof {
            assert(edits@.take(e + 1).drop_last() =~= edits@.take(e as int));
            assert(edits@.take(e + 1).last() == edits@[e as int]);
            assert(fragment_views(fragments@) =~= edited(fs, edits@.take(e + 1)));
        }
    }
    assert(edits@.take(edits@.len() as int) =~= edits@);
    plan.spilled
}

/// What was written before one place stays at the front of what is written
/// before a later one.
proof fn spilled_before_grows(
    fs: Seq<FragmentView>,
    h: HydratedRowMetas,
    threshold: nat,
    i: nat,
    k: nat,
    j: nat,
    l: nat,
)
    requires
        k <= 3,
        l <= 3,
        i < j || (i == j && k <= l),
    ensures
        spilled_before(fs, h, threshold, i, k).len() <= spilled_before(
            fs,
            h,
            threshold,
            j,
            l,
        ).len(),
        spilled_before(fs, h, threshold, j, l).take(
            spilled_before(fs, h, threshold, i, k).len() as int,
        ) == spilled_before(fs, h, threshold, i, k),
    decreases j, l,
{
    let a = spilled_before(fs, h, threshold, i, k);
    let b = spilled_before(fs, h, threshold, j, l);
    if i == j && k == l {
        assert(b.take(a.len() as int) =~= a);
    } else if l > 0 {
        spilled_before_grows(fs, h, threshold, i, k, j, (l - 1) as nat);
        let c = spilled_before(fs, h, threshold, j, (l - 1) as nat);
        assert(b.take(a.len() as int) =~= c.take(a.len() as int));
    } else {
        spilled_before_grows(fs, h, threshold, i, k, (j - 1) as nat, 3);
    }
}

/// Reading back what was spilled: the bytes that a spilled sequence's reference
/// names in the spill file are the sequence's own.
pub proof fn spilled_bytes_read_back(
    fs: Seq<FragmentView>,
    h: HydratedRowMetas,
    threshold: nat,
    i: int,
    k: int,
)
    requires
        0 <= i < fs.len(),
        0 <= k < 3,
        spills(fs[i], kind_at(k), h, threshold),
    ensures
        ({
            let buffer = spilled_before(fs, h, threshold, fs.len(), 0);
            let offset = spilled_before(fs, h, threshold, i as nat, k as nat).len() as int;
            let bytes = fs[i].get(kind_at(k))->Inline_0;
            &&& offset + bytes.len() <= buffer.len()
            &&& buffer.subrange(offset, (offset + bytes.len()) as int) == bytes
        }),
{
    let buffer = spilled_before(fs, h, threshold, fs.len(), 0);
    let before = spilled_before(fs, h, threshold, i as nat, k as nat);
    let after = spilled_before(fs, h, threshold, i as nat, (k + 1) as nat);
    let bytes = fs[i].get(kind_at(k))->Inline_0;
    let offset = before.len() as int;
    spilled_before_grows(fs, h, threshold, i as nat, (k + 1) as nat, fs.len(), 0);
    assert(after == before + bytes);
    assert forall|x: int| 0 <= x < bytes.len() implies buffer[offset + x] == bytes[x] by {
        assert(buffer.take(after.len() as int)[offset + x] == after[offset + x]);
    }
    assert(buffer.subrange(offset, (offset + bytes.len()) as int) =~= bytes);
}

/// The reader that finds spilled sequences in the spill file and restored ones
/// where they were.
pub open spec fn reads_back(
    read: spec_fn(FileView) -> Seq<u8>,
    fs: Seq<FragmentView>,
    h: HydratedRowMetas,
    threshold: nat,
    path: Seq<char>,
) -> bool {
    let buffer = spilled_before(fs, h, threshold, fs.len(), 0);
    &&& forall|file: FileView|
        file.path == path && file.offset + file.size <= buffer.len() ==> #[trigger] read(file)
            == buffer.subrange(file.offset as int, file.offset + file.size)
    &&& forall|id: u64, kind: RowMetaKind|
        (#[trigger] h.entry(id, kind)) matches Some((file, bytes)) ==> read(file) == bytes
}

/// Hydrating what was externalized gives every inline sequence back, byte for
/// byte, whether it was spilled, restored or left where it was.
pub proof fn externalize_then_hydrate(
    fs: Seq<FragmentView>,
    h: HydratedRowMetas,
    threshold: nat,
    path: Seq<char>,
    read: spec_fn(FileView) -> Seq<u8>,
    i: int,
    k: int,
)
    requires
        0 <= i < fs.len(),
        0 <= k < 3,
        fs[i].get(kind_at(k)) is Inline,
        spilled_before(fs, h, threshold, fs.len(), 0).len() <= u64::MAX,
        reads_back(read, fs, h, threshold, path),
    ensures
        hydrated_fragment(
            spilled_upto(fs, h, threshold, path, fs.len() as int, 0)[i],
            read,
        ).get(kind_at(k)) == fs[i].get(kind_at(k)),
{
    let kind = kind_at(k);
    let after = spilled_kinds(fs, h, threshold, path, i, 3);
    spilled_kinds_get(fs, h, threshold, path, i, 3);
    assert(after.get(kind_at(k)) == spilled_meta(
        fs[i],
        kind,
        h,
        threshold,
        path,
        spilled_before(fs, h, threshold, i as nat, k as nat).len(),
    ));
    assert(hydrated_fragment(after, read).get(kind) == hydrated_meta(after.get(kind), read));
    if spills(fs[i], kind, h, threshold) {
        spilled_bytes_read_back(fs, h, threshold, i, k);
        let file = after.get(kind)->External_0;
        let buffer = spilled_before(fs, h, threshold, fs.len(), 0);
        assert(read(file) == buffer.subrange(file.offset as int, file.offset + file.size));
    } else if restored(fs[i], kind, h) {
        assert(h.entry(fs[i].id, kind) is Some);
    }
}

/// The bytes of a sequence that are handed to the decoder: those held inline, or
/// those that are read.
pub open spec fn decoded_bytes(m: MetaView, read: spec_fn(FileView) -> Seq<u8>) -> Option<
    Seq<u8>,
> {
    match m {
        MetaView::Absent => None,
        MetaView::Inline(b) => Some(b),
        MetaView::External(file) => Some(read(file)),
    }
}

/// Pulling a fragment inline hands the decoder the same bytes as before.
pub proof fn hydrating_keeps_bytes(
    f: FragmentView,
    read: spec_fn(FileView) -> Seq<u8>,
    kind: RowMetaKind,
)
    ensures
        decoded_bytes(hydrated_fragment(f, read).get(kind), read) == decoded_bytes(
            f.get(kind),
            read,
        ),
{
}

/// Externalizing hands the decoder the same bytes as before, for every
/// sequence of every fragment: inline or external, spilled, restored or left
/// where it was.
pub proof fn externalizing_keeps_bytes(
    fs: Seq<FragmentView>,
    h: HydratedRowMetas,
    threshold: nat,
    path: Seq<char>,
    read: spec_fn(FileView) -> Seq<u8>,
    i: int,
    k: int,
)
    requires
        0 <= i < fs.len(),
        0 <= k < 3,
        spilled_before(fs, h, threshold, fs.len(), 0).len() <= u64::MAX,
        reads_back(read, fs, h, threshold, path),
    ensures
        decoded_bytes(
            spilled_upto(fs, h, threshold, path, fs.len() as int, 0)[i].get(kind_at(k)),
            read,
        ) == decoded_bytes(fs[i].get(kind_at(k)), read),
{
    let after = spilled_kinds(fs, h, threshold, path, i, 3);
    let kind = kind_at(k);
    spilled_kinds_get(fs, h, threshold, path, i, 3);
    assert(after.get(kind_at(k)) == spilled_meta(
        fs[i],
        kind,
        h,
        threshold,
        path,
        spilled_before(fs, h, threshold, i as nat, k as nat).len(),
    ));
    if fs[i].get(kind) is Inline {
        externalize_then_hydrate(fs, h, threshold, path, read, i, k);
        assert(hydrated_fragment(after, read).get(kind) == hydrated_meta(after.get(kind), read));
    }
}

/// A sequence that is not larger than the threshold, or not inline, stays as
/// it is; one that is what was pulled inline gets its reference back, and
/// nothing is written for it.
pub proof fn only_new_large_sequences_spill(
    fs: Seq<FragmentView>,
    h: HydratedRowMetas,
    threshold: nat,
    path: Seq<char>,
    i: int,
    k: int,
)
    requires
        0 <= i < fs.len(),
        0 <= k < 3,
        !spills(fs[i], kind_at(k), h, threshold),
    ensures
        ({
            let kind = kind_at(k);
            let after = spilled_upto(fs, h, threshold, path, fs.len() as int, 0)[i].get(kind);
            ||| after == fs[i].get(kind)
            ||| restored(fs[i], kind, h) && after == MetaView::External(
                (h.entry(fs[i].id, kind)->0).0,
            )
        }),
        spilled_before(fs, h, threshold, i as nat, (k + 1) as nat) == spilled_before(
            fs,
            h,
            threshold,
            i as nat,
            k as nat,
        ),
{
    spilled_kinds_get(fs, h, threshold, path, i, 3);
    assert(spilled_kinds(fs, h, threshold, path, i, 3).get(kind_at(k)) == spilled_meta(
        fs[i],
        kind_at(k),
        h,
        threshold,
        path,
        spilled_before(fs, h, threshold, i as nat, k as nat).len(),
    ));
}

/// Sequences spilled by one call share the file at distinct places: the earlier
/// one ends before the later one starts.
pub proof fn spilled_ranges_are_disjoint(
    fs: Seq<FragmentView>,
    h: HydratedRowMetas,
    threshold: nat,
    i: int,
    k: int,
    j: int,
    l: int,
)
    requires
        0 <= i < fs.len(),
        0 <= j < fs.len(),
        0 <= k < 3,
        0 <= l < 3,
        i < j || (i == j && k < l),
        spills(fs[i], kind_at(k), h, threshold),
        spills(fs[j], kind_at(l), h, threshold),
    ensures
        spilled_before(fs, h, threshold, i as nat, k as nat).len() + (fs[i].get(
            kind_at(k),
        )->Inline_0).len() <= spilled_before(fs, h, threshold, j as nat, l as nat).len(),
{
    spilled_before_grows(fs, h, threshold, i as nat, (k + 1) as nat, j as nat, l as nat);
}

/// A file is written exactly when a sequence is spilled.
pub proof fn file_written_iff_spilled(
    fs: Seq<FragmentView>,
    h: HydratedRowMetas,
    threshold: nat,
    i: nat,
    k: nat,
)
    requires
        k <= 3,
    ensures
        spilled_before(fs, h, threshold, i, k).len() == 0 <==> spill_count(fs, h, threshold, i, k)
            == 0,
        spill_count(fs, h, threshold, i, k) <= spilled_before(fs, h, threshold, i, k).len(),
    decreases i, k,
{
    if k > 0 {
        file_written_iff_spilled(fs, h, threshold, i, (k - 1) as nat);
    } else if i > 0 {
        file_written_iff_spilled(fs, h, threshold, (i - 1) as nat, 3);
    }
}

/// A sequence that was pulled inline and left untouched gets its reference back
/// where it is larger than the threshold, and nothing is written for it.
pub proof fn untouched_sequence_is_restored(
    fs: Seq<FragmentView>,
    h: HydratedRowMetas,
    threshold: nat,
    path: Seq<char>,
    i: int,
    k: int,
    file: FileView,
    bytes: Seq<u8>,
)
    requires
        0 <= i < fs.len(),
        0 <= k < 3,
        h.entry(fs[i].id, kind_at(k)) == Some((file, bytes)),
        fs[i].get(kind_at(k)) == MetaView::Inline(bytes),
        bytes.len() > threshold,
    ensures
        spilled_upto(fs, h, threshold, path, fs.len() as int, 0)[i].get(kind_at(k))
            == MetaView::External(file),
        !spills(fs[i], kind_at(k), h, threshold),
{
    spilled_kinds_get(fs, h, threshold, path, i, 3);
    assert(spilled_kinds(fs, h, threshold, path, i, 3).get(kind_at(k)) == spilled_meta(
        fs[i],
        kind_at(k),
        h,
        threshold,
        path,
        spilled_before(fs, h, threshold, i as nat, k as nat).len(),
    ));
}

/// A fragment has something to hydrate exactly when one of its sequences is
/// external.
pub proof fn pending_iff_external(f: FragmentView)
    ensures
        pending(f, 3).len() > 0 <==> exists|kind: RowMetaKind| #[trigger] f.get(kind) is External,
{
    reveal_with_fuel(pending, 4);
    assert(kind_at(0) == RowMetaKind::RowId);
    assert(kind_at(1) == RowMetaKind::CreatedAtVersion);
    assert(kind_at(2) == RowMetaKind::LastUpdatedAtVersion);
    if pending(f, 3).len() > 0 {
        assert(f.get(kind_at(0)) is External || f.get(kind_at(1)) is External || f.get(
            kind_at(2),
        ) is External);
    }
}

/// A kind stands for one field of a fragment, and all three are visited.
/// Replacing a sequence replaces that field and no other.
pub proof fn kinds_are_the_fields(f: FragmentView, kind: RowMetaKind, other: RowMetaKind, m: MetaView)
    ensures
        f.get(RowMetaKind::RowId) == f.row_ids,
        f.get(RowMetaKind::CreatedAtVersion) == f.created_at,
        f.get(RowMetaKind::LastUpdatedAtVersion) == f.last_updated_at,
        f.with(kind, m).get(kind) == m,
        other != kind ==> f.with(kind, m).get(other) == f.get(other),
        f.with(kind, m).id == f.id,
        f.with(kind, m).has_deletion_file == f.has_deletion_file,
        exists|k: int| 0 <= k < 3 && #[trigger] kind_at(k) == kind,
        forall|j: int, k: int|
            0 <= j < k < 3 ==> #[trigger] kind_at(j) != #[trigger] kind_at(k),
{
    assert(kind_at(0) == kind || kind_at(1) == kind || kind_at(2) == kind);
}

/// A fragment in a contract has the sequences of the fragment itself.
pub proof fn fragment_shows_its_sequences(f: Fragment)
    ensures
        f@.id == f.id,
        f@.has_deletion_file == f.has_deletion_file,
        match (f.row_id_meta, f@.row_ids) {
            (None, MetaView::Absent) => true,
            (Some(RowIdMeta::Inline(a)), MetaView::Inline(b)) => a@ == b,
            (Some(RowIdMeta::External(a)), MetaView::External(b)) => same_place(a, b),
            _ => false,
        },
        version_shows(f.created_at_version_meta, f@.created_at),
        version_shows(f.last_updated_at_version_meta, f@.last_updated_at),
{
}

/// A place in a contract is the place itself.
pub open spec fn same_place(a: ExternalFile, b: FileView) -> bool {
    a.path@ == b.path && a.offset == b.offset && a.size == b.size
}

/// A version sequence in a contract is the sequence itself.
pub open spec fn version_shows(m: Option<RowDatasetVersionMeta>, v: MetaView) -> bool {
    match (m, v) {
        (None, MetaView::Absent) => true,
        (Some(RowDatasetVersionMeta::Inline(a)), MetaView::Inline(b)) => a@ == b,
        (Some(RowDatasetVersionMeta::External(a)), MetaView::External(b)) => same_place(a, b),
        _ => false,
    }
}

/// What becomes of a sequence of a fragment: absent, external and small ones
/// stay; a large one that is, byte for byte, what was pulled inline gets its
/// place back; any other large one is found in the spill file, at the place
/// given. The id and the deletion file of the fragment stay.
pub proof fn externalizing_places_sequences(
    fs: Seq<FragmentView>,
    h: HydratedRowMetas,
    threshold: nat,
    path: Seq<char>,
    i: int,
    kind: RowMetaKind,
)
    requires
        0 <= i < fs.len(),
        spilled_before(fs, h, threshold, fs.len(), 0).len() <= u64::MAX,
    ensures
        ({
            let all = spilled_upto(fs, h, threshold, path, fs.len() as int, 0);
            let file = spilled_before(fs, h, threshold, fs.len(), 0);
            &&& all.len() == fs.len()
            &&& all[i].id == fs[i].id
            &&& all[i].has_deletion_file == fs[i].has_deletion_file
            &&& match (fs[i].get(kind), all[i].get(kind)) {
                (MetaView::Absent, after) => after is Absent,
                (MetaView::External(place), after) => after == MetaView::External(place),
                (MetaView::Inline(bytes), MetaView::Inline(after)) => bytes.len() <= threshold
                    && after == bytes,
                (MetaView::Inline(bytes), MetaView::External(place)) => {
                    &&& bytes.len() > threshold
                    &&& match h.entry(fs[i].id, kind) {
                        Some((original, pulled)) if pulled == bytes => place == original,
                        _ => holds_at(file, path, place, bytes),
                    }
                },
                _ => false,
            }
        }),
{
    let all = spilled_upto(fs, h, threshold, path, fs.len() as int, 0);
    assert(kind_at(0) == kind || kind_at(1) == kind || kind_at(2) == kind);
    let k = if kind_at(0) == kind {
        0int
    } else if kind_at(1) == kind {
        1int
    } else {
        2int
    };
    assert(all[i] == spilled_kinds(fs, h, threshold, path, i, 3));
    spilled_kinds_get(fs, h, threshold, path, i, 3);
    assert(all[i].get(kind_at(k)) == spilled_meta(
        fs[i],
        kind,
        h,
        threshold,
        path,
        spilled_before(fs, h, threshold, i as nat, k as nat).len(),
    ));
    reveal_with_fuel(spilled_kinds, 4);
    if spills(fs[i], kind, h, threshold) {
        spilled_bytes_read_back(fs, h, threshold, i, k);
    }
}

/// A file holds these bytes at a place.
pub open spec fn holds_at(
    file: Seq<u8>,
    path: Seq<char>,
    place: FileView,
    bytes: Seq<u8>,
) -> bool {
    &&& place.path == path
    &&& place.size == bytes.len()
    &&& place.offset + place.size <= file.len()
    &&& file.subrange(place.offset as int, place.offset + place.size) == bytes
}

/// What a sequence adds to the spill file, given what was pulled inline for it.
pub open spec fn spill_part(
    m: MetaView,
    pulled: Option<(FileView, Seq<u8>)>,
    threshold: nat,
) -> Seq<u8> {
    match m {
        MetaView::Inline(bytes) => if bytes.len() > threshold && !(pulled is Some && (
        pulled->0).1 == bytes) {
            bytes
        } else {
            Seq::empty()
        },
        _ => Seq::empty(),
    }
}

/// The spill file holds what the fragments add to it, fragment by fragment and
/// in each the row ids, the created-at and the last-updated-at versions, and
/// nothing else. The count is that of the parts that are not empty.
pub proof fn spill_file_is_made_of_parts(
    fs: Seq<FragmentView>,
    f: FragmentView,
    h: HydratedRowMetas,
    threshold: nat,
)
    ensures
        ({
            let more = fs.push(f);
            let n = fs.len();
            let a = spill_part(f.row_ids, h.entry(f.id, RowMetaKind::RowId), threshold);
            let b = spill_part(f.created_at, h.entry(f.id, RowMetaKind::CreatedAtVersion), threshold);
            let c = spill_part(
                f.last_updated_at,
                h.entry(f.id, RowMetaKind::LastUpdatedAtVersion),
                threshold,
            );
            &&& spilled_before(more, h, threshold, n + 1, 0) == spilled_before(
                fs,
                h,
                threshold,
                n,
                0,
            ) + a + b + c
            &&& spill_count(more, h, threshold, n + 1, 0) == spill_count(fs, h, threshold, n, 0)
                + part_count(a) + part_count(b) + part_count(c)
        }),
        spilled_before(Seq::empty(), h, threshold, 0, 0) == Seq::<u8>::empty(),
        spill_count(Seq::empty(), h, threshold, 0, 0) == 0,
{
    let more = fs.push(f);
    let n = fs.len();
    spill_ignores_later(fs, f, h, threshold, n, 0);
    reveal_with_fuel(spilled_before, 5);
    reveal_with_fuel(spill_count, 5);
    let s0 = spilled_before(more, h, threshold, n, 0);
    let a = spill_part(f.row_ids, h.entry(f.id, RowMetaKind::RowId), threshold);
    let b = spill_part(f.created_at, h.entry(f.id, RowMetaKind::CreatedAtVersion), threshold);
    let c = spill_part(
        f.last_updated_at,
        h.entry(f.id, RowMetaKind::LastUpdatedAtVersion),
        threshold,
    );
    assert(more[n as int] == f);
    assert(spilled_before(more, h, threshold, n, 1) =~= s0 + a);
    assert(spilled_before(more, h, threshold, n, 2) =~= s0 + a + b);
    assert(spilled_before(more, h, threshold, n, 3) =~= s0 + a + b + c);
    assert(spilled_before(more, h, threshold, n + 1, 0) == spilled_before(
        more,
        h,
        threshold,
        n,
        3,
    ));
    assert(spill_count(more, h, threshold, n, 1) == spill_count(more, h, threshold, n, 0)
        + part_count(a));
    assert(spill_count(more, h, threshold, n, 2) == spill_count(more, h, threshold, n, 1)
        + part_count(b));
    assert(spill_count(more, h, threshold, n, 3) == spill_count(more, h, threshold, n, 2)
        + part_count(c));
    assert(spill_count(more, h, threshold, n + 1, 0) == spill_count(more, h, threshold, n, 3));
}

/// One for a part, none for an empty one.
pub open spec fn part_count(part: Seq<u8>) -> nat {
    if part.len() > 0 {
        1
    } else {
        0
    }
}

/// Later fragments add nothing before a place.
proof fn spill_ignores_later(
    fs: Seq<FragmentView>,
    f: FragmentView,
    h: HydratedRowMetas,
    threshold: nat,
    i: nat,
    k: nat,
)
    requires
        i < fs.len() || (i == fs.len() && k == 0),
    ensures
        spilled_before(fs.push(f), h, threshold, i, k) == spilled_before(fs, h, threshold, i, k),
        spill_count(fs.push(f), h, threshold, i, k) == spill_count(fs, h, threshold, i, k),
    decreases i, k,
{
    if k > 0 {
        spill_ignores_later(fs, f, h, threshold, i, (k - 1) as nat);
        assert(fs.push(f)[i as int] == fs[i as int]);
    } else if i > 0 {
        spill_ignores_later(fs, f, h, threshold, (i - 1) as nat, 3);
    }
}

/// The place of a sequence with its kind, where the sequence is external.
pub open spec fn place_of(kind: RowMetaKind, m: MetaView) -> Seq<(RowMetaKind, FileView)> {
    match m {
        MetaView::External(place) => seq![(kind, place)],
        _ => Seq::empty(),
    }
}

/// What a fragment has to pull inline: the places of its row ids, its created-at
/// and its last-updated-at versions, those of them that are external.
pub proof fn pending_lists_places(f: FragmentView)
    ensures
        pending(f, 3) == place_of(RowMetaKind::RowId, f.row_ids) + place_of(
            RowMetaKind::CreatedAtVersion,
            f.created_at,
        ) + place_of(RowMetaKind::LastUpdatedAtVersion, f.last_updated_at),
{
    reveal_with_fuel(pending, 4);
    let a = place_of(RowMetaKind::RowId, f.row_ids);
    let b = place_of(RowMetaKind::CreatedAtVersion, f.created_at);
    let c = place_of(RowMetaKind::LastUpdatedAtVersion, f.last_updated_at);
    assert(pending(f, 1) =~= a);
    assert(pending(f, 2) =~= a + b);
    assert(pending(f, 3) =~= a + b + c);
}

/// Pulling a fragment inline puts what is read in the place of each external
/// sequence and changes nothing else.
pub proof fn hydrating_replaces_places(
    f: FragmentView,
    read: spec_fn(FileView) -> Seq<u8>,
    kind: RowMetaKind,
)
    ensures
        hydrated_fragment(f, read).id == f.id,
        hydrated_fragment(f, read).has_deletion_file == f.has_deletion_file,
        match (f.get(kind), hydrated_fragment(f, read).get(kind)) {
            (MetaView::External(place), MetaView::Inline(bytes)) => bytes == read(place),
            (MetaView::Inline(bytes), MetaView::Inline(after)) => after == bytes,
            (MetaView::Absent, MetaView::Absent) => true,
            _ => false,
        },
{
}

/// A 32-bit id stands for the last fragment that has it, and for none where no
/// fragment has it.
pub proof fn fragment_id_stands_for_the_last(fs: Seq<FragmentView>, id: u32)
    ensures
        match fragment_with_id(fs, id) {
            Some(i) => 0 <= i < fs.len() && fs[i].id as u32 == id && forall|j: int|
                i < j < fs.len() ==> (#[trigger] fs[j]).id as u32 != id,
            None => forall|j: int| 0 <= j < fs.len() ==> (#[trigger] fs[j]).id as u32 != id,
        },
    decreases fs.len(),
{
    if fs.len() > 0 && fs.last().id as u32 != id {
        let before = fs.drop_last();
        fragment_id_stands_for_the_last(before, id);
        assert forall|j: int| 0 <= j < fs.len() - 1 implies #[trigger] fs[j] == before[j] by {}
    }
}

/// An edit puts the place it gives in one sequence of one fragment and leaves
/// all others; edits take effect one after another.
pub proof fn edits_set_places(
    fs: Seq<FragmentView>,
    edits: Seq<MetaEdit>,
    e: MetaEdit,
    i: int,
    kind: RowMetaKind,
)
    requires
        0 <= i < fs.len(),
        forall|x: int|
            0 <= x < edits.len() ==> (#[trigger] edits[x]).fragment_index < fs.len(),
        e.fragment_index < fs.len(),
    ensures
        edited(fs, Seq::empty()) == fs,
        edited(fs, edits).len() == fs.len(),
        edited(fs, edits.push(e))[i].get(kind) == (if i == e.fragment_index && kind == e.kind {
            MetaView::External(e.file@)
        } else {
            edited(fs, edits)[i].get(kind)
        }),
        edited(fs, edits)[i].id == fs[i].id,
    decreases edits.len(),
{
    assert(edits.push(e).drop_last() =~= edits);
    if edits.len() > 0 {
        let before = edits.drop_last();
        assert forall|x: int| 0 <= x < before.len() implies (
        #[trigger] before[x]).fragment_index < fs.len() by {
            assert(edits[x].fragment_index < fs.len());
        }
        assert(edits[edits.len() - 1].fragment_index < fs.len());
        edits_set_places(fs, before, edits.last(), i, kind);
    }
}

/// What was pulled inline for a fragment is what is kept under its id.
pub proof fn pulled_entries_are_kept_by_id(m: Map<u64, HydratedMeta>, id: u64)
    ensures
        match meta_entry(m, id) {
            Some((place, bytes)) => m.contains_key(id) && same_place(m[id].file, place)
                && m[id].bytes@ == bytes,
            None => !m.contains_key(id),
        },
{
}

/// Deletions count only for a fragment with a deletion file, and only where they
/// could be loaded.
pub proof fn deletions_need_their_file(
    has_deletion_file: bool,
    loaded: Result<Option<Vec<u32>>, Error>,
    r: Vec<u32>,
)
    requires
        call_ensures(effective_deletions, (has_deletion_file, loaded), r),
    ensures
        !has_deletion_file ==> r@.len() == 0,
        loaded is Err ==> r@.len() == 0,
        match loaded {
            Ok(Some(v)) => has_deletion_file ==> r@ == v@,
            _ => r@.len() == 0,
        },
{
}

/// Reading a place of a file reads as many bytes as the place has, from where it
/// starts.
pub proof fn reads_cover_their_place(
    base_path: &str,
    file: &ExternalFile,
    r: Result<ExternalRead, String>,
)
    requires
        call_ensures(external_read, (base_path, file), r),
    ensures
        match (r, path_below(base_path@, file.path@)) {
            (Ok(read), Ok(path)) => read.path@ == path && read.start == file.offset && read.end
                - read.start == file.size,
            (Err(e), Err(v)) => e@ == v,
            _ => false,
        },
{
}

/// Row ids and versions are decoded from the bytes that are stored, or read from
/// the place that is stored.
pub proof fn sources_are_what_is_stored(
    fragment: &Fragment,
    meta: &RowDatasetVersionMeta,
    ids: Result<MetaSource, Error>,
    versions: MetaSource,
)
    requires
        call_ensures(row_id_source, (fragment,), ids),
        call_ensures(version_source, (meta,), versions),
    ensures
        match (fragment.row_id_meta, ids) {
            (Some(RowIdMeta::Inline(a)), Ok(MetaSource::Bytes(b))) => a@ == b@,
            (Some(RowIdMeta::External(a)), Ok(MetaSource::Read(b))) => same_place(b, a@),
            (None, Err(_)) => true,
            _ => false,
        },
        match (*meta, versions) {
            (RowDatasetVersionMeta::Inline(a), MetaSource::Bytes(b)) => a@ == b@,
            (RowDatasetVersionMeta::External(a), MetaSource::Read(b)) => same_place(b, a@),
            _ => false,
        },
{
}

/// A plan to externalize, once its edits are made: every sequence is where
/// `externalizing_places_sequences` says, those spilled in the file of the given
/// name below the directory for row ids, which holds the plan's bytes.
pub proof fn plan_places_sequences(
    fragments: &Vec<Fragment>,
    file_name: &str,
    hydrated: &HydratedRowMetas,
    threshold_bytes: usize,
    plan: SpillPlan,
    i: int,
    kind: RowMetaKind,
)
    requires
        call_ensures(plan_externalize, (fragments, file_name, hydrated, threshold_bytes), plan),
        0 <= i < fragments@.len(),
        plan.bytes().len() <= u64::MAX,
    ensures
        ({
            let before = fragments@[i]@;
            let after = edited(fragment_views(fragments@), plan.edit_list())[i];
            let path = "_rowids"@ + "/"@ + file_name@;
            match (before.get(kind), after.get(kind)) {
                (MetaView::Absent, a) => a is Absent,
                (MetaView::External(place), a) => a == MetaView::External(place),
                (MetaView::Inline(bytes), MetaView::Inline(a)) => bytes.len() <= threshold_bytes
                    && a == bytes,
                (MetaView::Inline(bytes), MetaView::External(place)) => {
                    &&& bytes.len() > threshold_bytes
                    &&& match hydrated.entry(before.id, kind) {
                        Some((original, pulled)) if pulled == bytes => place == original,
                        _ => holds_at(plan.bytes(), path, place, bytes),
                    }
                },
                _ => false,
            }
        }),
{
    let fs = fragment_views(fragments@);
    assert(fs[i] == fragments@[i]@);
    externalizing_places_sequences(
        fs,
        *hydrated,
        threshold_bytes as nat,
        "_rowids"@ + "/"@ + file_name@,
        i,
        kind,
    );
}

/// A sequence is inline or external or absent: its bytes are had exactly where
/// its place is not, and both are what the fragment stores. A fragment has
/// external row metadata exactly where some sequence has a place.
pub proof fn bytes_or_place(
    fragment: &Fragment,
    kind: RowMetaKind,
    bytes: Option<&Vec<u8>>,
    place: Option<&ExternalFile>,
    external: bool,
)
    requires
        call_ensures(inline_bytes, (fragment, kind), bytes),
        call_ensures(external_file, (fragment, kind), place),
        call_ensures(fragment_has_external_row_meta, (fragment,), external),
    ensures
        !(bytes is Some && place is Some),
        bytes is None && place is None <==> fragment@.get(kind) is Absent,
        match bytes {
            Some(b) => fragment@.get(kind) == MetaView::Inline(b@),
            None => !(fragment@.get(kind) is Inline),
        },
        match place {
            Some(f) => fragment@.get(kind) == MetaView::External(f@) && external,
            None => !(fragment@.get(kind) is External),
        },
        external == (fragment@.row_ids is External || fragment@.created_at is External
            || fragment@.last_updated_at is External),
{
    if external {
        let k = choose|k: RowMetaKind| #[trigger] fragment@.get(k) is External;
        assert(k == RowMetaKind::RowId || k == RowMetaKind::CreatedAtVersion || k
            == RowMetaKind::LastUpdatedAtVersion);
    }
    assert(fragment@.get(RowMetaKind::RowId) == fragment@.row_ids);
    assert(fragment@.get(RowMetaKind::CreatedAtVersion) == fragment@.created_at);
    assert(fragment@.get(RowMetaKind::LastUpdatedAtVersion) == fragment@.last_updated_at);
}

/// Whether a sequence has deletions is what the last fragment with its id says,
/// and nothing is said where no fragment has it.
pub proof fn deletions_are_those_of_the_fragment(
    fragments: &Vec<Fragment>,
    fragment_id: u32,
    r: Option<bool>,
    i: int,
)
    requires
        call_ensures(sequence_has_deletions, (fragments, fragment_id), r),
        0 <= i < fragments@.len(),
    ensures
        r is None ==> fragments@[i].id as u32 != fragment_id,
        fragments@[i].id as u32 == fragment_id && (forall|j: int|
            i < j < fragments@.len() ==> (#[trigger] fragments@[j]).id as u32 != fragment_id)
            ==> r == Some(fragments@[i].has_deletion_file),
{
    let views = fragment_views(fragments@);
    fragment_id_stands_for_the_last(views, fragment_id);
    assert forall|j: int| 0 <= j < views.len() implies (#[trigger] views[j]).id
        == fragments@[j].id by {}
    assert(views[i].id == fragments@[i].id);
    if let Some(k) = fragment_with_id(views, fragment_id) {
        assert(views[k].id == fragments@[k].id);
    }
}

/// Fragments in a contract are the fragments themselves, in order.
pub proof fn fragments_show_themselves(v: Seq<Fragment>, i: int)
    ensures
        fragment_views(v).len() == v.len(),
        0 <= i < v.len() ==> fragment_views(v)[i] == v[i]@,
{
}

/// What is to be pulled inline, in a contract, is what is listed, in order.
pub proof fn pending_shows_itself(v: Seq<PendingMeta>, i: int)
    ensures
        pending_views(v).len() == v.len(),
        0 <= i < v.len() ==> pending_views(v)[i].0 == v[i].kind && same_place(
            v[i].file,
            pending_views(v)[i].1,
        ),
{
}

} // verus!
