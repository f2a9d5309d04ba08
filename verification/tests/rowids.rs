use lance_compound::error::Error;
use lance_compound::rowids::{
    apply_externalize, effective_deletions, external_metas, external_read,
    fragment_has_external_row_meta, hydrate_meta, inline_bytes, plan_externalize, row_id_source,
    sequence_has_deletions, spill_path, version_source, ExternalFile, Fragment, HydratedRowMetas,
    MetaSource, RowDatasetVersionMeta, RowIdMeta, RowMetaKind,
};

fn fragment(id: u64, row_ids: Vec<u8>, created: Vec<u8>, updated: Vec<u8>) -> Fragment {
    Fragment {
        id,
        has_deletion_file: false,
        row_id_meta: Some(RowIdMeta::Inline(row_ids)),
        created_at_version_meta: Some(RowDatasetVersionMeta::Inline(created)),
        last_updated_at_version_meta: Some(RowDatasetVersionMeta::Inline(updated)),
    }
}

fn external(path: &str, offset: u64, size: u64) -> ExternalFile {
    ExternalFile { path: path.to_string(), offset, size }
}

fn file_of(f: &Fragment, kind: RowMetaKind) -> (String, u64, u64) {
    let file = match (kind, f) {
        (RowMetaKind::RowId, Fragment { row_id_meta: Some(RowIdMeta::External(x)), .. }) => x,
        (
            RowMetaKind::CreatedAtVersion,
            Fragment { created_at_version_meta: Some(RowDatasetVersionMeta::External(x)), .. },
        ) => x,
        (
            RowMetaKind::LastUpdatedAtVersion,
            Fragment {
                last_updated_at_version_meta: Some(RowDatasetVersionMeta::External(x)), ..
            },
        ) => x,
        _ => panic!("not external"),
    };
    (file.path.clone(), file.offset, file.size)
}

#[test]
fn large_sequences_share_one_file() {
    let mut fragments = vec![
        fragment(7, vec![1; 5], vec![2; 3], vec![3; 6]),
        fragment(8, vec![4; 4], vec![], vec![5; 2]),
    ];
    let hydrated = HydratedRowMetas::new();
    let plan = plan_externalize(&fragments, "f1", &hydrated, 3);
    assert_eq!(
        plan.buffer(),
        &vec![1, 1, 1, 1, 1, 3, 3, 3, 3, 3, 3, 4, 4, 4, 4]
    );
    let buffer = plan.buffer().clone();
    assert_eq!(apply_externalize(&mut fragments, plan), 3);
    assert_eq!(file_of(&fragments[0], RowMetaKind::RowId), ("_rowids/f1".to_string(), 0, 5));
    assert_eq!(
        inline_bytes(&fragments[0], RowMetaKind::CreatedAtVersion),
        Some(&vec![2, 2, 2])
    );
    assert_eq!(
        file_of(&fragments[0], RowMetaKind::LastUpdatedAtVersion),
        ("_rowids/f1".to_string(), 5, 6)
    );
    assert_eq!(file_of(&fragments[1], RowMetaKind::RowId), ("_rowids/f1".to_string(), 11, 4));
    let (_, offset, size) = file_of(&fragments[0], RowMetaKind::LastUpdatedAtVersion);
    assert_eq!(buffer[offset as usize..(offset + size) as usize].to_vec(), vec![3; 6]);
    assert!(fragment_has_external_row_meta(&fragments[1]));
}

#[test]
fn nothing_is_written_below_the_threshold() {
    let mut fragments = vec![fragment(1, vec![1; 3], vec![2; 3], vec![])];
    let plan = plan_externalize(&fragments, "f", &HydratedRowMetas::new(), 3);
    assert!(plan.buffer().is_empty());
    assert_eq!(apply_externalize(&mut fragments, plan), 0);
    assert!(!fragment_has_external_row_meta(&fragments[0]));
}

#[test]
fn hydrating_gives_the_bytes_back() {
    let original = vec![
        fragment(1, vec![9; 8], vec![7; 2], vec![6; 5]),
        fragment(2, vec![1, 2, 3, 4, 5], vec![], vec![0; 4]),
    ];
    let mut fragments = vec![
        fragment(1, vec![9; 8], vec![7; 2], vec![6; 5]),
        fragment(2, vec![1, 2, 3, 4, 5], vec![], vec![0; 4]),
    ];
    let plan = plan_externalize(&fragments, "spill", &HydratedRowMetas::new(), 3);
    let file = plan.buffer().clone();
    assert_eq!(apply_externalize(&mut fragments, plan), 4);

    let mut hydrated = HydratedRowMetas::new();
    for f in fragments.iter_mut() {
        for pending in external_metas(f) {
            let start = pending.file.offset as usize;
            let bytes = file[start..start + pending.file.size as usize].to_vec();
            hydrate_meta(f, &mut hydrated, pending, bytes);
        }
    }
    for (f, o) in fragments.iter().zip(original.iter()) {
        assert!(!fragment_has_external_row_meta(f));
        for kind in [
            RowMetaKind::RowId,
            RowMetaKind::CreatedAtVersion,
            RowMetaKind::LastUpdatedAtVersion,
        ] {
            assert_eq!(inline_bytes(f, kind), inline_bytes(o, kind));
        }
    }

    // Unchanged sequences get their reference back without a write.
    let again = plan_externalize(&fragments, "later", &hydrated, 3);
    assert!(again.buffer().is_empty());
    assert_eq!(apply_externalize(&mut fragments, again), 0);
    assert_eq!(
        file_of(&fragments[1], RowMetaKind::RowId),
        ("_rowids/spill".to_string(), 13, 5)
    );
}

#[test]
fn changed_sequences_are_written_again() {
    let mut fragments = vec![fragment(1, vec![5; 4], vec![5; 4], vec![])];
    let mut hydrated = HydratedRowMetas::new();
    hydrated.insert(1, RowMetaKind::RowId, external("_rowids/a", 3, 4), vec![5; 4]);
    hydrated.insert(1, RowMetaKind::CreatedAtVersion, external("_rowids/a", 7, 4), vec![6; 4]);
    hydrated.insert(2, RowMetaKind::RowId, external("_rowids/b", 0, 4), vec![5; 4]);
    let plan = plan_externalize(&fragments, "n", &hydrated, 0);
    assert_eq!(plan.buffer(), &vec![5; 4]);
    assert_eq!(apply_externalize(&mut fragments, plan), 1);
    assert_eq!(file_of(&fragments[0], RowMetaKind::RowId), ("_rowids/a".to_string(), 3, 4));
    assert_eq!(
        file_of(&fragments[0], RowMetaKind::CreatedAtVersion),
        ("_rowids/n".to_string(), 0, 4)
    );
}

#[test]
fn sources_of_sequences() {
    let f = fragment(1, vec![1, 2], vec![], vec![]);
    assert!(matches!(row_id_source(&f), Ok(MetaSource::Bytes(b)) if b == vec![1, 2]));
    let mut f = f;
    f.row_id_meta = Some(RowIdMeta::External(external("_rowids/x", 1, 2)));
    assert!(matches!(row_id_source(&f), Ok(MetaSource::Read(e)) if e.path == "_rowids/x"));
    f.row_id_meta = None;
    let e = row_id_source(&f).unwrap_err();
    assert!(matches!(&e, Error::Internal { .. }));
    assert_eq!(e.message(), "Missing row id meta");
    let meta = RowDatasetVersionMeta::Inline(vec![3]);
    assert!(matches!(version_source(&meta), MetaSource::Bytes(b) if b == vec![3]));
    let meta = RowDatasetVersionMeta::External(external("p", 4, 5));
    assert!(matches!(version_source(&meta), MetaSource::Read(e) if e.offset == 4));
}

#[test]
fn paths_of_external_files() {
    let read = external_read("data/set.lance", &external("_rowids/abc", 10, 5)).unwrap();
    assert_eq!(read.path, "data/set.lance/_rowids/abc");
    assert_eq!((read.start, read.end), (10, 15));
    assert!(external_read("base", &external("a//b", 0, 1)).is_err());
    assert_eq!(spill_path("base", "file").unwrap(), "base/_rowids/file");
    assert_eq!(spill_path("base", "a/b").unwrap(), "base/_rowids/a%2Fb");
}

#[test]
fn deletions_of_sequences() {
    let mut fragments = vec![fragment(1, vec![], vec![], vec![]), fragment(2, vec![], vec![], vec![])];
    fragments[1].has_deletion_file = true;
    assert_eq!(sequence_has_deletions(&fragments, 1), Some(false));
    assert_eq!(sequence_has_deletions(&fragments, 2), Some(true));
    assert_eq!(sequence_has_deletions(&fragments, 3), None);
    assert_eq!(effective_deletions(true, Ok(Some(vec![4, 5]))), vec![4, 5]);
    assert_eq!(effective_deletions(false, Ok(Some(vec![4, 5]))), Vec::<u32>::new());
    assert_eq!(effective_deletions(true, Ok(None)), Vec::<u32>::new());
    let failed = Err(Error::Internal { message: "io".to_string() });
    assert_eq!(effective_deletions(true, failed), Vec::<u32>::new());
}
