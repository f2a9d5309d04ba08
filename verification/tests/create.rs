use lance_compound::create::{
    default_index_name, find_committed, generate_index_name, uses_segment_commit_path,
    validate_index_columns, validate_resolved_columns, BuildAction, BuiltIndex, CommitPath, CreateIndexBuilder, IndexDetails,
    IndexFile, IndexMetadata, IndexParams, IndexPlan, IndexSegmentBuilder, IndexType, ParamsKind,
    ScalarIndexParams, SegmentFamily, Timestamp, LANCE_SCALAR_INDEX,
    LANCE_VECTOR_INDEX,
};
use lance_compound::error::Error;
use lance_compound::schema::{ResolvedColumn, SchemaField};
use roaring::RoaringBitmap;

fn names(v: &[&str]) -> Vec<String> {
    v.iter().map(|s| s.to_string()).collect()
}

fn index(uuid: u128, name: &str, fields: Vec<i32>) -> IndexMetadata {
    IndexMetadata {
        uuid,
        name: name.to_string(),
        fields,
        dataset_version: 1,
        fragment_bitmap: None,
        index_details: None,
        index_version: 0,
        created_at: None,
        base_id: None,
        files: None,
    }
}

fn scalar_params(json: Option<&str>) -> IndexParams {
    IndexParams {
        index_name: LANCE_SCALAR_INDEX.to_string(),
        kind: ParamsKind::Scalar(ScalarIndexParams {
            index_type: "btree".to_string(),
            params: json.map(|s| s.to_string()),
        }),
    }
}

fn vector_params() -> IndexParams {
    IndexParams {
        index_name: LANCE_VECTOR_INDEX.to_string(),
        kind: ParamsKind::Vector(IndexType::IvfPq),
    }
}

fn action(b: &CreateIndexBuilder, train: bool, ext: bool) -> Result<BuildAction, Error> {
    b.build_action(train, ext, "SHOWN")
}

#[test]
fn test_default_index_name() {
    assert_eq!(default_index_name(&["user-id"]), "user-id");
    assert_eq!(default_index_name(&["user:id"]), "user:id");
    assert_eq!(default_index_name(&["userId"]), "userId");

    assert_eq!(default_index_name(&["meta-data", "user-id"]), "meta-data.user-id");
    assert_eq!(default_index_name(&["MetaData", "userId"]), "MetaData.userId");

    assert_eq!(
        default_index_name(&["meta.data", "user.id"]),
        "`meta.data`.`user.id`"
    );

    assert_eq!(default_index_name(&[]), "");
}

#[test]
fn test_default_index_name_with_special_chars() {
    let schema = vec![field("user-id", 0, vec![]), field("user:id", 1, vec![])];
    for (i, column) in ["user-id", "user:id"].iter().enumerate() {
        let v = validate_index_columns(&schema, &names(&[column])).unwrap();
        assert_eq!(v.field_ids, vec![i as i32]);
    }
    assert_eq!(generate_index_name(&names(&["user-id"]), &vec![0], &vec![]), "user-id_idx");
    assert_eq!(generate_index_name(&names(&["user:id"]), &vec![1], &vec![]), "user:id_idx");
}

#[test]
fn test_index_name_collision_with_explicit_name() {
    let indices = vec![index(1, "b_idx", vec![0])];
    assert_eq!(generate_index_name(&names(&["b"]), &vec![1], &indices), "b_idx_2");
    let indices = vec![index(1, "b_idx", vec![0]), index(2, "b_idx_2", vec![5])];
    assert_eq!(generate_index_name(&names(&["b"]), &vec![1], &indices), "b_idx_3");
    let indices = vec![index(1, "b_idx", vec![1])];
    assert_eq!(generate_index_name(&names(&["b"]), &vec![1], &indices), "b_idx");
    assert_eq!(generate_index_name(&names(&["a", "b"]), &vec![0, 1], &vec![]), "a_b_idx");
}

#[test]
fn test_index_name_collision_explicit_errors() {
    let indices = vec![index(1, "a_idx", vec![0])];
    let b = CreateIndexBuilder::new(&["b"], IndexType::BTree, scalar_params(None))
        .name("a_idx".to_string());
    let e = b.resolve_name(&vec![1], &indices).unwrap_err();
    assert!(e.message().contains("already exists"));
    assert_eq!(
        e.message(),
        "Index name 'a_idx' already exists with different fields, please specify a different name"
    );
    let e = b.resolve_name(&vec![0], &indices).unwrap_err();
    assert_eq!(
        e.message(),
        "Index name 'a_idx' already exists, please specify a different name or use replace=True"
    );
    assert_eq!(b.replace(true).resolve_name(&vec![0], &indices).unwrap(), "a_idx");
}

#[test]
fn resolved_columns_are_validated() {
    let resolved = |path: &[&str], id: i32| Some(ResolvedColumn { path: names(path), field_id: id });
    let v = validate_resolved_columns(
        &names(&["A", "b.c"]),
        &vec![resolved(&["a"], 3), resolved(&["b", "c-d"], 9)],
    )
    .unwrap();
    assert_eq!(v.corrected_columns, names(&["a", "b.`c-d`"]));
    assert_eq!(v.field_ids, vec![3, 9]);
    assert_eq!(v.fields[1].path, names(&["b", "c-d"]));
    assert_eq!(v.fields[1].field_id, 9);
    assert_eq!(default_index_name(&["a.`b", "c"]), "`a.``b`.c");
    let e = validate_resolved_columns(&vec![], &vec![]).unwrap_err();
    assert_eq!(e.message(), "Index must have at least one column");
    let nine: Vec<String> = (0..9).map(|i| format!("c{i}")).collect();
    let e = validate_resolved_columns(&nine, &(0..9).map(|_| None).collect()).unwrap_err();
    assert_eq!(e.message(), "Compound index exceeds maximum of 8 columns (got 9)");
    let e = validate_resolved_columns(&names(&["a", "x"]), &vec![resolved(&["a"], 0), None])
        .unwrap_err();
    assert!(matches!(&e, Error::Index { .. }));
    assert_eq!(e.message(), "CreateIndex: column 'x' does not exist");
}

fn field(name: &str, id: i32, children: Vec<SchemaField>) -> SchemaField {
    SchemaField { name: name.to_string(), id, children }
}

fn people() -> Vec<SchemaField> {
    vec![
        field("Id", 0, vec![]),
        field("id", 1, vec![]),
        field("Name", 2, vec![]),
        field("NAME", 3, vec![]),
        field("user-id", 4, vec![]),
        field("a.b", 5, vec![]),
        field("tick`s", 6, vec![]),
        field(
            "Meta",
            7,
            vec![
                field("Tags", 8, vec![field("x.y", 9, vec![])]),
                field("tags", 10, vec![]),
            ],
        ),
        field("Größe", 11, vec![]),
        field("a", 12, vec![field("b", 13, vec![])]),
    ]
}

#[test]
fn columns_are_resolved_in_the_schema() {
    let resolved = |column: &str| {
        let v = validate_index_columns(&people(), &names(&[column])).unwrap();
        assert_eq!(v.fields[0].field_id, v.field_ids[0]);
        (v.field_ids[0], v.corrected_columns[0].clone())
    };
    let found = |id: i32, name: &str| (id, name.to_string());
    assert_eq!(resolved("id"), found(1, "id"));
    assert_eq!(resolved("ID"), found(0, "Id"));
    assert_eq!(resolved("name"), found(2, "Name"));
    assert_eq!(resolved("NAME"), found(3, "NAME"));
    assert_eq!(resolved("user-id"), found(4, "`user-id`"));
    assert_eq!(resolved("`USER-ID`"), found(4, "`user-id`"));
    assert_eq!(resolved("`a.b`"), found(5, "`a.b`"));
    assert_eq!(resolved("a.b"), found(13, "a.b"));
    assert_eq!(resolved("A.B"), found(13, "a.b"));
    assert_eq!(resolved("`tick``s`"), found(6, "`tick``s`"));
    assert_eq!(resolved("meta"), found(7, "Meta"));
    assert_eq!(resolved("meta.tags"), found(10, "Meta.tags"));
    assert_eq!(resolved("META.TAGS.`X.Y`"), found(9, "Meta.Tags.`x.y`"));
    assert_eq!(resolved("`Meta`.Tags"), found(8, "Meta.Tags"));
    assert_eq!(resolved("größe"), found(11, "Größe"));
    for column in ["id", "ID", "`USER-ID`", "a.b", "`a.b`", "`tick``s`", "META.TAGS.`X.Y`"] {
        let (id, corrected) = resolved(column);
        assert_eq!(resolved(&corrected), (id, corrected.clone()));
    }
    let v = validate_index_columns(&people(), &names(&["meta.tags", "name"])).unwrap();
    assert_eq!(v.field_ids, vec![10, 2]);
    assert_eq!(v.corrected_columns, names(&["Meta.tags", "Name"]));
    assert_eq!(v.fields[0].path, names(&["Meta", "tags"]));
}

#[test]
fn columns_that_are_no_field_are_refused() {
    for column in [
        "x", "", ".", "id.", ".id", "a..b", "`id", "id`", "``", "`id`x", "i`d", "meta.tags.x",
        "Meta.nothing", "tick`s", "x.y", "GRÖSSE", "grösse", "GRÖßE",
    ] {
        let e = validate_index_columns(&people(), &names(&[column])).unwrap_err();
        assert!(matches!(&e, Error::Index { .. }));
        assert_eq!(e.message(), &format!("CreateIndex: column '{column}' does not exist"));
    }
    let e = validate_index_columns(&people(), &names(&["id", "x", "y"])).unwrap_err();
    assert_eq!(e.message(), "CreateIndex: column 'x' does not exist");
    let e = validate_index_columns(&people(), &vec![]).unwrap_err();
    assert_eq!(e.message(), "Index must have at least one column");
    let nine: Vec<String> = (0..9).map(|_| "id".to_string()).collect();
    let e = validate_index_columns(&people(), &nine).unwrap_err();
    assert_eq!(e.message(), "Compound index exceeds maximum of 8 columns (got 9)");
    assert_eq!(validate_index_columns(&people(), &nine[..8].to_vec()).unwrap().field_ids, vec![1; 8]);
}

#[test]
fn test_compound_index_rejects_unsupported_types() {
    let b = CreateIndexBuilder::new(&["col1", "col2"], IndexType::Vector, vector_params());
    let e = action(&b, true, false).unwrap_err();
    assert!(e.message().contains("does not support multiple columns"));
    assert_eq!(
        e.message(),
        "Index type Vector does not support multiple columns. Use BTree or Scalar for compound indices."
    );
    let b = CreateIndexBuilder::new(&["a", "b"], IndexType::BTree, scalar_params(Some("{}")));
    assert!(matches!(
        action(&b, true, false).unwrap(),
        BuildAction::CompoundBTree { params } if params.index_type == "btree"
    ));
    let other = IndexParams { index_name: LANCE_SCALAR_INDEX.to_string(), kind: ParamsKind::Other };
    let b = CreateIndexBuilder::new(&["a", "b"], IndexType::Scalar, other);
    assert!(matches!(
        action(&b, true, false).unwrap(),
        BuildAction::CompoundBTree { params } if params.index_type == "compoundbtree"
    ));
}

#[test]
fn single_column_actions() {
    let b = CreateIndexBuilder::new(&["a"], IndexType::Bitmap, scalar_params(Some("{ \"x\" : 1 }")));
    assert!(matches!(
        action(&b, true, false).unwrap(),
        BuildAction::Builtin { json: Some(p) } if p == "{\"x\":1}"
    ));
    let b = CreateIndexBuilder::new(&["a"], IndexType::BTree, scalar_params(Some("not json")))
        .preprocessed_data();
    assert!(matches!(action(&b, true, false).unwrap(), BuildAction::Builtin { json: None }));
    let b = CreateIndexBuilder::new(&["a"], IndexType::Scalar, scalar_params(None));
    assert!(matches!(
        action(&b, true, false).unwrap(),
        BuildAction::Scalar { params } if params.index_type == "btree"
    ));
    let wrong = IndexParams { index_name: LANCE_SCALAR_INDEX.to_string(), kind: ParamsKind::Other };
    let b = CreateIndexBuilder::new(&["a"], IndexType::Scalar, wrong);
    assert_eq!(
        action(&b, true, false).unwrap_err().message(),
        "Scalar index type must take a ScalarIndexParams"
    );
    let fts = IndexParams {
        index_name: "fts".to_string(),
        kind: ParamsKind::Inverted("{\"k\":2}".to_string()),
    };
    let b = CreateIndexBuilder::new(&["a"], IndexType::Inverted, fts);
    assert!(matches!(
        action(&b, true, false).unwrap(),
        BuildAction::Scalar { params }
            if params.index_type == "inverted" && params.params.as_deref() == Some("{\"k\":2}")
    ));
    let b = CreateIndexBuilder::new(&["a"], IndexType::Inverted, vector_params());
    assert_eq!(
        action(&b, true, false).unwrap_err().message(),
        "Inverted index type must take a InvertedIndexParams"
    );
}

#[test]
fn vector_actions() {
    let b = CreateIndexBuilder::new(&["v"], IndexType::IvfPq, vector_params());
    assert!(matches!(action(&b, true, false).unwrap(), BuildAction::Vector));
    assert!(matches!(action(&b, false, false).unwrap(), BuildAction::EmptyVector));
    let b = b.fragments(vec![1]);
    assert!(matches!(action(&b, true, false).unwrap(), BuildAction::DistributedVector));
    let wrong = IndexParams { index_name: LANCE_VECTOR_INDEX.to_string(), kind: ParamsKind::Other };
    let b = CreateIndexBuilder::new(&["v"], IndexType::IvfSq, wrong);
    assert_eq!(
        action(&b, true, false).unwrap_err().message(),
        "Vector index type must take a VectorIndexParams"
    );
    let ext = IndexParams { index_name: "ext".to_string(), kind: ParamsKind::Other };
    let b = CreateIndexBuilder::new(&["v"], IndexType::Vector, ext);
    assert!(matches!(action(&b, true, true).unwrap(), BuildAction::Extension));
    assert_eq!(
        action(&b, true, false).unwrap_err().message(),
        "Index type SHOWN with name ext is not supported"
    );
    let b = CreateIndexBuilder::new(&["v"], IndexType::FragmentReuse, scalar_params(None));
    assert_eq!(
        action(&b, true, false).unwrap_err().message(),
        "Fragment reuse index can only be created through compaction"
    );
}

#[test]
fn uuids() {
    let text = "67e55044-10b1-426f-9247-bb680e5fe0c8";
    let b = CreateIndexBuilder::new(&["a"], IndexType::BTree, scalar_params(None));
    let r = b.resolve_uuid().unwrap();
    assert_eq!((r >> 76) & 0xf, 4);
    assert_eq!((r >> 62) & 0x3, 2);
    let b = b.index_uuid(text.to_string());
    assert_eq!(b.resolve_uuid().unwrap(), 0x67e55044_10b1_426f_9247_bb680e5fe0c8);
    let b = b.index_uuid("nope".to_string());
    let e = b.resolve_uuid().unwrap_err();
    assert!(e.message().starts_with("Invalid UUID string provided: "));
}

#[test]
fn plans_put_it_together() {
    let indices = vec![index(1, "b_idx", vec![0])];
    let uuid = "67e55044-10b1-426f-9247-bb680e5fe0c8".to_string();
    let mut b = CreateIndexBuilder::new(&["b"], IndexType::BTree, scalar_params(None))
        .index_uuid(uuid)
        .preprocessed_data();
    let plan = b.plan_index(&vec![1], 0, &indices, false, "BTree").unwrap();
    assert!(!plan.train);
    assert_eq!(plan.name, "b_idx_2");
    assert_eq!(plan.uuid, 0x67e55044_10b1_426f_9247_bb680e5fe0c8);
    assert!(matches!(plan.action, BuildAction::Builtin { json: None }));
    assert!(plan.preprocessed);
    assert!(!b.has_preprocessed_data);
    b.name = Some("own".to_string());
    assert_eq!(b.plan_index(&vec![1], 3, &indices, false, "BTree").unwrap().name, "own");
    assert_eq!(b.name, None);
    assert!(b.plan_index(&vec![1], 3, &indices, false, "BTree").unwrap().train);
    assert!(b.effective_train(1));
    let b = b.train(false).mem_pool_size(7);
    assert!(!b.effective_train(1));
    assert_eq!(b.mem_pool_size, Some(7));
    let b = b.transaction_properties(vec![("job".to_string(), "7".to_string())]);
    assert_eq!(b.transaction_properties.unwrap().len(), 1);
}

#[test]
fn metadata_covers_the_fragments_asked_for() {
    let all: RoaringBitmap = (0..4u32).collect();
    let b = CreateIndexBuilder::new(&["a"], IndexType::BTree, scalar_params(None))
        .fragments(vec![9, 2, 9]);
    let plan = |train, action| IndexPlan {
        train,
        name: "n".to_string(),
        uuid: 5,
        action,
        preprocessed: false,
    };
    let built = |segment_uuid| BuiltIndex {
        segment_uuid,
        index_details: IndexDetails { type_url: "/x".to_string(), value: vec![1] },
        index_version: 2,
        files: Some(vec![IndexFile { path: "f".to_string(), size_bytes: 7 }]),
    };
    let now = Timestamp { seconds: 11, nanoseconds: 12 };
    let m = b.index_metadata(
        plan(true, BuildAction::Vector),
        vec![1],
        3,
        all.clone(),
        built(Some(8)),
        now,
    );
    assert_eq!(m.fragment_bitmap.unwrap().iter().collect::<Vec<u32>>(), vec![2, 9]);
    assert_eq!((m.uuid, m.dataset_version, m.index_version), (5, 3, 2));
    assert_eq!(m.name, "n");
    assert_eq!(m.index_details.unwrap().type_url, "/x");
    assert_eq!(m.created_at.unwrap().seconds, 11);
    assert_eq!(m.files.unwrap()[0].size_bytes, 7);
    assert!(m.base_id.is_none());
    let m = b.index_metadata(
        plan(false, BuildAction::EmptyVector),
        vec![1],
        3,
        all.clone(),
        built(None),
        now,
    );
    assert!(m.fragment_bitmap.unwrap().is_empty());
    let b = CreateIndexBuilder::new(&["a"], IndexType::BTree, scalar_params(None));
    let m = b.index_metadata(
        plan(true, BuildAction::DistributedVector),
        vec![1],
        3,
        all,
        built(Some(8)),
        now,
    );
    assert_eq!(m.fragment_bitmap.unwrap().len(), 4);
    assert_eq!(m.uuid, 8);
}

#[test]
fn requests_that_are_not_served() {
    let request = || {
        CreateIndexBuilder::new(&["a"], IndexType::Bitmap, scalar_params(None)).preprocessed_data()
    };
    let mut b = request();
    assert!(b.try_plan_index(&vec![1], 3, &vec![], false, "BITMAP").is_none());
    let mut b = request().index_uuid("nope".to_string());
    let e = b.try_plan_index(&vec![1], 3, &vec![], false, "BITMAP").unwrap().unwrap_err();
    assert!(e.message().starts_with("Invalid UUID string provided: "));
    let mut b = request().name("taken".to_string());
    let indices = vec![index(1, "taken", vec![9])];
    let e = b.try_plan_index(&vec![1], 3, &indices, false, "BITMAP").unwrap().unwrap_err();
    assert!(e.message().contains("already exists"));
    assert_eq!(b.name, None);
    assert!(b.has_preprocessed_data);
    let mut b = CreateIndexBuilder::new(&["a"], IndexType::BTree, scalar_params(None));
    let plan = b.try_plan_index(&vec![1], 3, &vec![], false, "BTREE").unwrap().unwrap();
    assert_eq!(plan.name, "a_idx");
}

#[test]
fn a_replacement_leaves_one_index_of_the_name() {
    let indices = vec![index(1, "x", vec![0]), index(2, "y", vec![1]), index(3, "x", vec![0])];
    let b = CreateIndexBuilder::new(&["v"], IndexType::BTree, scalar_params(None))
        .replace(true)
        .transaction_properties(vec![("job".to_string(), "7".to_string())]);
    let removed = b.removed_indices("x", &indices);
    let t = b.transaction(4, vec![index(9, "x", vec![0])], removed);
    assert_eq!(t.read_version, 4);
    assert_eq!(t.transaction_properties, Some(vec![("job".to_string(), "7".to_string())]));
    let mut after: Vec<IndexMetadata> = indices
        .into_iter()
        .enumerate()
        .filter(|(i, _)| !t.removed_indices.contains(i))
        .map(|(_, index)| index)
        .collect();
    after.extend(t.new_indices);
    assert_eq!(after.iter().map(|i| i.uuid).collect::<Vec<_>>(), vec![2, 9]);
    assert_eq!(find_committed(&after, 9).unwrap(), 1);
}

#[test]
fn committing() {
    let indices = vec![index(1, "x", vec![0]), index(2, "y", vec![1]), index(3, "x", vec![0])];
    let b = CreateIndexBuilder::new(&["v"], IndexType::IvfPq, vector_params());
    assert_eq!(b.removed_indices("x", &indices), Vec::<usize>::new());
    assert_eq!(b.commit_path("x", &vec![4]).unwrap(), CommitPath::Direct);
    assert_eq!(
        b.commit_path(LANCE_VECTOR_INDEX, &vec![4]).unwrap(),
        CommitPath::Segments { field_id: 4, index_type: IndexType::IvfPq }
    );
    let e = b.commit_path(LANCE_VECTOR_INDEX, &vec![]).unwrap_err();
    assert!(matches!(&e, Error::Internal { .. }));
    let b = b.replace(true);
    assert_eq!(b.removed_indices("x", &indices), vec![0, 2]);
    assert!(uses_segment_commit_path(IndexType::Vector, LANCE_VECTOR_INDEX, &vector_params()));
    assert!(!uses_segment_commit_path(IndexType::BTree, LANCE_VECTOR_INDEX, &vector_params()));
    assert!(!uses_segment_commit_path(IndexType::Vector, "x", &vector_params()));
    assert!(!uses_segment_commit_path(
        IndexType::Vector,
        LANCE_VECTOR_INDEX,
        &scalar_params(None)
    ));
    assert_eq!(find_committed(&indices, 3).unwrap(), 2);
    let e = find_committed(&indices, 4).unwrap_err();
    assert_eq!(
        e.message(),
        "Index with UUID 00000000-0000-0000-0000-000000000004 not found after commit"
    );
}

#[test]
fn test_index_segment_builder_rejects_duplicate_segment_uuids() {
    let segment = || index(0x11, "text_idx", vec![0]);
    let err = IndexSegmentBuilder::new()
        .with_index_type(IndexType::Inverted)
        .with_segments(vec![segment(), segment()])
        .plan("Inverted")
        .unwrap_err();
    assert!(err.message().contains("duplicate segment uuid"));
    assert_eq!(
        err.message(),
        "IndexSegmentBuilder received duplicate segment uuid 00000000-0000-0000-0000-000000000011"
    );
}

#[test]
fn test_index_segment_builder_requires_explicit_index_type() {
    let err = IndexSegmentBuilder::new()
        .with_segments(vec![index(1, "text_idx", vec![0])])
        .plan("")
        .unwrap_err();
    assert!(err.message().contains("requires an explicit index type"));
}

#[test]
fn test_index_segment_builder_requires_requested_index_type() {
    let err = IndexSegmentBuilder::build(None, "").unwrap_err();
    assert!(err.message().contains("declare an index type"));
    assert!(matches!(err, Error::InvalidInput { .. }));
}

#[test]
fn segment_families() {
    let b = || IndexSegmentBuilder::new().with_segments(vec![index(1, "t", vec![0]), index(2, "t", vec![0])]);
    assert_eq!(b().with_index_type(IndexType::Inverted).plan("").unwrap(), SegmentFamily::Inverted);
    assert_eq!(b().with_index_type(IndexType::IvfRq).plan("").unwrap(), SegmentFamily::Vector);
    let e = b().with_index_type(IndexType::BTree).plan("BTREE").unwrap_err();
    assert_eq!(
        e.message(),
        "IndexSegmentBuilder does not support planning segments for index type BTREE"
    );
    let e = IndexSegmentBuilder::new().with_target_segment_bytes(1).plan("").unwrap_err();
    assert!(e.message().contains("requires at least one segment"));
    assert_eq!(
        IndexSegmentBuilder::build(Some(IndexType::Vector), "").unwrap(),
        SegmentFamily::Vector
    );
    let e = IndexSegmentBuilder::build(Some(IndexType::BTree), "BTREE").unwrap_err();
    assert_eq!(
        e.message(),
        "IndexSegmentBuilder does not support building segments for index type BTREE"
    );
}
