//! The fields of a dataset, and the paths by which columns name them.
use std::collections::HashMap;

use vstd::prelude::*;

use lance_core::datatypes::{
    format_field_path, Field as LanceField, LogicalType, Schema as LanceSchema,
};

verus! {

/// A field of a dataset and the fields inside it.
#[derive(Debug)]
pub struct SchemaField {
    pub name: String,
    pub id: i32,
    pub children: Vec<SchemaField>,
}

/// A column found in the schema: the names on the path to its field, and the
/// field's id.
#[derive(Debug)]
pub struct ResolvedColumn {
    pub path: Vec<String>,
    pub field_id: i32,
}

/// The view of a column found in the schema.
#[verifier::ext_equal]
pub struct ResolvedView {
    pub path: Seq<Seq<char>>,
    pub field_id: i32,
}

impl View for ResolvedColumn {
    type V = ResolvedView;

    open spec fn view(&self) -> ResolvedView {
        ResolvedView { path: crate::text::texts(self.path@), field_id: self.field_id }
    }
}

/// The views of what columns were found to be.
pub open spec fn found_views(found: Seq<Option<ResolvedColumn>>) -> Seq<Option<ResolvedView>> {
    Seq::new(found.len(), |i: int| found_view(found[i]))
}

/// The view of what a column was found to be.
pub open spec fn found_view(found: Option<ResolvedColumn>) -> Option<ResolvedView> {
    match found {
        Some(c) => Some(c@),
        None => None,
    }
}

/// A path of field names as one text.
pub uninterp spec fn field_path(names: Seq<Seq<char>>) -> Seq<char>;

/// Characters of one byte only.
pub open spec fn is_ascii(s: Seq<char>) -> bool {
    forall|i: int| 0 <= i < s.len() ==> (#[trigger] s[i]) as int <= 0x7f
}

/// Letters, digits and underscores of one byte only.
pub open spec fn is_identifier(s: Seq<char>) -> bool {
    forall|i: int|
        0 <= i < s.len() ==> {
            let c = #[trigger] s[i];
            'a' <= c <= 'z' || 'A' <= c <= 'Z' || '0' <= c <= '9' || c == '_'
        }
}

/// The text with every backtick doubled.
pub open spec fn doubled_backticks(s: Seq<char>) -> Seq<char>
    decreases s.len(),
{
    if s.len() == 0 {
        Seq::empty()
    } else if s.last() == '`' {
        doubled_backticks(s.drop_last()).push('`').push('`')
    } else {
        doubled_backticks(s.drop_last()).push(s.last())
    }
}

/// A name as a path has it: in backticks, unless it is an identifier.
pub open spec fn quoted(s: Seq<char>) -> Seq<char> {
    if is_identifier(s) {
        s
    } else {
        seq!['`'] + doubled_backticks(s) + seq!['`']
    }
}

/// The names with dots between them, quoted where they need it.
pub open spec fn quoted_path(names: Seq<Seq<char>>) -> Seq<char> {
    crate::text::joined(Seq::new(names.len(), |i: int| quoted(names[i])), "."@)
}

pub open spec fn all_ascii(names: Seq<Seq<char>>) -> bool {
    forall|i: int| 0 <= i < names.len() ==> is_ascii(#[trigger] names[i])
}

/// `lance_core::datatypes::format_field_path`: the names joined by dots, those
/// with other characters than letters, digits and underscores quoted. Which
/// characters beyond ASCII are letters or digits is not said here.
#[verifier::external_body]
pub(crate) fn formatted_path(names: &[&str]) -> (r: String)
    ensures
        r@ == field_path(crate::text::slices(names@)),
        all_ascii(crate::text::slices(names@)) ==> r@ == quoted_path(
            crate::text::slices(names@),
        ),
{
    format_field_path(names)
}

/// One name of a column's path as the column writes it, in backticks or not.
pub struct Segment {
    pub name: Seq<char>,
    pub quoted: bool,
}

/// A segment is not empty; dots and backticks stand in quoted ones only.
pub open spec fn valid_segment(s: Segment) -> bool {
    s.name.len() > 0 && (!s.quoted ==> !s.name.contains('.') && !s.name.contains('`'))
}

/// The text of a segment. Backticks in a quoted one are doubled.
pub open spec fn written(s: Segment) -> Seq<char> {
    if s.quoted {
        seq!['`'] + doubled_backticks(s.name) + seq!['`']
    } else {
        s.name
    }
}

pub open spec fn all_written(path: Seq<Segment>) -> Seq<Seq<char>> {
    Seq::new(path.len(), |i: int| written(path[i]))
}

/// A column is written as this path: its segments with dots between them.
pub open spec fn spells(path: Seq<Segment>, column: Seq<char>) -> bool {
    &&& path.len() > 0
    &&& forall|i: int| 0 <= i < path.len() ==> valid_segment(#[trigger] path[i])
    &&& column == crate::text::joined(all_written(path), "."@)
}

/// The names on a path.
pub open spec fn segment_names(path: Seq<Segment>) -> Seq<Seq<char>> {
    Seq::new(path.len(), |i: int| path[i].name)
}

/// The small letter for a capital one of `A` to `Z`; others stay.
pub open spec fn small_letter(c: char) -> char {
    if 'A' <= c <= 'Z' {
        (c as int + 32) as char
    } else {
        c
    }
}

/// Two names differ at most in the case of the letters `A` to `Z`.
pub open spec fn same_in_any_case(a: Seq<char>, b: Seq<char>) -> bool {
    a.len() == b.len() && forall|i: int|
        0 <= i < a.len() ==> small_letter(#[trigger] a[i]) == small_letter(b[i])
}

pub open spec fn has_name(fields: Seq<SchemaField>, name: Seq<char>) -> spec_fn(int) -> bool {
    |i: int| fields[i].name@ == name
}

pub open spec fn has_name_in_any_case(
    fields: Seq<SchemaField>,
    name: Seq<char>,
) -> spec_fn(int) -> bool {
    |i: int| same_in_any_case(fields[i].name@, name)
}

/// Where the field with a name is: the first with exactly that name, else the
/// first that has it in another case.
pub open spec fn field_position(fields: Seq<SchemaField>, name: Seq<char>) -> Option<int> {
    match crate::first::first_where(fields.len(), has_name(fields, name)) {
        Some(i) => Some(i),
        None => crate::first::first_where(fields.len(), has_name_in_any_case(fields, name)),
    }
}

/// The field at the end of a path of names, each inside the one before. The
/// names found are those of the fields.
pub open spec fn field_at(fields: Seq<SchemaField>, names: Seq<Seq<char>>) -> Option<ResolvedView>
    decreases names.len(),
{
    if names.len() == 0 {
        None
    } else {
        match field_position(fields, names[0]) {
            None => None,
            Some(i) => if names.len() == 1 {
                Some(ResolvedView { path: seq![fields[i].name@], field_id: fields[i].id })
            } else {
                match field_at(fields[i].children@, names.drop_first()) {
                    None => None,
                    Some(inner) => Some(
                        ResolvedView {
                            path: seq![fields[i].name@] + inner.path,
                            field_id: inner.field_id,
                        },
                    ),
                }
            },
        }
    }
}

/// What a column is in the schema: the field at the path that it is written as,
/// if it is one.
pub open spec fn resolution(fields: Seq<SchemaField>, column: Seq<char>) -> Option<ResolvedView> {
    if exists|path: Seq<Segment>| spells(path, column) {
        field_at(fields, segment_names(choose|path: Seq<Segment>| spells(path, column)))
    } else {
        None
    }
}

pub open spec fn resolutions(fields: Seq<SchemaField>, columns: Seq<Seq<char>>) -> Seq<
    Option<ResolvedView>,
> {
    Seq::new(columns.len(), |i: int| resolution(fields, columns[i]))
}

/// The field of `lance_core`.
#[verifier::external_type_specification]
#[verifier::external_body]
pub struct ExLanceField(LanceField);

/// The field as a `lance_core::datatypes::Field` with the same name, id and
/// children. Nothing else of it is read where columns are resolved.
#[verifier::external_body]
fn lance_field(field: &SchemaField) -> LanceField {
    LanceField {
        name: field.name.clone(),
        id: field.id,
        parent_id: -1,
        logical_type: LogicalType::from("struct"),
        metadata: HashMap::new(),
        encoding: None,
        nullable: true,
        children: field.children.iter().map(lance_field).collect(),
        dictionary: None,
        unenforced_primary_key_position: None,
    }
}

/// `lance_core::datatypes::Schema::resolve_case_insensitive`: the column is read
/// as a path of names with dots between them, which may stand in backticks. On
/// each level the first field with exactly the name is taken, else the first
/// with the name in another case.
#[verifier::external_body]
pub(crate) fn resolved_column(fields: &Vec<SchemaField>, column: &str) -> (r: Option<
    ResolvedColumn,
>)
    ensures
        found_view(r) == resolution(fields@, column@),
{
    let fields = fields.iter().map(lance_field).collect();
    let schema = LanceSchema { fields, metadata: HashMap::new() };
    let found = schema.resolve_case_insensitive(column)?;
    let path = found.iter().map(|f| f.name.clone()).collect();
    found.last().map(|f| ResolvedColumn { path, field_id: f.id })
}

/// The first part stands before the others.
proof fn joined_from_front(parts: Seq<Seq<char>>, sep: Seq<char>)
    requires
        parts.len() > 1,
    ensures
        crate::text::joined(parts, sep) == parts[0] + sep + crate::text::joined(
            parts.drop_first(),
            sep,
        ),
    decreases parts.len(),
{
    let rest = parts.drop_first();
    let before = crate::text::joined(parts.drop_last(), sep);
    assert(crate::text::joined(parts, sep) == before + sep + parts.last());
    if parts.len() == 2 {
        assert(before == parts[0]);
        assert(crate::text::joined(rest, sep) == parts.last());
    } else {
        joined_from_front(parts.drop_last(), sep);
        assert(parts.drop_last().drop_first() =~= rest.drop_last());
        assert(crate::text::joined(rest, sep) == crate::text::joined(rest.drop_last(), sep) + sep
            + parts.last());
    }
    assert(crate::text::joined(parts, sep) =~= parts[0] + sep + crate::text::joined(rest, sep));
}

/// The first character is doubled, or not, before the others.
proof fn doubled_from_front(s: Seq<char>)
    requires
        s.len() > 0,
    ensures
        doubled_backticks(s) == (if s[0] == '`' {
            seq!['`', '`']
        } else {
            seq![s[0]]
        }) + doubled_backticks(s.drop_first()),
    decreases s.len(),
{
    let rest = s.drop_first();
    let head = if s[0] == '`' {
        seq!['`', '`']
    } else {
        seq![s[0]]
    };
    if s.len() == 1 {
        assert(s.drop_last() =~= Seq::<char>::empty());
        assert(rest =~= Seq::<char>::empty());
        assert(doubled_backticks(s.drop_last()) =~= Seq::<char>::empty());
    } else {
        doubled_from_front(s.drop_last());
        assert(s.drop_last().drop_first() =~= rest.drop_last());
    }
    assert(doubled_backticks(s) =~= head + doubled_backticks(rest));
}

/// What may follow a segment: nothing, or a dot.
spec fn ends_segment(tail: Seq<char>) -> bool {
    tail.len() == 0 || tail[0] == '.'
}

/// A quoted name ends at the first backtick that is not doubled.
proof fn quoted_name_ends(a: Seq<char>, x: Seq<char>, b: Seq<char>, y: Seq<char>)
    requires
        ends_segment(x),
        ends_segment(y),
        doubled_backticks(a) + seq!['`'] + x == doubled_backticks(b) + seq!['`'] + y,
    ensures
        a == b,
        x == y,
    decreases a.len() + b.len(),
{
    let t = doubled_backticks(a) + seq!['`'] + x;
    let u = doubled_backticks(b) + seq!['`'] + y;
    if a.len() > 0 {
        doubled_from_front(a);
    }
    if b.len() > 0 {
        doubled_from_front(b);
    }
    if a.len() == 0 && b.len() == 0 {
        assert(a =~= b);
        assert(t.skip(1) =~= x);
        assert(u.skip(1) =~= y);
    } else if a.len() == 0 {
        assert(t[0] == '`');
        assert(u[0] == b[0]);
        assert(u[1] == '`');
        assert(t[1] == x[0]);
    } else if b.len() == 0 {
        assert(u[0] == '`');
        assert(t[0] == a[0]);
        assert(t[1] == '`');
        assert(u[1] == y[0]);
    } else {
        assert(t[0] == a[0]);
        assert(u[0] == b[0]);
        let k = if a[0] == '`' {
            2int
        } else {
            1int
        };
        assert(t.skip(k) =~= doubled_backticks(a.drop_first()) + seq!['`'] + x);
        assert(u.skip(k) =~= doubled_backticks(b.drop_first()) + seq!['`'] + y);
        quoted_name_ends(a.drop_first(), x, b.drop_first(), y);
        assert(a =~= seq![a[0]] + a.drop_first());
        assert(b =~= seq![b[0]] + b.drop_first());
    }
}

/// A text starts with at most one segment.
proof fn first_segment_is_one(a: Segment, x: Seq<char>, b: Segment, y: Seq<char>)
    requires
        valid_segment(a),
        valid_segment(b),
        ends_segment(x),
        ends_segment(y),
        written(a) + x == written(b) + y,
    ensures
        a.name == b.name,
        x == y,
{
    let t = written(a) + x;
    let u = written(b) + y;
    if a.quoted && b.quoted {
        assert(t.skip(1) =~= doubled_backticks(a.name) + seq!['`'] + x);
        assert(u.skip(1) =~= doubled_backticks(b.name) + seq!['`'] + y);
        quoted_name_ends(a.name, x, b.name, y);
    } else if a.quoted {
        assert(t[0] == '`');
        assert(u[0] == b.name[0]);
    } else if b.quoted {
        assert(u[0] == '`');
        assert(t[0] == a.name[0]);
    } else {
        let n = a.name.len() as int;
        let m = b.name.len() as int;
        if n < m {
            assert(u[n] == b.name[n]);
            assert(t[n] == x[0]);
        } else if m < n {
            assert(t[m] == a.name[m]);
            assert(u[m] == y[0]);
        }
        assert(t.take(n) =~= a.name);
        assert(u.take(m) =~= b.name);
        assert(t.skip(n) =~= x);
        assert(u.skip(m) =~= y);
    }
}

/// What stands behind the first segment of a path.
spec fn behind_first(path: Seq<Segment>) -> Seq<char> {
    if path.len() == 1 {
        Seq::empty()
    } else {
        "."@ + crate::text::joined(all_written(path.drop_first()), "."@)
    }
}

proof fn splits_at_first(path: Seq<Segment>, column: Seq<char>)
    requires
        spells(path, column),
    ensures
        column == written(path[0]) + behind_first(path),
        ends_segment(behind_first(path)),
        path.len() > 1 ==> spells(path.drop_first(), behind_first(path).skip(1)),
{
    reveal_strlit(".");
    let rest = path.drop_first();
    if path.len() == 1 {
        assert(column =~= written(path[0]) + behind_first(path));
    } else {
        joined_from_front(all_written(path), "."@);
        assert(all_written(path).drop_first() =~= all_written(rest));
        assert(column =~= written(path[0]) + behind_first(path));
        assert(behind_first(path).skip(1) =~= crate::text::joined(all_written(rest), "."@));
    }
}

/// A column is read as one path of names only.
pub proof fn reading_is_unique(a: Seq<Segment>, b: Seq<Segment>, column: Seq<char>)
    requires
        spells(a, column),
        spells(b, column),
    ensures
        segment_names(a) == segment_names(b),
    decreases a.len(),
{
    splits_at_first(a, column);
    splits_at_first(b, column);
    first_segment_is_one(a[0], behind_first(a), b[0], behind_first(b));
    reveal_strlit(".");
    if a.len() > 1 && b.len() > 1 {
        reading_is_unique(a.drop_first(), b.drop_first(), behind_first(a).skip(1));
        let x = segment_names(a.drop_first());
        let y = segment_names(b.drop_first());
        assert(segment_names(a) =~= seq![a[0].name] + x);
        assert(segment_names(b) =~= seq![b[0].name] + y);
    } else {
        assert(a.len() == 1 && b.len() == 1);
        assert(segment_names(a) =~= segment_names(b));
    }
}

/// A column that is written as a path resolves to the field at that path.
pub proof fn path_resolves(fields: Seq<SchemaField>, path: Seq<Segment>, column: Seq<char>)
    requires
        spells(path, column),
    ensures
        resolution(fields, column) == field_at(fields, segment_names(path)),
{
    reading_is_unique(path, choose|p: Seq<Segment>| spells(p, column), column);
}

/// A column without dots and backticks is the first field of the dataset with
/// exactly its name, else the first with the name in another case.
pub proof fn plain_column_resolves(fields: Seq<SchemaField>, column: Seq<char>)
    requires
        column.len() > 0,
        !column.contains('.'),
        !column.contains('`'),
    ensures
        resolution(fields, column) == (match field_position(fields, column) {
            Some(i) => Some(
                ResolvedView { path: seq![fields[i].name@], field_id: fields[i].id },
            ),
            None => None,
        }),
{
    let path = seq![Segment { name: column, quoted: false }];
    assert(all_written(path)[0] == column);
    assert(spells(path, column));
    path_resolves(fields, path, column);
    assert(segment_names(path)[0] == column);
}

/// The formatted form of a path is written as the path.
proof fn quoted_path_spells(names: Seq<Seq<char>>) -> (path: Seq<Segment>)
    requires
        names.len() > 0,
        forall|i: int| 0 <= i < names.len() ==> (#[trigger] names[i]).len() > 0,
    ensures
        spells(path, quoted_path(names)),
        segment_names(path) == names,
{
    let path = Seq::new(
        names.len(),
        |i: int| Segment { name: names[i], quoted: !is_identifier(names[i]) },
    );
    assert forall|i: int| 0 <= i < path.len() implies valid_segment(#[trigger] path[i]) by {
        assert(names[i].len() > 0);
    }
    assert(all_written(path) =~= Seq::new(names.len(), |i: int| quoted(names[i])));
    assert(segment_names(path) =~= names);
    path
}

/// The names found on a path lead to the same field again.
proof fn names_found_lead_back(fields: Seq<SchemaField>, names: Seq<Seq<char>>)
    requires
        field_at(fields, names) is Some,
        forall|i: int| 0 <= i < names.len() ==> (#[trigger] names[i]).len() > 0,
    ensures
        ({
            let found = field_at(fields, names)->0;
            &&& field_at(fields, found.path) == Some(found)
            &&& found.path.len() == names.len()
            &&& forall|i: int| 0 <= i < found.path.len() ==> (#[trigger] found.path[i]).len() > 0
        }),
    decreases names.len(),
{
    let found = field_at(fields, names)->0;
    let i = field_position(fields, names[0])->0;
    let exact = has_name(fields, names[0]);
    let loose = has_name_in_any_case(fields, names[0]);
    crate::first::first_where_spec(fields.len(), exact);
    crate::first::first_where_spec(fields.len(), loose);
    let name = fields[i].name@;
    assert(names[0].len() > 0);
    assert(name.len() > 0);
    let again = has_name(fields, name);
    assert(again(i));
    assert forall|j: int| 0 <= j < i implies !(#[trigger] again(j)) by {
        if again(j) {
            if crate::first::first_where(fields.len(), exact) is Some {
                assert(exact(j));
            } else {
                assert(loose(i));
                assert(loose(j));
            }
        }
    }
    crate::first::first_where_found(fields.len(), again, i);
    assert(found.path[0] == name);
    if names.len() > 1 {
        let rest = names.drop_first();
        assert forall|k: int| 0 <= k < rest.len() implies (#[trigger] rest[k]).len() > 0 by {
            assert(rest[k] == names[k + 1]);
        }
        names_found_lead_back(fields[i].children@, rest);
        let inner = field_at(fields[i].children@, rest)->0;
        assert(found.path.drop_first() =~= inner.path);
        assert forall|k: int| 0 <= k < found.path.len() implies (#[trigger] found.path[k]).len()
            > 0 by {
            if k > 0 {
                assert(found.path[k] == inner.path[k - 1]);
            }
        }
    } else {
        assert(found.path =~= seq![name]);
    }
}

/// The corrected name of a column, its path as the schema writes it, resolves to
/// the same field and is its own correction.
pub proof fn corrected_column_resolves(fields: Seq<SchemaField>, column: Seq<char>)
    requires
        resolution(fields, column) is Some,
    ensures
        ({
            let found = resolution(fields, column)->0;
            resolution(fields, quoted_path(found.path)) == Some(found)
        }),
{
    let path = choose|path: Seq<Segment>| spells(path, column);
    let names = segment_names(path);
    assert forall|i: int| 0 <= i < names.len() implies (#[trigger] names[i]).len() > 0 by {
        assert(valid_segment(path[i]));
    }
    names_found_lead_back(fields, names);
    let found = field_at(fields, names)->0;
    let corrected = quoted_path_spells(found.path);
    path_resolves(fields, corrected, quoted_path(found.path));
}

/// A name is that of the first field that has it exactly. Only where none does,
/// it is that of the first field that has it in another case, letter by letter.
pub proof fn name_finds_its_field(fields: Seq<SchemaField>, name: Seq<char>, i: int)
    requires
        0 <= i < fields.len(),
    ensures
        fields[i].name@ == name && (forall|j: int|
            0 <= j < i ==> (#[trigger] fields[j]).name@ != name) ==> field_position(fields, name)
            == Some(i),
        (forall|j: int| 0 <= j < fields.len() ==> (#[trigger] fields[j]).name@ != name)
            && same_letters(fields[i].name@, name) && (forall|j: int|
            0 <= j < i ==> !same_letters((#[trigger] fields[j]).name@, name)) ==> field_position(
            fields,
            name,
        ) == Some(i),
        field_position(fields, name) is None ==> !same_letters(fields[i].name@, name),
{
    let p = has_name(fields, name);
    let q = has_name_in_any_case(fields, name);
    crate::first::first_where_spec(fields.len(), p);
    crate::first::first_where_spec(fields.len(), q);
    assert forall|j: int| 0 <= j < fields.len() implies ((#[trigger] fields[j]).name@ == name
        <==> p(j)) by {}
    assert forall|j: int| 0 <= j < fields.len() implies (same_letters(
        (#[trigger] fields[j]).name@,
        name,
    ) <==> q(j)) by {}
    if fields[i].name@ == name && (forall|j: int|
        0 <= j < i ==> (#[trigger] fields[j]).name@ != name) {
        assert(p(i));
        crate::first::first_where_found(fields.len(), p, i);
    }
    if same_letters(fields[i].name@, name) && (forall|j: int|
        0 <= j < i ==> !same_letters((#[trigger] fields[j]).name@, name)) {
        assert(q(i));
        crate::first::first_where_found(fields.len(), q, i);
    }
    if same_letters(fields[i].name@, name) {
        assert(q(i));
    }
}

/// Two names have the same letters: character by character the same, or a
/// capital letter of the alphabet and its small one.
pub open spec fn same_letters(a: Seq<char>, b: Seq<char>) -> bool {
    a.len() == b.len() && forall|k: int|
        0 <= k < a.len() ==> one_letter(#[trigger] a[k], b[k])
}

/// Two characters are the same or a capital letter and its small one.
pub open spec fn one_letter(a: char, b: char) -> bool {
    ||| a == b
    ||| 'A' <= a <= 'Z' && b as int == a as int + 32
    ||| 'A' <= b <= 'Z' && a as int == b as int + 32
}

/// What a path finds has the names of the fields on the way and the id of the
/// last of them: for one name the field itself, for more what the rest finds
/// among its children.
pub proof fn path_finds_fields(fields: Seq<SchemaField>, names: Seq<Seq<char>>)
    requires
        names.len() > 0,
    ensures
        match (field_at(fields, names), field_position(fields, names[0])) {
            (Some(found), Some(i)) => {
                &&& found.path.len() == names.len()
                &&& found.path[0] == fields[i].name@
                &&& names.len() == 1 ==> found.field_id == fields[i].id
                &&& names.len() > 1 ==> match field_at(fields[i].children@, names.drop_first()) {
                    Some(inner) => found.field_id == inner.field_id && found.path.drop_first()
                        == inner.path,
                    None => false,
                }
            },
            (Some(_), None) => false,
            (None, Some(i)) => names.len() > 1 && field_at(
                fields[i].children@,
                names.drop_first(),
            ) is None,
            (None, None) => true,
        },
    decreases names.len(),
{
    if let Some(i) = field_position(fields, names[0]) {
        if names.len() > 1 {
            path_finds_fields(fields[i].children@, names.drop_first());
            if let Some(inner) = field_at(fields[i].children@, names.drop_first()) {
                let found = field_at(fields, names)->0;
                assert(found.path.drop_first() =~= inner.path);
            }
        }
    }
}

/// What columns were found to be, in a contract, is what was found, in order.
pub proof fn found_columns_show_themselves(found: Seq<Option<ResolvedColumn>>, i: int)
    requires
        0 <= i < found.len(),
    ensures
        found_views(found).len() == found.len(),
        match (found[i], found_views(found)[i]) {
            (Some(c), Some(v)) => v.field_id == c.field_id && v.path == crate::text::texts(c.path@),
            (None, None) => true,
            _ => false,
        },
{
}

/// Each column is looked up in the schema by itself.
pub proof fn columns_resolve_one_by_one(
    fields: Seq<SchemaField>,
    columns: Seq<Seq<char>>,
    i: int,
)
    ensures
        resolutions(fields, columns).len() == columns.len(),
        0 <= i < columns.len() ==> resolutions(fields, columns)[i] == resolution(
            fields,
            columns[i],
        ),
{
}

} // verus!
