//! Recognising predicates that a compound index can answer.
use vstd::prelude::*;

use crate::compound::{clone_bound, Bound, CompoundSargableQuery, QueryView};
use crate::datatype::{DataType, DataTypeOf, DataTypeView};
use crate::scalar::{ScalarKey, ScalarValue, ScalarView};
use crate::text::same_text;

verus! {

/// A binary operator between a column and a value.
#[derive(Debug, Clone, Copy, PartialEq, Eq, Structural)]
pub enum Operator {
    Eq,
    NotEq,
    Lt,
    LtEq,
    Gt,
    GtEq,
    /// Any operator that is no comparison.
    Other,
}

/// A query on an index that stands for a predicate on a column.
#[derive(Debug)]
pub struct IndexedExpression {
    pub column: String,
    pub index_name: String,
    pub query: CompoundSargableQuery,
}

#[verifier::ext_equal]
pub struct ExpressionView {
    pub column: Seq<char>,
    pub index_name: Seq<char>,
    pub query: QueryView,
}

impl View for IndexedExpression {
    type V = ExpressionView;

    open spec fn view(&self) -> ExpressionView {
        ExpressionView {
            column: self.column@,
            index_name: self.index_name@,
            query: self.query@,
        }
    }
}

pub open spec fn opt_expression(e: Option<IndexedExpression>) -> Option<ExpressionView> {
    match e {
        Some(x) => Some(x@),
        None => None,
    }
}

impl IndexedExpression {
    pub fn index_query(column: String, index_name: String, query: CompoundSargableQuery) -> (r:
        IndexedExpression)
        ensures
            r@ == (ExpressionView { column: column@, index_name: index_name@, query: query@ }),
    {
        IndexedExpression { column, index_name, query }
    }
}

/// Equality with a leading value.
pub open spec fn equality(v: ScalarView) -> QueryView {
    QueryView::PrefixLookup { prefix: seq![v], range: None }
}

/// Equality with null: the first column of a row is null.
pub open spec fn null_check() -> QueryView {
    equality(ScalarView { data_type: DataTypeOf::Null, key: None })
}

/// A range on the first column.
pub open spec fn first_column_range(
    lower: Bound<ScalarView>,
    upper: Bound<ScalarView>,
) -> QueryView {
    QueryView::PrefixLookup { prefix: Seq::empty(), range: Some((lower, upper)) }
}

/// The query for a comparison of the first column with a value. The caller
/// negates the one for inequality.
pub open spec fn comparison_query(v: ScalarView, op: Operator) -> Option<QueryView> {
    match op {
        Operator::Eq | Operator::NotEq => Some(equality(v)),
        Operator::Lt => Some(first_column_range(Bound::Unbounded, Bound::Excluded(v))),
        Operator::LtEq => Some(first_column_range(Bound::Unbounded, Bound::Included(v))),
        Operator::Gt => Some(first_column_range(Bound::Excluded(v), Bound::Unbounded)),
        Operator::GtEq => Some(first_column_range(Bound::Included(v), Bound::Unbounded)),
        Operator::Other => None,
    }
}

/// Parser for compound index queries. Predicates on single columns are
/// answered for the first column only: the leftmost prefix rule.
#[derive(Debug)]
pub struct CompoundQueryParser {
    index_name: String,
    columns: Vec<String>,
    data_types: Vec<DataType>,
}

#[verifier::ext_equal]
pub struct ParserView {
    pub index_name: Seq<char>,
    pub columns: Seq<Seq<char>>,
    pub data_types: Seq<DataTypeView>,
}

/// The property of being a given name.
pub open spec fn name_is(columns: Seq<Seq<char>>, col: Seq<char>) -> spec_fn(int) -> bool {
    |i: int| columns[i] == col
}

impl ParserView {
    /// `col` is the first column of the index.
    pub open spec fn is_first(self, col: Seq<char>) -> bool {
        self.columns.len() > 0 && self.columns[0] == col
    }

    /// The first position of a column.
    pub open spec fn position(self, col: Seq<char>) -> Option<int> {
        crate::first::first_where(self.columns.len(), name_is(self.columns, col))
    }

    /// The expression for a query, if the column is the first of the index.
    pub open spec fn on_first(self, col: Seq<char>, query: Option<QueryView>) -> Option<
        ExpressionView,
    > {
        match query {
            Some(q) => if self.is_first(col) {
                Some(ExpressionView { column: col, index_name: self.index_name, query: q })
            } else {
                None
            },
            None => None,
        }
    }
}

impl View for CompoundQueryParser {
    type V = ParserView;

    closed spec fn view(&self) -> ParserView {
        ParserView {
            index_name: self.index_name@,
            columns: crate::text::texts(self.columns@),
            data_types: crate::datatype::types(self.data_types@),
        }
    }
}

fn single(v: ScalarValue) -> (r: Vec<ScalarValue>)
    ensures
        crate::scalar::scalars(r@) == seq![v@],
{
    let mut out: Vec<ScalarValue> = Vec::new();
    out.push(v);
    assert(crate::scalar::scalars(out@) =~= seq![v@]);
    out
}

impl CompoundQueryParser {
    pub fn new(index_name: String, columns: Vec<String>, data_types: Vec<DataType>) -> (r:
        CompoundQueryParser)
        ensures
            r@ == (ParserView {
                index_name: index_name@,
                columns: crate::text::texts(columns@),
                data_types: crate::datatype::types(data_types@),
            }),
    {
        CompoundQueryParser { index_name, columns, data_types }
    }

    /// The column names in this index.
    pub fn columns(&self) -> (r: &Vec<String>)
        ensures
            crate::text::texts(r@) == self@.columns,
    {
        &self.columns
    }

    /// The types of the indexed columns.
    pub fn data_types(&self) -> (r: &Vec<DataType>)
        ensures
            crate::datatype::types(r@) == self@.data_types,
    {
        &self.data_types
    }

    /// The index name.
    pub fn index_name(&self) -> (r: &str)
        ensures
            r@ == self@.index_name,
    {
        self.index_name.as_str()
    }

    /// Whether a column is the first column in this index.
    pub fn is_first_column(&self, col: &str) -> (r: bool)
        ensures
            r == self@.is_first(col@),
    {
        self.columns.len() > 0 && same_text(self.columns[0].as_str(), col)
    }

    /// Whether a column is part of this index.
    pub fn contains_column(&self, col: &str) -> (r: bool)
        ensures
            r == self@.columns.contains(col@),
    {
        match self.column_position(col) {
            Some(i) => {
                proof {
                    crate::first::first_where_spec(
                        self@.columns.len(),
                        name_is(self@.columns, col@),
                    );
                }
                true
            },
            None => {
                proof {
                    crate::first::first_where_spec(
                        self@.columns.len(),
                        name_is(self@.columns, col@),
                    );
                    if self@.columns.contains(col@) {
                        let i = choose|i: int|
                            0 <= i < self@.columns.len() && self@.columns[i] == col@;
                        assert(name_is(self@.columns, col@)(i));
                    }
                }
                false
            },
        }
    }

    /// The position of a column in this index (0-indexed).
    pub fn column_position(&self, col: &str) -> (r: Option<usize>)
        ensures
            match r {
                Some(i) => self@.position(col@) == Some(i as int),
                None => self@.position(col@) is None,
            },
    {
        let ghost p = name_is(self@.columns, col@);
        let n = self.columns.len();
        for i in 0..n
            invariant
                n == self.columns@.len(),
                self@.columns == crate::text::texts(self.columns@),
                p == name_is(self@.columns, col@),
                forall|j: int| 0 <= j < i ==> !(#[trigger] p(j)),
        {
            if same_text(self.columns[i].as_str(), col) {
                proof {
                    assert(p(i as int));
                    crate::first::first_where_found(n as nat, p, i as int);
                }
                return Some(i);
            }
            assert(!p(i as int));
        }
        proof {
            crate::first::first_where_absent(n as nat, p);
        }
        None
    }

    fn expression(&self, column: &str, query: CompoundSargableQuery) -> (r: IndexedExpression)
        ensures
            r@ == (ExpressionView {
                column: column@,
                index_name: self@.index_name,
                query: query@,
            }),
    {
        IndexedExpression::index_query(column.to_owned(), self.index_name.clone(), query)
    }

    /// A range on the first column.
    pub fn visit_between(
        &self,
        column: &str,
        low: &Bound<ScalarValue>,
        high: &Bound<ScalarValue>,
    ) -> (r: Option<IndexedExpression>)
        ensures
            opt_expression(r) == self@.on_first(
                column@,
                Some(
                    first_column_range(
                        crate::compound::bound_view(*low),
                        crate::compound::bound_view(*high),
                    ),
                ),
            ),
    {
        if !self.is_first_column(column) {
            return None;
        }
        let prefix: Vec<ScalarValue> = Vec::new();
        assert(crate::scalar::scalars(prefix@) =~= Seq::empty());
        let query = CompoundSargableQuery::prefix_lookup_with_range(
            prefix,
            (clone_bound(low), clone_bound(high)),
        );
        Some(self.expression(column, query))
    }

    /// Lists of values are not answered.
    pub fn visit_in_list(&self, _column: &str, _in_list: &Vec<ScalarValue>) -> (r: Option<
        IndexedExpression,
    >)
        ensures
            r is None,
    {
        None
    }

    /// A boolean first column.
    pub fn visit_is_bool(&self, column: &str, value: bool) -> (r: Option<IndexedExpression>)
        ensures
            opt_expression(r) == self@.on_first(
                column@,
                Some(
                    equality(
                        ScalarView {
                            data_type: DataTypeOf::Boolean,
                            key: Some(
                                ScalarKey::Int(
                                    if value {
                                        1
                                    } else {
                                        0
                                    },
                                ),
                            ),
                        },
                    ),
                ),
            ),
    {
        if !self.is_first_column(column) {
            return None;
        }
        let query = CompoundSargableQuery::prefix_lookup(
            single(ScalarValue::Boolean(Some(value))),
        );
        Some(self.expression(column, query))
    }

    /// A null check on the first column.
    pub fn visit_is_null(&self, column: &str) -> (r: Option<IndexedExpression>)
        ensures
            opt_expression(r) == self@.on_first(column@, Some(null_check())),
    {
        if !self.is_first_column(column) {
            return None;
        }
        let query = CompoundSargableQuery::prefix_lookup(single(ScalarValue::Null));
        Some(self.expression(column, query))
    }

    /// A comparison of the first column with a value.
    pub fn visit_comparison(&self, column: &str, value: &ScalarValue, op: &Operator) -> (r: Option<
        IndexedExpression,
    >)
        ensures
            opt_expression(r) == self@.on_first(column@, comparison_query(value@, *op)),
    {
        if !self.is_first_column(column) {
            return None;
        }
        let prefix: Vec<ScalarValue> = Vec::new();
        assert(crate::scalar::scalars(prefix@) =~= Seq::empty());
        let query = match op {
            Operator::Eq => CompoundSargableQuery::prefix_lookup(single(value.clone())),
            Operator::Lt => CompoundSargableQuery::prefix_lookup_with_range(
                prefix,
                (Bound::Unbounded, Bound::Excluded(value.clone())),
            ),
            Operator::LtEq => CompoundSargableQuery::prefix_lookup_with_range(
                prefix,
                (Bound::Unbounded, Bound::Included(value.clone())),
            ),
            Operator::Gt => CompoundSargableQuery::prefix_lookup_with_range(
                prefix,
                (Bound::Excluded(value.clone()), Bound::Unbounded),
            ),
            Operator::GtEq => CompoundSargableQuery::prefix_lookup_with_range(
                prefix,
                (Bound::Included(value.clone()), Bound::Unbounded),
            ),
            Operator::NotEq => CompoundSargableQuery::prefix_lookup(single(value.clone())),
            Operator::Other => {
                return None;
            },
        };
        Some(self.expression(column, query))
    }

    /// Scalar functions are not answered.
    pub fn visit_scalar_function(&self, _column: &str, _data_type: &DataType) -> (r: Option<
        IndexedExpression,
    >)
        ensures
            r is None,
    {
        None
    }
}

/// The leftmost prefix rule: a predicate on a column that is not the first of
/// the index gets no expression, whatever it is.
pub proof fn leftmost_prefix_rule(p: ParserView, col: Seq<char>, query: Option<QueryView>)
    requires
        p.position(col) != Some(0int),
    ensures
        p.on_first(col, query) is None,
{
    if p.is_first(col) {
        assert(name_is(p.columns, col)(0));
        crate::first::first_where_found(p.columns.len(), name_is(p.columns, col), 0);
    }
}

/// The null check of a parser is on the first column of its index, and finds
/// exactly the rows whose first column is null: searching the pages that the
/// statistics do not rule out gives their ids and no others.
pub proof fn null_check_finds_nulls(
    p: ParserView,
    pages: Seq<crate::batch::BatchView>,
    stats: Seq<crate::lookup::PageStatsView>,
    types: Seq<DataTypeView>,
    id: u64,
)
    requires
        p.columns.len() > 0,
        pages.len() == stats.len(),
        forall|k: int|
            0 <= k < pages.len() ==> crate::index::page_whole(#[trigger] pages[k], p.columns)
                && crate::index::page_covered(pages[k], p.columns, stats[k]),
    ensures
        p.on_first(p.columns[0], Some(null_check())) matches Some(e) && e.query == null_check(),
        crate::index::pages_result(
            crate::index::unpruned(pages, stats, p.columns.len(), null_check()),
            p.columns,
            types,
            null_check(),
        ) matches Ok(found) && (found.contains(id) <==> exists|k: int, row: int|
            0 <= k < pages.len() && #[trigger] null_row(pages[k], p.columns[0], row, id)),
{
    let names = p.columns;
    let prefix = null_check()->prefix;
    crate::index::candidates_suffice(pages, stats, names, types, null_check());
    crate::index::prefix_search_finds_matches(pages, names, types, prefix, None, id);
    reveal_with_fuel(crate::index::prefix_matches, 2);
    assert forall|k: int, row: int| 0 <= k < pages.len() implies #[trigger] null_row(
        pages[k],
        names[0],
        row,
        id,
    ) == #[trigger] crate::index::row_found(pages[k], names, prefix, None, row, id) by {
        assert(pages[k].column_by_name(names[0]) is Some);
    }
    let found = crate::index::pages_result(pages, names, types, null_check())->Ok_0;
    if found.contains(id) {
        let (k, row) = choose|k: int, row: int|
            0 <= k < pages.len() && #[trigger] crate::index::row_found(
                pages[k],
                names,
                prefix,
                None,
                row,
                id,
            );
        assert(null_row(pages[k], names[0], row, id));
    }
    if exists|k: int, row: int|
        0 <= k < pages.len() && #[trigger] null_row(pages[k], names[0], row, id) {
        let (k, row) = choose|k: int, row: int|
            0 <= k < pages.len() && #[trigger] null_row(pages[k], names[0], row, id);
        assert(crate::index::row_found(pages[k], names, prefix, None, row, id));
    }
}

/// A row of a page has null in a column, and the given id.
pub open spec fn null_row(
    page: crate::batch::BatchView,
    name: Seq<char>,
    row: int,
    id: u64,
) -> bool {
    &&& 0 <= row < page.rows
    &&& (page.column_by_name(name)->0).values[row].is_null()
    &&& crate::index::row_id(page)(row) == id
}

/// A comparison of the first column finds exactly the rows for which it holds:
/// the row's value against the given one. Null is in no range; equality with
/// null is the null check.
pub proof fn comparison_means_itself(
    batch: crate::batch::BatchView,
    names: Seq<Seq<char>>,
    v: ScalarView,
    op: Operator,
    row: int,
)
    requires
        names.len() > 0,
        batch.column_by_name(names[0]) is Some,
        op != Operator::Other,
    ensures
        ({
            let value = (batch.column_by_name(names[0])->0).values[row];
            let order = crate::scalar::scalar_order(value, v);
            let query = comparison_query(v, op)->0;
            let holds = match op {
                Operator::Eq | Operator::NotEq => if v.is_null() {
                    value.is_null()
                } else {
                    order == Some(crate::scalar::Order::Equal)
                },
                Operator::Lt => !value.is_null() && order == Some(crate::scalar::Order::Less),
                Operator::LtEq => !value.is_null() && crate::scalar::scalar_le(value, v),
                Operator::Gt => !value.is_null() && order == Some(crate::scalar::Order::Greater),
                Operator::GtEq => !value.is_null() && (order == Some(crate::scalar::Order::Greater)
                    || order == Some(crate::scalar::Order::Equal)),
                Operator::Other => false,
            };
            crate::index::row_matches(batch, names, query->prefix, query->range, row) == Ok::<
                bool,
                crate::error::ErrorView,
            >(holds)
        }),
{
    let value = (batch.column_by_name(names[0])->0).values[row];
    crate::scalar::scalar_order_equal(value, v);
    let query = comparison_query(v, op)->0;
    reveal_with_fuel(crate::index::prefix_matches, 2);
}

/// A predicate on the first column is answered: by an expression on that column
/// and the parser's index, with the predicate's own query.
pub proof fn first_column_is_answered(p: ParserView, col: Seq<char>, query: QueryView)
    ensures
        match p.on_first(col, Some(query)) {
            Some(e) => p.columns.len() > 0 && p.columns[0] == col && e.column == col
                && e.index_name == p.index_name && e.query == query,
            None => p.columns.len() == 0 || p.columns[0] != col,
        },
        p.on_first(col, None) is None,
{
}

/// An expression in a contract is the expression itself.
pub proof fn expression_shows_itself(e: IndexedExpression)
    ensures
        match opt_expression(Some(e)) {
            Some(v) => v.column == e.column@ && v.index_name == e.index_name@ && v.query
                == e.query@,
            None => false,
        },
        opt_expression(None) is None,
{
}

/// The position of a column is the first where it stands, and a column without
/// one stands nowhere.
pub proof fn position_is_the_first(p: ParserView, col: Seq<char>)
    ensures
        match p.position(col) {
            Some(i) => 0 <= i < p.columns.len() && p.columns[i] == col && forall|j: int|
                0 <= j < i ==> (#[trigger] p.columns[j]) != col,
            None => forall|j: int| 0 <= j < p.columns.len() ==> (#[trigger] p.columns[j]) != col,
        },
        p.is_first(col) <==> p.position(col) == Some(0int),
{
    let f = name_is(p.columns, col);
    crate::first::first_where_spec(p.columns.len(), f);
    assert forall|j: int| 0 <= j < p.columns.len() implies ((#[trigger] p.columns[j]) == col
        <==> f(j)) by {}
    if p.is_first(col) {
        assert(f(0));
        crate::first::first_where_found(p.columns.len(), f, 0);
    }
}

/// A range on the first column finds exactly the rows whose value is no null and
/// lies in the range; equality finds those with that value, or with null where
/// null is asked for.
pub proof fn ranges_and_equality_find_their_rows(
    batch: crate::batch::BatchView,
    names: Seq<Seq<char>>,
    lower: Bound<ScalarView>,
    upper: Bound<ScalarView>,
    v: ScalarView,
    row: int,
)
    requires
        names.len() > 0,
        batch.column_by_name(names[0]) is Some,
    ensures
        ({
            let value = (batch.column_by_name(names[0])->0).values[row];
            let range = first_column_range(lower, upper);
            let equal = equality(v);
            &&& range is PrefixLookup
            &&& equal is PrefixLookup
            &&& crate::index::row_matches(batch, names, range->prefix, range->range, row) == Ok::<
                bool,
                crate::error::ErrorView,
            >(value.key is Some && crate::compound::in_range(value, lower, upper))
            &&& crate::index::row_matches(batch, names, equal->prefix, equal->range, row) == Ok::<
                bool,
                crate::error::ErrorView,
            >(
                if v.key is None {
                    value.key is None
                } else {
                    crate::scalar::scalar_order(value, v) == Some(crate::scalar::Order::Equal)
                },
            )
        }),
{
    let value = (batch.column_by_name(names[0])->0).values[row];
    crate::scalar::scalar_order_equal(value, v);
    reveal_with_fuel(crate::index::prefix_matches, 2);
}

/// Every comparison has a query, and nothing else has. An inequality has that of
/// the equality, for the caller to negate.
pub proof fn comparisons_have_queries(v: ScalarView, op: Operator)
    ensures
        comparison_query(v, op) is None <==> op is Other,
        comparison_query(v, Operator::NotEq) == comparison_query(v, Operator::Eq),
        match null_check() {
            QueryView::PrefixLookup { prefix, range } => prefix.len() == 1 && prefix[0].key is None
                && range is None,
            _ => false,
        },
{
}

/// A range on the first column keeps both its ends; a range on any other column
/// gets nothing.
pub proof fn between_keeps_both_ends(
    p: &CompoundQueryParser,
    column: &str,
    low: &Bound<ScalarValue>,
    high: &Bound<ScalarValue>,
    r: Option<IndexedExpression>,
)
    requires
        call_ensures(CompoundQueryParser::visit_between, (p, column, low, high), r),
    ensures
        r is Some <==> p@.columns.len() > 0 && p@.columns[0] == column@,
        match r {
            Some(e) => {
                &&& e.column@ == column@
                &&& e.index_name@ == p@.index_name
                &&& match e.query@ {
                    QueryView::PrefixLookup { prefix, range: Some((a, b)) } => prefix.len() == 0
                        && a == crate::compound::bound_view(*low) && b
                        == crate::compound::bound_view(*high),
                    _ => false,
                }
            },
            None => true,
        },
{
}

/// A boolean first column is looked up by the boolean asked for.
pub proof fn booleans_are_looked_up(
    p: &CompoundQueryParser,
    column: &str,
    value: bool,
    r: Option<IndexedExpression>,
)
    requires
        call_ensures(CompoundQueryParser::visit_is_bool, (p, column, value), r),
    ensures
        r is Some <==> p@.columns.len() > 0 && p@.columns[0] == column@,
        match r {
            Some(e) => match e.query@ {
                QueryView::PrefixLookup { prefix, range } => prefix.len() == 1 && prefix[0]
                    == ScalarValue::Boolean(Some(value))@ && range is None,
                _ => false,
            },
            None => true,
        },
{
}

/// A comparison of the first column is looked up by the value given: as the only
/// value for an equality, as the end of a range that the operator sets for the
/// others.
pub proof fn comparisons_keep_their_value(
    p: &CompoundQueryParser,
    column: &str,
    value: &ScalarValue,
    op: &Operator,
    r: Option<IndexedExpression>,
)
    requires
        call_ensures(CompoundQueryParser::visit_comparison, (p, column, value, op), r),
    ensures
        r is Some <==> p@.columns.len() > 0 && p@.columns[0] == column@ && !(*op is Other),
        match r {
            Some(e) => e.column@ == column@ && e.index_name@ == p@.index_name && match e.query@ {
                QueryView::PrefixLookup { prefix, range: None } => (*op is Eq || *op is NotEq)
                    && prefix.len() == 1 && prefix[0] == value@,
                QueryView::PrefixLookup { prefix, range: Some((a, b)) } => prefix.len() == 0 && (
                match (a, b) {
                    (Bound::Unbounded, Bound::Excluded(v)) => *op is Lt && v == value@,
                    (Bound::Unbounded, Bound::Included(v)) => *op is LtEq && v == value@,
                    (Bound::Excluded(v), Bound::Unbounded) => *op is Gt && v == value@,
                    (Bound::Included(v), Bound::Unbounded) => *op is GtEq && v == value@,
                    _ => false,
                }),
                _ => false,
            },
            None => true,
        },
{
}

/// A null check of the first column looks for null; lists of values and scalar
/// functions are never answered.
pub proof fn null_checks_look_for_null(
    p: &CompoundQueryParser,
    column: &str,
    values: &Vec<ScalarValue>,
    data_type: &DataType,
    null: Option<IndexedExpression>,
    list: Option<IndexedExpression>,
    function: Option<IndexedExpression>,
)
    requires
        call_ensures(CompoundQueryParser::visit_is_null, (p, column), null),
        call_ensures(CompoundQueryParser::visit_in_list, (p, column, values), list),
        call_ensures(CompoundQueryParser::visit_scalar_function, (p, column, data_type), function),
    ensures
        null is Some <==> p@.columns.len() > 0 && p@.columns[0] == column@,
        match null {
            Some(e) => e.column@ == column@ && e.index_name@ == p@.index_name && match e.query@ {
                QueryView::PrefixLookup { prefix, range } => prefix.len() == 1
                    && prefix[0].key is None && range is None,
                _ => false,
            },
            None => true,
        },
        list is None,
        function is None,
{
}

/// A column is part of an index exactly where it has a position there, and is the
/// first exactly where that position is.
pub proof fn columns_have_positions(
    p: &CompoundQueryParser,
    column: &str,
    position: Option<usize>,
    part: bool,
    first: bool,
)
    requires
        call_ensures(CompoundQueryParser::column_position, (p, column), position),
        call_ensures(CompoundQueryParser::contains_column, (p, column), part),
        call_ensures(CompoundQueryParser::is_first_column, (p, column), first),
    ensures
        part == (position is Some),
        first == (position == Some(0usize)),
        match position {
            Some(i) => i < p@.columns.len() && p@.columns[i as int] == column@,
            None => !p@.columns.contains(column@),
        },
{
    position_is_the_first(p@, column@);
    if p@.columns.contains(column@) {
        let j = choose|j: int| 0 <= j < p@.columns.len() && p@.columns[j] == column@;
        assert(p@.columns[j] == column@);
    }
}

} // verus!
