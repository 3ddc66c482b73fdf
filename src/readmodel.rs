//! The user read model: a denormalized row per user, rebuilt from the join
//! view over users and their permissions whenever a change is announced.
use vstd::prelude::*;

use crate::codec::{
    decode_opt, encode_opt, find_field, lemma_opt_value_text, lookup, lookup_from, names_known,
    names_within, opt_text, opt_value, opt_view, texts, FromParams, ToParams,
};
use crate::error::UtilError;
use crate::subscriber::Subscriber;

verus! {

/// What a permission record grants rights on.
#[derive(Debug, Clone, Copy, PartialEq, Eq, Structural, Default)]
pub enum Target {
    #[default]
    User,
    UserPermission,
}

/// Columns a read-model listing can be sorted by.
#[derive(Debug, Clone, Copy, PartialEq, Eq, Structural, Default)]
pub enum SortColumn {
    #[default]
    DisplayName,
    Email,
}

/// A filter over read-model rows: each field that is set must match.
#[derive(Debug, Clone, Default)]
pub struct Query {
    pub id: Option<String>,
    pub display_name: Option<String>,
    pub email: Option<String>,
}

pub struct QueryView {
    pub id: Option<Seq<char>>,
    pub display_name: Option<Seq<char>>,
    pub email: Option<Seq<char>>,
}

impl View for Query {
    type V = QueryView;

    open spec fn view(&self) -> QueryView {
        QueryView {
            id: opt_view(self.id),
            display_name: opt_view(self.display_name),
            email: opt_view(self.email),
        }
    }
}

/// One row of the read model, and of the join view it is rebuilt from.
/// `permissions` is the JSON array of the user's permission records.
#[derive(Debug, Clone, Default)]
pub struct UserReadModel {
    pub id: String,
    pub external_id: Option<String>,
    pub display_name: Option<String>,
    pub email: Option<String>,
    pub permissions: Option<String>,
}

pub struct RowView {
    pub id: Seq<char>,
    pub external_id: Option<Seq<char>>,
    pub display_name: Option<Seq<char>>,
    pub email: Option<Seq<char>>,
    pub permissions: Option<Seq<char>>,
}

impl View for UserReadModel {
    type V = RowView;

    open spec fn view(&self) -> RowView {
        RowView {
            id: self.id@,
            external_id: opt_view(self.external_id),
            display_name: opt_view(self.display_name),
            email: opt_view(self.email),
            permissions: opt_view(self.permissions),
        }
    }
}

pub open spec fn id_name() -> Seq<char> {
    seq!['i', 'd']
}

pub open spec fn display_name_name() -> Seq<char> {
    seq!['d', 'i', 's', 'p', 'l', 'a', 'y', '_', 'n', 'a', 'm', 'e']
}

pub open spec fn email_name() -> Seq<char> {
    seq!['e', 'm', 'a', 'i', 'l']
}

pub open spec fn query_names() -> Seq<Seq<char>> {
    seq![id_name(), display_name_name(), email_name()]
}

fn id_field() -> (r: String)
    ensures
        r@ == id_name(),
{
    proof {
        reveal_strlit("id");
    }
    String::from_str("id")
}

fn display_name_field() -> (r: String)
    ensures
        r@ == display_name_name(),
{
    proof {
        reveal_strlit("display_name");
    }
    String::from_str("display_name")
}

fn email_field() -> (r: String)
    ensures
        r@ == email_name(),
{
    proof {
        reveal_strlit("email");
    }
    String::from_str("email")
}

/// The value of field `name` in `p`, read as an optional string.
pub open spec fn opt_field(p: Seq<Seq<char>>, name: Seq<char>) -> Option<Option<Seq<char>>> {
    match lookup(p, name) {
        Some(t) => opt_value(t),
        None => None,
    }
}

fn decode_opt_field(params: &Vec<String>, name: &String) -> (r: Result<Option<String>, UtilError>)
    ensures
        match r {
            Ok(v) => opt_field(texts(params@), name@) == Some(opt_view(v)),
            Err(e) => opt_field(texts(params@), name@) is None && e is MalformedParams,
        },
{
    match find_field(params, name) {
        Some(i) => match decode_opt(&params[i]) {
            Some(v) => Ok(v),
            None => Err(UtilError::MalformedParams),
        },
        None => Err(UtilError::MalformedParams),
    }
}

impl ToParams for Query {
    open spec fn params_spec(q: QueryView) -> Seq<Seq<char>> {
        seq![
            id_name(),
            opt_text(q.id),
            display_name_name(),
            opt_text(q.display_name),
            email_name(),
            opt_text(q.email),
        ]
    }

    fn to_params(&self) -> (r: Vec<String>) {
        let mut params: Vec<String> = Vec::new();
        params.push(id_field());
        params.push(encode_opt(&self.id));
        params.push(display_name_field());
        params.push(encode_opt(&self.display_name));
        params.push(email_field());
        params.push(encode_opt(&self.email));
        assert(texts(params@) =~= Self::params_spec(self@));
        params
    }
}

impl FromParams for Query {
    open spec fn from_params_spec(p: Seq<Seq<char>>) -> Option<QueryView> {
        if !names_known(p, query_names()) {
            None
        } else {
            match (opt_field(p, id_name()), opt_field(p, display_name_name()), opt_field(p, email_name())) {
                (Some(id), Some(display_name), Some(email)) => Some(QueryView { id, display_name, email }),
                _ => None,
            }
        }
    }

    fn from_params(params: Vec<String>) -> (r: Result<Self, UtilError>) {
        let id_n = id_field();
        let display_name_n = display_name_field();
        let email_n = email_field();
        let known: Vec<String> = vec![id_n.clone(), display_name_n.clone(), email_n.clone()];
        assert(texts(known@) =~= query_names());
        if !names_within(&params, &known) {
            return Err(UtilError::MalformedParams);
        }
        let id = match decode_opt_field(&params, &id_n) {
            Ok(v) => v,
            Err(e) => return Err(e),
        };
        let display_name = match decode_opt_field(&params, &display_name_n) {
            Ok(v) => v,
            Err(e) => return Err(e),
        };
        let email = match decode_opt_field(&params, &email_n) {
            Ok(v) => v,
            Err(e) => return Err(e),
        };
        Ok(Query { id, display_name, email })
    }
}

/// Decoding the list that a filter is written as gives the filter back.
pub proof fn lemma_query_round_trip(q: QueryView)
    ensures
        Query::from_params_spec(Query::params_spec(q)) == Some(q),
{
    let p = Query::params_spec(q);
    assert(lookup_from(p, id_name(), 0) == Some(opt_text(q.id)));
    assert(lookup_from(p, display_name_name(), 2) == Some(opt_text(q.display_name)));
    assert(lookup_from(p, display_name_name(), 0) == Some(opt_text(q.display_name)));
    assert(lookup_from(p, email_name(), 4) == Some(opt_text(q.email)));
    assert(lookup_from(p, email_name(), 2) == Some(opt_text(q.email)));
    assert(lookup_from(p, email_name(), 0) == Some(opt_text(q.email)));
    assert(query_names()[0] == p[0]);
    assert(query_names()[1] == p[2]);
    assert(query_names()[2] == p[4]);
    assert(names_known(p, query_names()));
    lemma_opt_value_text(q.id);
    lemma_opt_value_text(q.display_name);
    lemma_opt_value_text(q.email);
}

pub open spec fn field_matches(f: Option<Seq<char>>, v: Option<Seq<char>>) -> bool {
    match f {
        None => true,
        Some(x) => v == Some(x),
    }
}

/// Row `r` satisfies filter `q`: every field that the filter sets is equal.
pub open spec fn matches_spec(q: QueryView, r: RowView) -> bool {
    &&& field_matches(q.id, Some(r.id))
    &&& field_matches(q.display_name, r.display_name)
    &&& field_matches(q.email, r.email)
}

/// Position of the first row from `i` on that satisfies `q`.
pub open spec fn first_match_from(rows: Seq<RowView>, q: QueryView, i: int) -> Option<int>
    decreases rows.len() - i,
{
    if i < 0 || i >= rows.len() {
        None
    } else if matches_spec(q, rows[i]) {
        Some(i)
    } else {
        first_match_from(rows, q, i + 1)
    }
}

/// Position of the row keyed `id`, from `i` on.
pub open spec fn row_pos_from(rows: Seq<RowView>, id: Seq<char>, i: int) -> Option<int>
    decreases rows.len() - i,
{
    if i < 0 || i >= rows.len() {
        None
    } else if rows[i].id == id {
        Some(i)
    } else {
        row_pos_from(rows, id, i + 1)
    }
}

/// Writing row `r` keyed by its identifier: every column of an existing row
/// is replaced, otherwise the row is added.
pub open spec fn upsert_spec(rows: Seq<RowView>, r: RowView) -> Seq<RowView> {
    match row_pos_from(rows, r.id, 0) {
        Some(i) => rows.update(i, r),
        None => rows.push(r),
    }
}

/// Rebuilding the projection for filter `q` from the join view `source`: the
/// first matching row is upserted; without one nothing is written.
pub open spec fn materialize_spec(q: QueryView, source: Seq<RowView>, rows: Seq<RowView>) -> Option<Seq<RowView>> {
    match first_match_from(source, q, 0) {
        Some(k) => Some(upsert_spec(rows, source[k])),
        None => None,
    }
}

pub open spec fn rows_view(v: Seq<UserReadModel>) -> Seq<RowView> {
    v.map_values(|r: UserReadModel| r@)
}

/// No two rows share an identifier.
pub open spec fn ids_unique(rows: Seq<RowView>) -> bool {
    forall|i: int, j: int| 0 <= i < j < rows.len() ==> (#[trigger] rows[i]).id != (#[trigger] rows[j]).id
}

fn opt_eq(a: &Option<String>, b: &Option<String>) -> (r: bool)
    ensures
        r == (opt_view(*a) == opt_view(*b)),
{
    match (a, b) {
        (Some(x), Some(y)) => *x == *y,
        (None, None) => true,
        _ => false,
    }
}

fn opt_copy(a: &Option<String>) -> (r: Option<String>)
    ensures
        opt_view(r) == opt_view(*a),
{
    match a {
        Some(x) => Some(x.clone()),
        None => None,
    }
}

fn field_satisfied(f: &Option<String>, v: &Option<String>) -> (r: bool)
    ensures
        r == field_matches(opt_view(*f), opt_view(*v)),
{
    match f {
        None => true,
        Some(_) => opt_eq(f, v),
    }
}

impl Query {
    /// Whether `row` satisfies this filter.
    pub fn matches(&self, row: &UserReadModel) -> (r: bool)
        ensures
            r == matches_spec(self@, row@),
    {
        let id_ok = match &self.id {
            None => true,
            Some(x) => *x == row.id,
        };
        id_ok && field_satisfied(&self.display_name, &row.display_name) && field_satisfied(
            &self.email,
            &row.email,
        )
    }
}

impl UserReadModel {
    /// A copy of the row, column for column.
    pub fn copy(&self) -> (r: UserReadModel)
        ensures
            r@ == self@,
    {
        UserReadModel {
            id: self.id.clone(),
            external_id: opt_copy(&self.external_id),
            display_name: opt_copy(&self.display_name),
            email: opt_copy(&self.email),
            permissions: opt_copy(&self.permissions),
        }
    }

    /// The row of the join view that filter `query` selects: the first that
    /// matches, or `RowCantMaterialize` where none does.
    pub fn select(query: &Query, source: &Vec<UserReadModel>) -> (r: Result<UserReadModel, UtilError>)
        ensures
            match first_match_from(rows_view(source@), query@, 0) {
                Some(k) => r is Ok && r->Ok_0@ == source@[k]@,
                None => r is Err && r->Err_0 is RowCantMaterialize,
            },
    {
        let ghost rv = rows_view(source@);
        let mut i: usize = 0;
        while i < source.len()
            invariant
                i <= source.len(),
                rv == rows_view(source@),
                first_match_from(rv, query@, 0) == first_match_from(rv, query@, i as int),
            decreases source.len() - i,
        {
            if query.matches(&source[i]) {
                return Ok(source[i].copy());
            }
            i = i + 1;
        }
        Err(UtilError::RowCantMaterialize)
    }

    /// Rebuilds the read-model row that `query` identifies from the join view
    /// `source` and upserts it into `table`. Where no row of the view
    /// matches, fails with `RowCantMaterialize` and writes nothing.
    pub fn materialize(query: &Query, source: &Vec<UserReadModel>, table: &mut ReadModelTable) -> (r: Result<(), UtilError>)
        requires
            old(table).wf(),
        ensures
            final(table).wf(),
            match materialize_spec(query@, rows_view(source@), old(table)@) {
                Some(t) => r is Ok && final(table)@ == t,
                None => r is Err && r->Err_0 is RowCantMaterialize && final(table)@ == old(table)@,
            },
    {
        match UserReadModel::select(query, source) {
            Ok(row) => {
                proof {
                    lemma_first_match_from(rows_view(source@), query@, 0);
                    let k = first_match_from(rows_view(source@), query@, 0)->0;
                    assert(rows_view(source@)[k] == source@[k]@);
                }
                table.upsert(row);
                Ok(())
            },
            Err(e) => Err(e),
        }
    }
}

/// The projection table: read-model rows keyed by identifier.
#[derive(Debug, Default)]
pub struct ReadModelTable {
    pub rows: Vec<UserReadModel>,
}

impl View for ReadModelTable {
    type V = Seq<RowView>;

    open spec fn view(&self) -> Seq<RowView> {
        rows_view(self.rows@)
    }
}

proof fn lemma_row_pos_from(rows: Seq<RowView>, id: Seq<char>, i: int)
    ensures
        match row_pos_from(rows, id, i) {
            Some(j) => i <= j < rows.len() && rows[j].id == id && forall|k: int| i <= k < j ==> rows[k].id != id,
            None => forall|k: int| 0 <= i <= k < rows.len() ==> rows[k].id != id,
        },
    decreases rows.len() - i,
{
    if 0 <= i < rows.len() && rows[i].id != id {
        lemma_row_pos_from(rows, id, i + 1);
    }
}

impl ReadModelTable {
    pub open spec fn wf(&self) -> bool {
        ids_unique(self@)
    }

    pub fn new() -> (r: ReadModelTable)
        ensures
            r.wf(),
            r@.len() == 0,
    {
        ReadModelTable { rows: Vec::new() }
    }

    fn position(&self, id: &String) -> (r: Option<usize>)
        ensures
            match r {
                Some(i) => row_pos_from(self@, id@, 0) == Some(i as int) && i < self.rows.len(),
                None => row_pos_from(self@, id@, 0) is None,
            },
    {
        let mut i: usize = 0;
        while i < self.rows.len()
            invariant
                i <= self.rows.len(),
                row_pos_from(self@, id@, 0) == row_pos_from(self@, id@, i as int),
            decreases self.rows.len() - i,
        {
            if self.rows[i].id == *id {
                return Some(i);
            }
            i = i + 1;
        }
        None
    }

    /// The row keyed `id`, if any.
    pub fn get(&self, id: &String) -> (r: Option<&UserReadModel>)
        ensures
            match row_pos_from(self@, id@, 0) {
                Some(i) => r is Some && r->0@ == self@[i],
                None => r is None,
            },
    {
        match self.position(id) {
            Some(i) => Some(&self.rows[i]),
            None => None,
        }
    }

    /// Writes `row` keyed by its identifier, replacing every column of an
    /// existing row with that identifier.
    pub fn upsert(&mut self, row: UserReadModel)
        requires
            old(self).wf(),
        ensures
            final(self).wf(),
            final(self)@ == upsert_spec(old(self)@, row@),
    {
        let ghost t0 = self@;
        let ghost rv = row@;
        proof {
            lemma_row_pos_from(t0, rv.id, 0);
        }
        match self.position(&row.id) {
            Some(i) => {
                self.rows.set(i, row);
                assert(self@ =~= t0.update(i as int, rv));
            },
            None => {
                self.rows.push(row);
                assert(self@ =~= t0.push(rv));
            },
        }
    }
}

/// Materializing twice in a row from unchanged sources leaves the table as
/// the first run left it: no duplicate rows, no column drift.
pub proof fn lemma_materialize_idempotent(q: QueryView, source: Seq<RowView>, rows: Seq<RowView>)
    requires
        ids_unique(rows),
    ensures
        materialize_spec(q, source, rows) matches Some(once) ==> materialize_spec(q, source, once) == Some(once),
{
    match first_match_from(source, q, 0) {
        Some(k) => {
            let r = source[k];
            let once = upsert_spec(rows, r);
            lemma_row_pos_from(rows, r.id, 0);
            lemma_row_pos_from(once, r.id, 0);
            match row_pos_from(rows, r.id, 0) {
                Some(i) => {
                    assert(once[i] == r);
                    assert(once.update(i, r) =~= once);
                },
                None => {
                    assert(once[rows.len() as int] == r);
                    assert(once.update(rows.len() as int, r) =~= once);
                },
            }
        },
        None => {},
    }
}

/// A filter that matches no row of the join view fails to materialize, and
/// the table is left as it was.
pub proof fn lemma_materialize_no_match(q: QueryView, source: Seq<RowView>, rows: Seq<RowView>)
    requires
        forall|k: int| 0 <= k < source.len() ==> !matches_spec(q, #[trigger] source[k]),
    ensures
        materialize_spec(q, source, rows) is None,
{
    lemma_first_match_none(q, source, 0);
}

proof fn lemma_first_match_from(rows: Seq<RowView>, q: QueryView, i: int)
    ensures
        first_match_from(rows, q, i) matches Some(j) ==> i <= j < rows.len() && matches_spec(q, rows[j]),
    decreases rows.len() - i,
{
    if 0 <= i < rows.len() && !matches_spec(q, rows[i]) {
        lemma_first_match_from(rows, q, i + 1);
    }
}

proof fn lemma_first_match_none(q: QueryView, source: Seq<RowView>, i: int)
    requires
        forall|k: int| 0 <= k < source.len() ==> !matches_spec(q, #[trigger] source[k]),
    ensures
        first_match_from(source, q, i) is None,
    decreases source.len() - i,
{
    if 0 <= i < source.len() {
        assert(!matches_spec(q, source[i]));
        lemma_first_match_none(q, source, i + 1);
    }
}

/// The registered read-model subscribers.
pub fn subscribers() -> (r: Vec<UserReadModel>)
    ensures
        r@.len() == 1,
        r@[0].topic_spec() == materialize_topic(),
{
    vec![UserReadModel { id: String::new(), external_id: None, display_name: None, email: None, permissions: None }]
}

pub open spec fn materialize_topic() -> Seq<char> {
    seq![
        'M', 'a', 't', 'e', 'r', 'i', 'a', 'l', 'i', 'z', 'e', 'U', 's', 'e', 'r', 'R', 'e', 'a',
        'd', 'M', 'o', 'd', 'e', 'l',
    ]
}

impl Subscriber for UserReadModel {
    type MessageType = Query;

    open spec fn topic_spec(&self) -> Seq<char> {
        materialize_topic()
    }

    open spec fn group_name_spec(&self) -> Seq<char> {
        materialize_topic()
    }

    fn topic(&self) -> (r: String) {
        proof {
            reveal_strlit("MaterializeUserReadModel");
        }
        String::from_str("MaterializeUserReadModel")
    }

    fn group_name(&self) -> (r: String) {
        proof {
            reveal_strlit("MaterializeUserReadModel");
        }
        String::from_str("MaterializeUserReadModel")
    }
}

} // verus!
