//! Statement text and bound values for the relational backend.
use vstd::prelude::*;
use crate::record::{copy_opt, UpdateCredential};
use crate::text::{int_text, push_int};

verus! {

/// A column that a partial update may set.
#[derive(Clone, Copy, Debug, PartialEq, Eq, Structural)]
pub enum Column {
    AccessToken,
    RefreshToken,
    ProfileArn,
    ExpiresAt,
    Priority,
    FailureCount,
    Disabled,
    MachineId,
}

pub open spec fn column_name(c: Column) -> Seq<char> {
    match c {
        Column::AccessToken => "access_token"@,
        Column::RefreshToken => "refresh_token"@,
        Column::ProfileArn => "profile_arn"@,
        Column::ExpiresAt => "expires_at"@,
        Column::Priority => "priority"@,
        Column::FailureCount => "failure_count"@,
        Column::Disabled => "disabled"@,
        Column::MachineId => "machine_id"@,
    }
}

impl Column {
    /// The column's name in the credentials table.
    pub fn name(&self) -> (r: &'static str)
        ensures
            r@ == column_name(*self),
    {
        match self {
            Column::AccessToken => "access_token",
            Column::RefreshToken => "refresh_token",
            Column::ProfileArn => "profile_arn",
            Column::ExpiresAt => "expires_at",
            Column::Priority => "priority",
            Column::FailureCount => "failure_count",
            Column::Disabled => "disabled",
            Column::MachineId => "machine_id",
        }
    }
}

/// A value bound to a statement parameter; times are milliseconds since the
/// Unix epoch.
#[derive(Debug)]
pub enum SqlValue {
    Text(String),
    Integer(i32),
    BigInt(i64),
    Boolean(bool),
    Timestamp(i64),
}

pub open spec fn text_pair(c: Column, o: Option<String>) -> Seq<(Column, SqlValue)> {
    match o {
        Some(v) => seq![(c, SqlValue::Text(v))],
        None => Seq::empty(),
    }
}

pub open spec fn value_pair<T>(c: Column, o: Option<T>, f: spec_fn(T) -> SqlValue) -> Seq<(Column, SqlValue)> {
    match o {
        Some(v) => seq![(c, f(v))],
        None => Seq::empty(),
    }
}

/// The columns an update sets, each with its new value, in one fixed order.
pub open spec fn assignments_of(u: UpdateCredential) -> Seq<(Column, SqlValue)> {
    text_pair(Column::AccessToken, u.access_token)
        + text_pair(Column::RefreshToken, u.refresh_token)
        + text_pair(Column::ProfileArn, u.profile_arn)
        + value_pair(Column::ExpiresAt, u.expires_at, |t: i64| SqlValue::Timestamp(t))
        + value_pair(Column::Priority, u.priority, |p: i32| SqlValue::Integer(p))
        + value_pair(Column::FailureCount, u.failure_count, |n: i32| SqlValue::Integer(n))
        + value_pair(Column::Disabled, u.disabled, |b: bool| SqlValue::Boolean(b))
        + text_pair(Column::MachineId, u.machine_id)
}

/// `SET` fragments after `updated_at = $1`: the pair at position `j` reads
/// `, <column> = $<j + 2>`.
pub open spec fn set_clauses(cols: Seq<Column>) -> Seq<char>
    decreases cols.len(),
{
    if cols.len() == 0 {
        Seq::empty()
    } else {
        set_clauses(cols.drop_last()) + ", "@ + column_name(cols.last()) + " = $"@ + int_text(
            cols.len() + 1int,
        )
    }
}

/// The statement that applies an update to the live row with a given id.
pub open spec fn update_sql(cols: Seq<Column>) -> Seq<char> {
    "UPDATE credentials SET updated_at = $1"@ + set_clauses(cols) + " WHERE id = $"@ + int_text(
        cols.len() + 2int,
    ) + " AND deleted_at IS NULL"@
}

fn push_text(out: &mut Vec<(Column, SqlValue)>, c: Column, o: &Option<String>)
    ensures
        final(out)@ == old(out)@ + text_pair(c, *o),
{
    match copy_opt(o) {
        Some(v) => {
            out.push((c, SqlValue::Text(v)));
            proof {
                assert(final(out)@ =~= old(out)@ + text_pair(c, *o));
            }
        },
        None => {
            proof {
                assert(final(out)@ =~= old(out)@ + text_pair(c, *o));
            }
        },
    }
}

impl UpdateCredential {
    /// The `(column, value)` pairs of the fields present, in one fixed order;
    /// both the statement text and its bound values are derived from them.
    pub fn assignments(&self) -> (r: Vec<(Column, SqlValue)>)
        ensures
            r@ == assignments_of(*self),
    {
        let mut out: Vec<(Column, SqlValue)> = Vec::new();
        push_text(&mut out, Column::AccessToken, &self.access_token);
        push_text(&mut out, Column::RefreshToken, &self.refresh_token);
        push_text(&mut out, Column::ProfileArn, &self.profile_arn);
        let ghost s3 = out@;
        if let Some(t) = self.expires_at {
            out.push((Column::ExpiresAt, SqlValue::Timestamp(t)));
        }
        proof {
            assert(out@ =~= s3 + value_pair(Column::ExpiresAt, self.expires_at, |t: i64| SqlValue::Timestamp(t)));
        }
        let ghost s4 = out@;
        if let Some(p) = self.priority {
            out.push((Column::Priority, SqlValue::Integer(p)));
        }
        proof {
            assert(out@ =~= s4 + value_pair(Column::Priority, self.priority, |p: i32| SqlValue::Integer(p)));
        }
        let ghost s5 = out@;
        if let Some(n) = self.failure_count {
            out.push((Column::FailureCount, SqlValue::Integer(n)));
        }
        proof {
            assert(out@ =~= s5 + value_pair(Column::FailureCount, self.failure_count, |n: i32| SqlValue::Integer(n)));
        }
        let ghost s6 = out@;
        if let Some(b) = self.disabled {
            out.push((Column::Disabled, SqlValue::Boolean(b)));
        }
        proof {
            assert(out@ =~= s6 + value_pair(Column::Disabled, self.disabled, |b: bool| SqlValue::Boolean(b)));
        }
        push_text(&mut out, Column::MachineId, &self.machine_id);
        proof {
            assert(out@ =~= assignments_of(*self));
        }
        out
    }
}

pub open spec fn columns_of(a: Seq<(Column, SqlValue)>) -> Seq<Column> {
    a.map_values(|p: (Column, SqlValue)| p.0)
}

/// The `UPDATE` statement for these pairs: `$1` is the update time, the pair
/// at position `j` is `$<j + 2>`, and the id comes last.
pub fn update_statement(assignments: &Vec<(Column, SqlValue)>) -> (r: String)
    requires
        assignments.len() + 2 <= i64::MAX,
    ensures
        r@ == update_sql(columns_of(assignments@)),
{
    let mut s = String::from_str("UPDATE credentials SET updated_at = $1");
    let mut j: usize = 0;
    proof {
        reveal_strlit("UPDATE credentials SET updated_at = $1");
        assert(columns_of(assignments@).take(0) =~= Seq::<Column>::empty());
    }
    while j < assignments.len()
        invariant
            j <= assignments.len(),
            assignments.len() + 2 <= i64::MAX,
            s@ == "UPDATE credentials SET updated_at = $1"@ + set_clauses(
                columns_of(assignments@).take(j as int),
            ),
        decreases assignments.len() - j,
    {
        let ghost before = s@;
        s.append(", ");
        s.append(assignments[j].0.name());
        s.append(" = $");
        push_int(&mut s, j as i64 + 2);
        proof {
            let cols = columns_of(assignments@);
            assert(cols.take(j + 1).drop_last() =~= cols.take(j as int));
            assert(cols.take(j + 1).last() == assignments@[j as int].0);
            assert(s@ =~= "UPDATE credentials SET updated_at = $1"@ + set_clauses(cols.take(j + 1)));
        }
        j = j + 1;
    }
    s.append(" WHERE id = $");
    push_int(&mut s, assignments.len() as i64 + 2);
    s.append(" AND deleted_at IS NULL");
    proof {
        let cols = columns_of(assignments@);
        assert(cols.take(assignments.len() as int) =~= cols);
        assert(s@ =~= update_sql(cols));
    }
    s
}

fn copy_value(v: &SqlValue) -> (r: SqlValue)
    ensures
        r == *v,
{
    match v {
        SqlValue::Text(t) => SqlValue::Text(t.clone()),
        SqlValue::Integer(n) => SqlValue::Integer(*n),
        SqlValue::BigInt(n) => SqlValue::BigInt(*n),
        SqlValue::Boolean(b) => SqlValue::Boolean(*b),
        SqlValue::Timestamp(t) => SqlValue::Timestamp(*t),
    }
}

/// Values for the parameters of `update_statement`, in parameter order.
pub fn update_binds(now: i64, assignments: &Vec<(Column, SqlValue)>, id: i64) -> (r: Vec<SqlValue>)
    ensures
        r@ == seq![SqlValue::Timestamp(now)] + assignments@.map_values(|p: (Column, SqlValue)| p.1)
            + seq![SqlValue::BigInt(id)],
{
    let mut out: Vec<SqlValue> = Vec::new();
    out.push(SqlValue::Timestamp(now));
    let mut j: usize = 0;
    while j < assignments.len()
        invariant
            j <= assignments.len(),
            out@ == seq![SqlValue::Timestamp(now)] + assignments@.take(j as int).map_values(
                |p: (Column, SqlValue)| p.1,
            ),
        decreases assignments.len() - j,
    {
        out.push(copy_value(&assignments[j].1));
        proof {
            assert(assignments@.take(j + 1).map_values(|p: (Column, SqlValue)| p.1) =~= assignments@.take(
                j as int,
            ).map_values(|p: (Column, SqlValue)| p.1).push(assignments@[j as int].1));
        }
        j = j + 1;
    }
    out.push(SqlValue::BigInt(id));
    proof {
        assert(assignments@.take(assignments.len() as int) =~= assignments@);
        assert(out@ =~= seq![SqlValue::Timestamp(now)] + assignments@.map_values(|p: (Column, SqlValue)| p.1)
            + seq![SqlValue::BigInt(id)]);
    }
    out
}

/// Rows skipped before page `page`; pages before the first count as the first.
pub fn list_offset(page: i32, page_size: i32) -> (r: i64)
    ensures
        r == (if page > 1 { page - 1 } else { 0 }) * page_size,
{
    let p: i64 = if page > 1 { page as i64 - 1 } else { 0 };
    proof {
        assert(-(i32::MAX as int) * (i32::MAX as int) - (i32::MAX as int) <= p * page_size <= (i32::MAX as int) * (i32::MAX as int) + (i32::MAX as int)) by (nonlinear_arith)
            requires
                0 <= p <= i32::MAX,
                i32::MIN <= page_size <= i32::MAX,
        ;
    }
    p * page_size as i64
}

} // verus!
