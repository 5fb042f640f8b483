//! A statement for the store: its text, with a numbered placeholder wherever a
//! value goes, and the values in the order of their placeholders.

use vstd::prelude::*;
use vstd::string::*;
use time::OffsetDateTime;
use crate::percentage::{Percentage, PercentageView};
use crate::text::{decimal, push_decimal};
use crate::vectors::reversed;

verus! {

/// What a [`SqlValue`] holds.
pub enum SqlValueView {
    Text(Seq<char>),
    Flag(bool),
    Integer(int),
    Percent(PercentageView),
    Moment(OffsetDateTime),
    OptionalMoment(Option<OffsetDateTime>),
    Json(serde_json::Value),
}

/// A value that is bound to a placeholder.
#[derive(Debug)]
pub enum SqlValue {
    Text(String),
    Flag(bool),
    Integer(i32),
    /// A percentage, to be bound as a double.
    Percent(Percentage),
    Moment(OffsetDateTime),
    OptionalMoment(Option<OffsetDateTime>),
    Json(serde_json::Value),
}

impl View for SqlValue {
    type V = SqlValueView;

    open spec fn view(&self) -> SqlValueView {
        match self {
            SqlValue::Text(text) => SqlValueView::Text(text@),
            SqlValue::Flag(flag) => SqlValueView::Flag(*flag),
            SqlValue::Integer(number) => SqlValueView::Integer(*number as int),
            SqlValue::Percent(percent) => SqlValueView::Percent(percent@),
            SqlValue::Moment(moment) => SqlValueView::Moment(*moment),
            SqlValue::OptionalMoment(moment) => SqlValueView::OptionalMoment(*moment),
            SqlValue::Json(document) => SqlValueView::Json(*document),
        }
    }
}

/// What the values of one tuple hold.
pub open spec fn values_view(values: Seq<SqlValue>) -> Seq<SqlValueView> {
    values.map_values(|value: SqlValue| value@)
}

/// What the values of several tuples hold.
pub open spec fn tuples_view(tuples: Seq<Vec<SqlValue>>) -> Seq<Seq<SqlValueView>> {
    tuples.map_values(|tuple: Vec<SqlValue>| values_view(tuple@))
}

/// The placeholder of the `n`-th value: a dollar sign and the number.
pub open spec fn placeholder(n: nat) -> Seq<char> {
    seq!['$'] + decimal(n)
}

/// What a [`Statement`] holds.
pub struct StatementView {
    pub sql: Seq<char>,
    pub arguments: Seq<SqlValueView>,
}

impl StatementView {
    /// A statement that begins with `sql` and binds nothing yet.
    pub open spec fn new(sql: Seq<char>) -> StatementView {
        StatementView { sql, arguments: Seq::empty() }
    }

    /// The statement with `sql` appended to its text.
    pub open spec fn push(self, sql: Seq<char>) -> StatementView {
        StatementView { sql: self.sql + sql, arguments: self.arguments }
    }

    /// The statement with one more value, and its placeholder appended to the
    /// text. Placeholders count from 1.
    pub open spec fn push_bind(self, value: SqlValueView) -> StatementView {
        StatementView {
            sql: self.sql + placeholder(self.arguments.len() + 1),
            arguments: self.arguments.push(value),
        }
    }

    /// The statement with `values` bound one after the other, their
    /// placeholders separated by a comma and a space.
    pub open spec fn push_binds(self, values: Seq<SqlValueView>) -> StatementView
        decreases values.len(),
    {
        if values.len() == 0 {
            self
        } else if values.len() == 1 {
            self.push_bind(values[0])
        } else {
            self.push_binds(values.drop_last()).push(", "@).push_bind(values.last())
        }
    }

    /// The statement with one tuple appended: the values bound between round
    /// brackets.
    pub open spec fn push_tuple(self, values: Seq<SqlValueView>) -> StatementView {
        self.push("("@).push_binds(values).push(")"@)
    }

    /// The statement with the tuples appended, `separator` between one and
    /// the next.
    pub open spec fn push_tuples(
        self,
        tuples: Seq<Seq<SqlValueView>>,
        separator: Seq<char>,
    ) -> StatementView
        decreases tuples.len(),
    {
        if tuples.len() == 0 {
            self
        } else if tuples.len() == 1 {
            self.push_tuple(tuples[0])
        } else {
            self.push_tuples(tuples.drop_last(), separator).push(separator).push_tuple(
                tuples.last(),
            )
        }
    }
}

/// Binding values adds them to the arguments in their order and leaves the
/// arguments that were there as they were.
pub proof fn lemma_push_binds_arguments(statement: StatementView, values: Seq<SqlValueView>)
    ensures
        statement.push_binds(values).arguments == statement.arguments + values,
    decreases values.len(),
{
    if values.len() == 0 {
        assert(statement.arguments + values =~= statement.arguments);
    } else if values.len() == 1 {
        assert(statement.arguments + values =~= statement.arguments.push(values[0]));
    } else {
        lemma_push_binds_arguments(statement, values.drop_last());
        assert(statement.arguments + values =~= (statement.arguments
            + values.drop_last()).push(values.last()));
    }
}

/// Appending tuples adds their values to the arguments, tuple after tuple.
pub proof fn lemma_push_tuples_arguments(
    statement: StatementView,
    tuples: Seq<Seq<SqlValueView>>,
    separator: Seq<char>,
)
    ensures
        statement.push_tuples(tuples, separator).arguments == statement.arguments
            + tuples.flatten(),
    decreases tuples.len(),
{
    if tuples.len() == 0 {
        assert(tuples.flatten() =~= Seq::empty());
        assert(statement.arguments + tuples.flatten() =~= statement.arguments);
    } else if tuples.len() == 1 {
        lemma_push_binds_arguments(statement.push("("@), tuples[0]);
        assert(tuples =~= seq![tuples[0]]);
        tuples.lemma_flatten_one_element();
    } else {
        let front = tuples.drop_last();
        lemma_push_tuples_arguments(statement, front, separator);
        let before = statement.push_tuples(front, separator).push(separator);
        lemma_push_binds_arguments(before.push("("@), tuples.last());
        assert(tuples =~= front.push(tuples.last()));
        front.lemma_flatten_push(tuples.last());
        assert(statement.arguments + tuples.flatten() =~= (statement.arguments
            + front.flatten()) + tuples.last());
    }
}

/// A statement with the values that go with it.
#[derive(Debug)]
pub struct Statement {
    sql: String,
    arguments: Vec<SqlValue>,
}

impl View for Statement {
    type V = StatementView;

    closed spec fn view(&self) -> StatementView {
        StatementView { sql: self.sql@, arguments: values_view(self.arguments@) }
    }
}

impl Statement {
    /// Start a statement with an initial piece of text, which may be empty.
    pub fn new(init: &str) -> (statement: Statement)
        ensures
            statement@ == StatementView::new(init@),
    {
        let arguments: Vec<SqlValue> = Vec::new();
        assert(values_view(arguments@) =~= Seq::empty());
        Statement { sql: String::from_str(init), arguments }
    }

    /// A statement whose text holds its placeholders already, with the values
    /// that go with them.
    pub fn with_arguments(sql: &str, arguments: Vec<SqlValue>) -> (statement: Statement)
        ensures
            statement@ == (StatementView { sql: sql@, arguments: values_view(arguments@) }),
    {
        Statement { sql: String::from_str(sql), arguments }
    }

    /// The text, with its placeholders.
    pub fn sql(&self) -> (sql: &str)
        ensures
            sql@ == self@.sql,
    {
        self.sql.as_str()
    }

    /// The values, in the order of their placeholders.
    pub fn arguments(&self) -> (arguments: &Vec<SqlValue>)
        ensures
            values_view(arguments@) == self@.arguments,
    {
        &self.arguments
    }

    /// Takes the statement apart into its text and its values.
    pub fn into_parts(self) -> (parts: (String, Vec<SqlValue>))
        ensures
            parts.0@ == self@.sql,
            values_view(parts.1@) == self@.arguments,
    {
        (self.sql, self.arguments)
    }

    /// Appends text.
    pub fn push(&mut self, sql: &str)
        ensures
            final(self)@ == old(self)@.push(sql@),
    {
        self.sql.append(sql);
    }

    /// Binds a value and appends its placeholder.
    pub fn push_bind(&mut self, value: SqlValue)
        ensures
            final(self)@ == old(self)@.push_bind(value@),
    {
        let ghost before = self.arguments@;
        self.arguments.push(value);
        proof {
            assert(values_view(self.arguments@) =~= values_view(before).push(value@));
            reveal_strlit("$");
            assert("$"@ =~= seq!['$']);
        }
        let number: usize = self.arguments.len();
        self.sql.append("$");
        push_decimal(&mut self.sql, number as u128);
        assert(self.sql@ =~= old(self).sql@ + placeholder(number as nat));
    }

    /// Binds the values one after the other, with a comma and a space between
    /// their placeholders.
    pub fn push_binds(&mut self, values: Vec<SqlValue>)
        ensures
            final(self)@ == old(self)@.push_binds(values_view(values@)),
    {
        let ghost all = values_view(values@);
        let ghost start = self@;
        let n: usize = values.len();
        let mut stack: Vec<SqlValue> = reversed(values);
        let mut i: usize = 0;
        while i < n
            invariant
                i <= n,
                n == all.len(),
                stack@.len() == n - i,
                forall|j: int| 0 <= j < stack@.len() ==> (#[trigger] stack@[j])@ == all[n - 1 - j],
                self@ == start.push_binds(all.take(i as int)),
            decreases n - i,
        {
            let value = stack.pop().unwrap();
            proof {
                assert(all.take(i + 1).drop_last() =~= all.take(i as int));
                assert(all.take(i + 1).last() == all[i as int]);
            }
            if i > 0 {
                self.push(", ");
            }
            self.push_bind(value);
            i = i + 1;
        }
        proof {
            assert(all.take(n as int) =~= all);
        }
    }

    /// Appends one tuple: the values bound between round brackets.
    pub fn push_tuple(&mut self, values: Vec<SqlValue>)
        ensures
            final(self)@ == old(self)@.push_tuple(values_view(values@)),
    {
        self.push("(");
        self.push_binds(values);
        self.push(")");
    }

    /// Appends the tuples, with `separator` between one and the next.
    pub fn push_tuples(&mut self, tuples: Vec<Vec<SqlValue>>, separator: &str)
        ensures
            final(self)@ == old(self)@.push_tuples(tuples_view(tuples@), separator@),
    {
        let ghost all = tuples_view(tuples@);
        let ghost start = self@;
        let n: usize = tuples.len();
        let mut stack: Vec<Vec<SqlValue>> = reversed(tuples);
        let mut i: usize = 0;
        while i < n
            invariant
                i <= n,
                n == all.len(),
                stack@.len() == n - i,
                forall|j: int|
                    0 <= j < stack@.len() ==> values_view((#[trigger] stack@[j])@) == all[n - 1
                        - j],
                self@ == start.push_tuples(all.take(i as int), separator@),
            decreases n - i,
        {
            let tuple = stack.pop().unwrap();
            proof {
                assert(all.take(i + 1).drop_last() =~= all.take(i as int));
                assert(all.take(i + 1).last() == all[i as int]);
            }
            if i > 0 {
                self.push(separator);
            }
            self.push_tuple(tuple);
            i = i + 1;
        }
        proof {
            assert(all.take(n as int) =~= all);
        }
    }
}

} // verus!
