//! The query page: an editor, starter queries and the table of a result.
use vstd::prelude::*;

use super::data::starter::{QueryResultData, QueryTemplate};
use crate::text;
use crate::text::{concat2, concat3, decimal_text, same_text};

verus! {

/// The heading of the row-number column, which leads every table.
pub const INDEX_COLUMN_HEADER: &'static str = "#";

/// How many columns stand before the data columns.
pub const LEADING_COLUMNS: usize = 1;

/// What the editor opens with: how to run, what to query, and that the ledger is
/// only read.
pub const WELCOME_SQL: &'static str = "-- ⌘Enter runs the query. Everything here is read-only.
-- The main view is v_charge_normalized: one row per charge,
-- amounts in the reporting currency.

SELECT billing_period,
       reporting_currency AS currency,
       ROUND(SUM(billed_cost_base), 2) AS spend
FROM v_charge_normalized
GROUP BY billing_period, reporting_currency
ORDER BY billing_period DESC
LIMIT 12";

/// What the result pane shows.
#[derive(Debug)]
pub enum QueryStatus {
    /// Nothing has run yet.
    Empty,
    /// A run is in flight.
    Running,
    /// The last run came back with rows.
    Rows(QueryResultData),
    /// The last run failed; the text is shown as it is.
    Failed(String),
}

/// The page.
#[derive(Debug)]
pub struct QueryView {
    /// The statement in the editor.
    pub editor: String,
    pub status: QueryStatus,
    /// A run is in flight.
    pub running: bool,
    /// Grows with every run: an older run discards its result.
    pub run_generation: u64,
}

impl QueryView {
    pub fn new() -> (res: QueryView)
        ensures
            res.editor@ == WELCOME_SQL@,
            res.status is Empty,
            !res.running,
            res.run_generation == 0,
    {
        QueryView {
            editor: WELCOME_SQL.to_owned(),
            status: QueryStatus::Empty,
            running: false,
            run_generation: 0,
        }
    }

    /// Put a template's statement into the editor.
    pub fn fill_from_template(&mut self, template: &QueryTemplate)
        ensures
            *final(self) == (QueryView { editor: final(self).editor, ..*old(self) }),
            final(self).editor@ == template.sql@,
    {
        self.editor = template.sql.to_owned();
    }

    /// The page was navigated to: the statement and the last result stay as they
    /// were left.
    pub fn reload(&mut self)
        ensures
            *final(self) == *old(self),
    {
    }

    /// Run the statement in the editor, unless one is in flight or it is blank;
    /// the generation of the run that starts.
    pub fn run(&mut self) -> (res: Option<u64>)
        requires
            old(self).run_generation < u64::MAX,
        ensures
            res is Some <==> !old(self).running && text::trimmed(old(self).editor@).len()
                > 0,
            res is None ==> *final(self) == *old(self),
            res is Some ==> {
                &&& res->0 == old(self).run_generation + 1
                &&& final(self).run_generation == res->0
                &&& final(self).running
                &&& final(self).status is Running
                &&& final(self).editor == old(self).editor
            },
    {
        if self.running {
            return None;
        }
        let statement = text::trim(&self.editor);
        if statement.as_str().unicode_len() == 0 {
            return None;
        }
        self.running = true;
        self.status = QueryStatus::Running;
        self.run_generation = self.run_generation + 1;
        Some(self.run_generation)
    }

    /// A run came back. Only the newest may write; an older result is discarded.
    pub fn ran(&mut self, generation: u64, outcome: Result<QueryResultData, String>)
        ensures
            generation != old(self).run_generation ==> *final(self) == *old(self),
            generation == old(self).run_generation ==> {
                &&& !final(self).running
                &&& final(self).editor == old(self).editor
                &&& final(self).run_generation == old(self).run_generation
                &&& match outcome {
                    Ok(result) => final(self).status == QueryStatus::Rows(result),
                    Err(e) => final(self).status == QueryStatus::Failed(e),
                }
            },
    {
        if generation != self.run_generation {
            return ;
        }
        self.running = false;
        self.status = match outcome {
            Ok(result) => QueryStatus::Rows(result),
            Err(e) => QueryStatus::Failed(e),
        };
    }

    /// The line above the result, and whether it warns.
    pub fn status_line(&self) -> (res: Option<(String, bool)>)
        ensures
            match self.status {
                QueryStatus::Running => is_line(res, "Running…"@, false),
                QueryStatus::Rows(result) => if result.truncated {
                    is_line(
                        res,
                        "Showing first "@ + text::decimal(result.rows@.len())
                            + " rows — result truncated · "@ + text::decimal(
                            result.elapsed_ms as nat,
                        ) + " ms"@,
                        true,
                    )
                } else {
                    is_line(
                        res,
                        text::decimal(result.rows@.len()) + " rows · "@ + text::decimal(
                            result.elapsed_ms as nat,
                        ) + " ms"@,
                        false,
                    )
                },
                _ => res is None,
            },
    {
        match &self.status {
            QueryStatus::Running => Some(("Running…".to_owned(), false)),
            QueryStatus::Rows(result) => {
                let count = decimal_text(result.rows.len() as u64);
                let elapsed = decimal_text(result.elapsed_ms);
                if result.truncated {
                    let mut line = concat3("Showing first ", &count, " rows — result truncated · ");
                    line.append(&elapsed);
                    line.append(" ms");
                    Some((line, true))
                } else {
                    let mut line = concat3(&count, " rows · ", &elapsed);
                    line.append(" ms");
                    Some((line, false))
                }
            },
            _ => None,
        }
    }

    /// What the pane says where it has no table: before and during a run, and
    /// after a failure.
    pub fn pane_note(&self) -> (res: Option<String>)
        ensures
            match self.status {
                QueryStatus::Empty => res is Some && res->0@ == "Run a query or pick a template"@,
                QueryStatus::Running => res is Some && res->0@ == "Running…"@,
                QueryStatus::Rows(_) => res is None,
                QueryStatus::Failed(e) => res is Some && res->0@ == e@,
            },
    {
        match &self.status {
            QueryStatus::Empty => Some("Run a query or pick a template".to_owned()),
            QueryStatus::Running => Some("Running…".to_owned()),
            QueryStatus::Rows(_) => None,
            QueryStatus::Failed(e) => Some(e.clone()),
        }
    }
}

/// A line, as values.
pub open spec fn is_line(line: Option<(String, bool)>, words: Seq<char>, warns: bool) -> bool {
    match line {
        Some((text, warning)) => text@ == words && warning == warns,
        None => false,
    }
}

// ==================== The editor ====================

/// How many spaces and tabs stand at the end of text.
pub open spec fn indent_of(text: Seq<char>) -> nat
    decreases text.len(),
{
    if text.len() > 0 && (text.last() == ' ' || text.last() == '\t') {
        indent_of(text.drop_last()) + 1
    } else {
        0
    }
}

/// A line break with its indent at the end of text, by its length; nothing
/// where the text ends otherwise.
pub open spec fn inserted_break(text: Seq<char>) -> Option<nat> {
    let indent = indent_of(text);
    if indent < text.len() && text[text.len() - indent - 1] == '\n' {
        Some(indent + 1)
    } else {
        None
    }
}

/// How many characters before the cursor the editor inserted on a run: a line
/// break and the indent behind it. `before` is the text before the cursor;
/// nothing is to be taken out where it does not end that way.
pub fn secondary_enter_newline(before: &str) -> (res: Option<usize>)
    ensures
        match inserted_break(before@) {
            Some(count) => res is Some && res->0 == count,
            None => res is None,
        },
{
    let len: usize = before.unicode_len();
    let mut at: usize = len;
    proof {
        assert(before@.take(len as int) =~= before@);
    }
    while at > 0 && (before.get_char(at - 1) == ' ' || before.get_char(at - 1) == '\t')
        invariant
            at <= len,
            len == before@.len(),
            indent_of(before@) == (len - at) + indent_of(before@.take(at as int)),
        decreases at,
    {
        proof {
            assert(before@.take(at as int).drop_last() =~= before@.take(at - 1));
            assert(before@.take(at as int).last() == before@[at - 1]);
        }
        at = at - 1;
    }
    proof {
        if at > 0 {
            assert(before@.take(at as int).last() == before@[at - 1]);
        }
        assert(indent_of(before@.take(at as int)) == 0);
    }
    if at > 0 && before.get_char(at - 1) == '\n' {
        Some(len - at + 1)
    } else {
        None
    }
}

// ==================== The picker ====================

/// Templates of one category.
#[derive(Debug)]
pub struct TemplateGroup {
    pub category: &'static str,
    /// The positions of the templates.
    pub members: Vec<usize>,
}

impl View for TemplateGroup {
    type V = (Seq<char>, Seq<int>);

    open spec fn view(&self) -> (Seq<char>, Seq<int>) {
        (self.category@, self.members@.map_values(|m: usize| m as int))
    }
}

pub open spec fn group_views(groups: Seq<TemplateGroup>) -> Seq<(Seq<char>, Seq<int>)> {
    groups.map_values(|g: TemplateGroup| g@)
}

/// Being the group of a category.
pub open spec fn of_category(category: Seq<char>) -> spec_fn((Seq<char>, Seq<int>)) -> bool {
    |group: (Seq<char>, Seq<int>)| group.0 == category
}

/// Templates by category: the categories in the order in which they first occur,
/// each with the positions of its templates.
pub open spec fn by_category(templates: Seq<QueryTemplate>) -> Seq<(Seq<char>, Seq<int>)>
    decreases templates.len(),
{
    if templates.len() == 0 {
        Seq::empty()
    } else {
        let before = by_category(templates.drop_last());
        let category = templates.last().category@;
        let at = templates.len() - 1;
        match crate::list::first_index(before, of_category(category)) {
            Some(i) => before.update(i, (category, before[i].1.push(at))),
            None => before.push((category, seq![at])),
        }
    }
}

fn add_to_group(groups: &mut Vec<TemplateGroup>, category: &'static str, at: usize)
    ensures
        group_views(final(groups)@) == (match crate::list::first_index(
            group_views(old(groups)@),
            of_category(category@),
        ) {
            Some(i) => group_views(old(groups)@).update(
                i,
                (category@, group_views(old(groups)@)[i].1.push(at as int)),
            ),
            None => group_views(old(groups)@).push((category@, seq![at as int])),
        }),
{
    let ghost before = groups@;
    let ghost views = group_views(before);
    let ghost test = of_category(category@);
    let mut i: usize = 0;
    while i < groups.len()
        invariant
            i <= groups.len(),
            groups@ == before,
            before == old(groups)@,
            views == group_views(before),
            test == of_category(category@),
            forall|j: int| 0 <= j < i ==> !test(#[trigger] views[j]),
        decreases groups.len() - i,
    {
        if same_text(groups[i].category, category) {
            proof {
                crate::list::first_index_is_first(views, test);
                assert(test(views[i as int]));
                let found = crate::list::first_index(views, test);
                assert(found is Some) by {
                    if found is None {
                        assert(!test(views[i as int]));
                    }
                }
                if found->0 < i {
                    assert(!test(views[found->0]));
                }
                if found->0 > i {
                    assert(!test(views[i as int]));
                }
            }
            groups[i].members.push(at);
            proof {
                assert(groups@[i as int].members@.map_values(|m: usize| m as int)
                    =~= before[i as int].members@.map_values(|m: usize| m as int).push(at as int));
                assert(group_views(groups@) =~= views.update(
                    i as int,
                    (category@, views[i as int].1.push(at as int)),
                ));
            }
            return ;
        }
        i = i + 1;
    }
    let mut members: Vec<usize> = Vec::new();
    members.push(at);
    groups.push(TemplateGroup { category, members });
    proof {
        crate::list::first_index_is_first(views, test);
        let found = crate::list::first_index(views, test);
        assert(found is None) by {
            if found is Some {
                assert(test(views[found->0]));
            }
        }
        assert(groups@.last().members@.map_values(|m: usize| m as int) =~= seq![at as int]);
        assert(group_views(groups@) =~= views.push((category@, seq![at as int])));
    }
}

/// The templates by category, in the order in which the categories first occur.
pub fn template_groups(templates: &Vec<QueryTemplate>) -> (res: Vec<TemplateGroup>)
    ensures
        group_views(res@) == by_category(templates@),
{
    let mut groups: Vec<TemplateGroup> = Vec::new();
    let mut i: usize = 0;
    proof {
        assert(templates@.take(0) =~= Seq::empty());
        assert(group_views(groups@) =~= by_category(templates@.take(0)));
    }
    while i < templates.len()
        invariant
            i <= templates.len(),
            group_views(groups@) == by_category(templates@.take(i as int)),
        decreases templates.len() - i,
    {
        proof {
            assert(templates@.take(i + 1).drop_last() =~= templates@.take(i as int));
            assert(templates@.take(i + 1).last() == templates@[i as int]);
        }
        add_to_group(&mut groups, templates[i].category, i);
        i = i + 1;
    }
    proof {
        assert(templates@.take(i as int) =~= templates@);
    }
    groups
}

// ==================== The table ====================

/// A column of the table.
#[derive(Debug)]
pub struct ResultColumn {
    pub key: String,
    pub name: String,
    pub right_aligned: bool,
}

/// `column` is the data column at a position.
pub open spec fn is_data_column(column: ResultColumn, result: QueryResultData, at: int) -> bool {
    &&& column.key@ == "c"@ + text::decimal(at as nat)
    &&& column.name@ == result.columns@[at]@
    &&& column.right_aligned == (at < result.numeric@.len() && result.numeric@[at])
}

/// The columns of the table: the row numbers, then the data columns. Numbers
/// stand to the right.
pub fn result_columns(result: &QueryResultData) -> (res: Vec<ResultColumn>)
    ensures
        res@.len() == result.columns@.len() + 1,
        res@[0].key@ == "#"@,
        res@[0].name@ == "#"@,
        res@[0].right_aligned,
        forall|i: int|
            #![trigger res@[i]]
            1 <= i < res@.len() ==> is_data_column(res@[i], *result, i - 1),
{
    let mut columns: Vec<ResultColumn> = Vec::new();
    columns.push(
        ResultColumn {
            key: INDEX_COLUMN_HEADER.to_owned(),
            name: INDEX_COLUMN_HEADER.to_owned(),
            right_aligned: true,
        },
    );
    let mut i: usize = 0;
    while i < result.columns.len()
        invariant
            i <= result.columns.len(),
            columns@.len() == i + 1,
            columns@[0].key@ == "#"@,
            columns@[0].name@ == "#"@,
            columns@[0].right_aligned,
            forall|k: int|
                #![trigger columns@[k]]
                1 <= k < columns@.len() ==> is_data_column(columns@[k], *result, k - 1),
        decreases result.columns.len() - i,
    {
        let right_aligned: bool = if i < result.numeric.len() {
            result.numeric[i]
        } else {
            false
        };
        columns.push(
            ResultColumn {
                key: concat2("c", &decimal_text(i as u64)),
                name: result.columns[i].clone(),
                right_aligned,
            },
        );
        i = i + 1;
    }
    columns
}

/// A cell, and whether it stands for no value.
#[derive(Debug)]
pub struct ResultCell {
    pub text: String,
    pub muted: bool,
}

/// What the table holds at a row and a column: the row's number in the first
/// column, else the value, or `NULL` where there is none.
pub open spec fn cell_at(result: QueryResultData, row: int, column: int) -> (Seq<char>, bool) {
    if column == 0 {
        (text::decimal((row + 1) as nat), true)
    } else if row < result.rows@.len() && column - 1 < result.rows@[row]@.len() {
        match result.rows@[row]@[column - 1] {
            Some(value) => (value@, false),
            None => ("NULL"@, true),
        }
    } else {
        ("NULL"@, true)
    }
}

/// The cell at a row and a column of the table.
pub fn result_cell(result: &QueryResultData, row: usize, column: usize) -> (res: ResultCell)
    requires
        row < u64::MAX,
    ensures
        (res.text@, res.muted) == cell_at(*result, row as int, column as int),
{
    if column == 0 {
        return ResultCell { text: decimal_text(row as u64 + 1), muted: true };
    }
    if row < result.rows.len() {
        let cells = &result.rows[row];
        if column - LEADING_COLUMNS < cells.len() {
            if let Some(value) = &cells[column - LEADING_COLUMNS] {
                return ResultCell { text: value.clone(), muted: false };
            }
        }
    }
    ResultCell { text: "NULL".to_owned(), muted: true }
}

} // verus!
