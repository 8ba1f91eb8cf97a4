//! Which table is opened, what an import does, and which rows are written.
use vstd::prelude::*;

use crate::identifiers;
use crate::lance_memory;
use crate::lance_memory::{
    Column, ItemModel, MemoryItem, MemoryMigrationProgress, MigrationModel,
    MigrationStats, StoredMemory, StoredModel, SummaryAdmission,
};
use crate::memory_summary;
use crate::ordering;
use crate::text;

verus! {

/// What is known of a vector without its numbers.
#[derive(Debug, Clone, Copy, PartialEq, Eq, Structural)]
pub struct VectorShape {
    pub len: usize,
    pub all_finite: bool,
}

/// The values of a column of a batch.
#[derive(Debug)]
pub enum ColumnValues {
    /// Texts, some of which may be missing.
    Texts(Vec<Option<String>>),
    /// Vectors, some of which may be missing.
    Vectors(Vec<Option<VectorShape>>),
    /// Values of another kind.
    Other,
}

/// A named column of a batch.
#[derive(Debug)]
pub struct BatchColumn {
    pub name: String,
    pub values: ColumnValues,
}

/// Some rows of a table, column by column.
#[derive(Debug)]
pub struct RowBatch {
    pub columns: Vec<BatchColumn>,
    pub rows: usize,
}

/// The place of the first column of a name, from `from` on.
pub open spec fn column_from(columns: Seq<BatchColumn>, name: Seq<char>, from: int) -> Option<int>
    decreases columns.len() - from,
{
    if from < 0 || from >= columns.len() {
        None
    } else if columns[from].name@ == name {
        Some(from)
    } else {
        column_from(columns, name, from + 1)
    }
}

impl RowBatch {
    /// Every column has a value for every row.
    pub open spec fn wf(self) -> bool {
        forall|i: int|
            0 <= i < self.columns@.len() ==> match (#[trigger] self.columns@[i]).values {
                ColumnValues::Texts(values) => values@.len() == self.rows,
                ColumnValues::Vectors(values) => values@.len() == self.rows,
                ColumnValues::Other => true,
            }
    }

    /// The values of the first column of a name.
    pub open spec fn values_of(self, name: Seq<char>) -> Option<ColumnValues> {
        match column_from(self.columns@, name, 0) {
            Some(at) => Some(self.columns@[at].values),
            None => None,
        }
    }

    /// The text of a row in a column of texts.
    pub open spec fn text_cell(self, name: Seq<char>, row: int) -> Option<Seq<char>> {
        match self.values_of(name) {
            Some(ColumnValues::Texts(values)) => text::opt_view(values@[row]),
            _ => None,
        }
    }

    /// What is wrong with a column that may be missing.
    pub open spec fn optional_error(self, name: Seq<char>) -> Option<Seq<char>> {
        match self.values_of(name) {
            None => None,
            Some(ColumnValues::Texts(_)) => None,
            Some(_) => Some("Invalid "@ + name + " column"@),
        }
    }

    /// What is wrong with a column that has to be there.
    pub open spec fn required_error(self, name: Seq<char>) -> Option<Seq<char>> {
        match self.values_of(name) {
            None => Some("Missing "@ + name + " column"@),
            Some(ColumnValues::Texts(_)) => None,
            Some(_) => Some("Invalid "@ + name + " column"@),
        }
    }

    /// The text of a row that has to be there, or the empty one.
    pub open spec fn required_text(self, name: Seq<char>, row: int) -> Seq<char> {
        match self.text_cell(name, row) {
            Some(t) => t,
            None => Seq::empty(),
        }
    }

    fn find_column(&self, name: &str) -> (res: Option<usize>)
        ensures
            match res {
                Some(at) => column_from(self.columns@, name@, 0) == Some(at as int) && at
                    < self.columns@.len(),
                None => column_from(self.columns@, name@, 0) is None,
            },
    {
        let mut i: usize = 0;
        while i < self.columns.len()
            invariant
                i <= self.columns@.len(),
                column_from(self.columns@, name@, 0) == column_from(
                    self.columns@,
                    name@,
                    i as int,
                ),
            decreases self.columns@.len() - i,
        {
            if text::same_text(self.columns[i].name.as_str(), name) {
                return Some(i);
            }
            i += 1;
        }
        None
    }

    fn optional_cell(&self, name: &str, row: usize) -> (res: Result<Option<String>, String>)
        requires
            self.wf(),
            row < self.rows,
        ensures
            match self.optional_error(name@) {
                Some(message) => res is Err && res->Err_0@ == message,
                None => res is Ok && text::opt_view(res->Ok_0) == self.text_cell(name@, row as int),
            },
    {
        match self.find_column(name) {
            Some(at) => match &self.columns[at].values {
                ColumnValues::Texts(values) => Ok(lance_memory::duplicate_option(&values[row])),
                _ => Err(column_message("Invalid ", name)),
            },
            None => Ok(None),
        }
    }

    fn required_cell(&self, name: &str, row: usize) -> (res: Result<String, String>)
        requires
            self.wf(),
            row < self.rows,
        ensures
            match self.required_error(name@) {
                Some(message) => res is Err && res->Err_0@ == message,
                None => res is Ok && res->Ok_0@ == self.required_text(name@, row as int),
            },
    {
        match self.find_column(name) {
            Some(at) => match &self.columns[at].values {
                ColumnValues::Texts(values) => match &values[row] {
                    Some(t) => Ok(t.clone()),
                    None => Ok(String::new()),
                },
                _ => Err(column_message("Invalid ", name)),
            },
            None => Err(column_message("Missing ", name)),
        }
    }
}

fn column_message(problem: &str, name: &str) -> (res: String)
    ensures
        res@ == problem@ + name@ + " column"@,
{
    let mut message = problem.to_owned();
    text::append_text(&mut message, name);
    text::append_text(&mut message, " column");
    message
}

/// The first of two problems.
pub open spec fn first_problem(a: Option<Seq<char>>, b: Option<Seq<char>>) -> Option<Seq<char>> {
    if a is Some {
        a
    } else {
        b
    }
}

impl RowBatch {
    /// What keeps a row from being read: the first column, in the order of the
    /// table, that is missing or of another kind.
    pub open spec fn stored_error(self) -> Option<Seq<char>> {
        first_problem(
            self.required_error("id"@),
            first_problem(
                self.required_error("document"@),
                first_problem(
                    self.required_error("memory_type"@),
                    first_problem(
                        self.required_error("source"@),
                        first_problem(
                            self.required_error("timestamp"@),
                            first_problem(
                                self.optional_error("user_id"@),
                                first_problem(
                                    self.optional_error("summary"@),
                                    first_problem(
                                        self.optional_error("summary_status"@),
                                        first_problem(
                                            self.optional_error("summary_model"@),
                                            first_problem(
                                                self.optional_error("summary_prompt_version"@),
                                                self.optional_error("vector_source"@),
                                            ),
                                        ),
                                    ),
                                ),
                            ),
                        ),
                    ),
                ),
            ),
        )
    }

    /// The memory of a row.
    pub open spec fn item_of(self, row: int) -> ItemModel {
        ItemModel {
            id: self.required_text("id"@, row),
            document: self.required_text("document"@, row),
            memory_type: self.required_text("memory_type"@, row),
            source: self.required_text("source"@, row),
            timestamp: self.required_text("timestamp"@, row),
            user_id: self.text_cell("user_id"@, row),
        }
    }

    /// The row with the state of its summary.
    pub open spec fn stored_of(self, row: int) -> StoredModel {
        StoredModel {
            item: self.item_of(row),
            summary: self.text_cell("summary"@, row),
            summary_status: self.text_cell("summary_status"@, row),
            summary_model: self.text_cell("summary_model"@, row),
            summary_prompt_version: self.text_cell("summary_prompt_version"@, row),
            vector_source: self.text_cell("vector_source"@, row),
        }
    }
}

/// Reads one row of a batch. Missing texts of the required columns are empty;
/// the columns of the summary may be missing altogether.
pub fn batch_row_to_stored(batch: &RowBatch, row: usize) -> (res: Result<StoredMemory, String>)
    requires
        batch.wf(),
        row < batch.rows,
    ensures
        match batch.stored_error() {
            Some(message) => res is Err && res->Err_0@ == message,
            None => res is Ok && res->Ok_0@ == batch.stored_of(row as int),
        },
{
    let id = batch.required_cell("id", row)?;
    let document = batch.required_cell("document", row)?;
    let memory_type = batch.required_cell("memory_type", row)?;
    let source = batch.required_cell("source", row)?;
    let timestamp = batch.required_cell("timestamp", row)?;
    let user_id = batch.optional_cell("user_id", row)?;
    let summary = batch.optional_cell("summary", row)?;
    let summary_status = batch.optional_cell("summary_status", row)?;
    let summary_model = batch.optional_cell("summary_model", row)?;
    let summary_prompt_version = batch.optional_cell("summary_prompt_version", row)?;
    let vector_source = batch.optional_cell("vector_source", row)?;
    Ok(
        StoredMemory {
            id,
            document,
            memory_type,
            source,
            timestamp,
            user_id,
            summary,
            summary_status,
            summary_model,
            summary_prompt_version,
            vector_source,
        },
    )
}

impl RowBatch {
    /// What is wrong with a column of texts of the older table.
    pub open spec fn legacy_error(self, name: Seq<char>) -> Option<Seq<char>> {
        match self.values_of(name) {
            None => Some("Missing legacy "@ + name + " column"@),
            Some(ColumnValues::Texts(_)) => None,
            Some(_) => Some("Invalid legacy "@ + name + " column"@),
        }
    }

    /// What is wrong with the column of vectors of the older table.
    pub open spec fn legacy_vector_error(self) -> Option<Seq<char>> {
        match self.values_of("vector"@) {
            None => Some("Missing legacy vector column"@),
            Some(ColumnValues::Vectors(_)) => None,
            Some(_) => Some("Invalid legacy vector column"@),
        }
    }

    /// What is wrong with the columns of a batch of the older table.
    pub open spec fn legacy_columns_error(self) -> Option<Seq<char>> {
        first_problem(
            self.legacy_error("id"@),
            first_problem(
                self.legacy_error("document"@),
                first_problem(
                    self.legacy_error("memory_type"@),
                    first_problem(
                        self.legacy_error("source"@),
                        first_problem(
                            self.legacy_error("timestamp"@),
                            first_problem(self.legacy_error("user_id"@), self.legacy_vector_error()),
                        ),
                    ),
                ),
            ),
        )
    }

    /// The vectors of a batch of the older table.
    pub open spec fn vectors(self) -> Seq<Option<VectorShape>> {
        match self.values_of("vector"@) {
            Some(ColumnValues::Vectors(values)) => values@,
            _ => Seq::empty(),
        }
    }

    fn check_legacy(&self, name: &str) -> (res: Result<(), String>)
        ensures
            match self.legacy_error(name@) {
                Some(message) => res is Err && res->Err_0@ == message,
                None => res is Ok,
            },
    {
        match self.find_column(name) {
            Some(at) => match &self.columns[at].values {
                ColumnValues::Texts(_) => Ok(()),
                _ => Err(column_message("Invalid legacy ", name)),
            },
            None => Err(column_message("Missing legacy ", name)),
        }
    }

    fn checked_text(&self, name: &str, row: usize) -> (res: Option<String>)
        requires
            self.wf(),
            row < self.rows,
        ensures
            text::opt_view(res) == self.text_cell(name@, row as int),
    {
        match self.find_column(name) {
            Some(at) => match &self.columns[at].values {
                ColumnValues::Texts(values) => lance_memory::duplicate_option(&values[row]),
                _ => None,
            },
            None => None,
        }
    }

    fn checked_item(&self, row: usize) -> (res: MemoryItem)
        requires
            self.wf(),
            row < self.rows,
        ensures
            res@ == self.item_of(row as int),
    {
        MemoryItem {
            id: or_empty(self.checked_text("id", row)),
            document: or_empty(self.checked_text("document", row)),
            memory_type: or_empty(self.checked_text("memory_type", row)),
            source: or_empty(self.checked_text("source", row)),
            timestamp: or_empty(self.checked_text("timestamp", row)),
            user_id: self.checked_text("user_id", row),
        }
    }
}

fn or_empty(value: Option<String>) -> (res: String)
    ensures
        res@ == (match text::opt_view(value) {
            Some(t) => t,
            None => Seq::empty(),
        }),
{
    match value {
        Some(t) => t,
        None => String::new(),
    }
}

impl RowBatch {
    /// Whether the column at a place holds texts.
    pub open spec fn texts_at(self, at: int) -> bool {
        self.columns@[at].values is Texts
    }

    /// The text of a row in the column at a place.
    pub open spec fn text_at(self, at: int, row: int) -> Option<Seq<char>> {
        match self.columns@[at].values {
            ColumnValues::Texts(values) => text::opt_view(values@[row]),
            _ => None,
        }
    }

    /// The text of a row in the column at a place, or the empty one.
    pub open spec fn text_or_empty(self, at: int, row: int) -> Seq<char> {
        match self.text_at(at, row) {
            Some(t) => t,
            None => Seq::empty(),
        }
    }

    /// What keeps the rows of a batch from being listed.
    pub open spec fn listing_error(self) -> Option<Seq<char>> {
        if !self.texts_at(0) {
            Some("Invalid id column"@)
        } else if !self.texts_at(1) {
            Some("Invalid doc column"@)
        } else if !self.texts_at(2) {
            Some("Invalid type column"@)
        } else if !self.texts_at(3) {
            Some("Invalid src column"@)
        } else if !self.texts_at(4) {
            Some("Invalid ts column"@)
        } else {
            None
        }
    }

    /// The memory of a row, by the places of the columns.
    pub open spec fn listed_item(self, row: int) -> ItemModel {
        ItemModel {
            id: self.text_or_empty(0, row),
            document: self.text_or_empty(1, row),
            memory_type: self.text_or_empty(2, row),
            source: self.text_or_empty(3, row),
            timestamp: self.text_or_empty(4, row),
            user_id: self.text_at(5, row),
        }
    }

    fn holds_texts(&self, at: usize) -> (res: bool)
        requires
            at < self.columns@.len(),
        ensures
            res == self.texts_at(at as int),
    {
        match &self.columns[at].values {
            ColumnValues::Texts(_) => true,
            _ => false,
        }
    }

    fn placed_text(&self, at: usize, row: usize) -> (res: Option<String>)
        requires
            self.wf(),
            at < self.columns@.len(),
            row < self.rows,
        ensures
            text::opt_view(res) == self.text_at(at as int, row as int),
    {
        match &self.columns[at].values {
            ColumnValues::Texts(values) => lance_memory::duplicate_option(&values[row]),
            _ => None,
        }
    }
}

/// The memories of a batch of the whole table, in order. The columns are known
/// by their places.
pub fn batch_to_items(batch: &RowBatch) -> (res: Result<Vec<MemoryItem>, String>)
    requires
        batch.wf(),
        batch.columns@.len() >= 6,
    ensures
        match batch.listing_error() {
            Some(message) => res is Err && res->Err_0@ == message,
            None => res is Ok && res->Ok_0@.len() == batch.rows && forall|row: int|
                0 <= row < batch.rows ==> (#[trigger] res->Ok_0@[row])@ == batch.listed_item(row),
        },
{
    if !batch.holds_texts(0) {
        return Err("Invalid id column".to_owned());
    }
    if !batch.holds_texts(1) {
        return Err("Invalid doc column".to_owned());
    }
    if !batch.holds_texts(2) {
        return Err("Invalid type column".to_owned());
    }
    if !batch.holds_texts(3) {
        return Err("Invalid src column".to_owned());
    }
    if !batch.holds_texts(4) {
        return Err("Invalid ts column".to_owned());
    }
    let mut items: Vec<MemoryItem> = Vec::new();
    let mut row: usize = 0;
    while row < batch.rows
        invariant
            batch.wf(),
            batch.columns@.len() >= 6,
            row <= batch.rows,
            items@.len() == row,
            forall|k: int|
                0 <= k < row ==> (#[trigger] items@[k])@ == batch.listed_item(k),
        decreases batch.rows - row,
    {
        items.push(
            MemoryItem {
                id: or_empty(batch.placed_text(0, row)),
                document: or_empty(batch.placed_text(1, row)),
                memory_type: or_empty(batch.placed_text(2, row)),
                source: or_empty(batch.placed_text(3, row)),
                timestamp: or_empty(batch.placed_text(4, row)),
                user_id: batch.placed_text(5, row),
            },
        );
        row += 1;
    }
    Ok(items)
}

/// The first thing wrong with some vectors, from `from` on.
pub open spec fn vectors_error_from(vectors: Seq<Option<VectorShape>>, from: int) -> Option<
    Seq<char>,
>
    decreases vectors.len() - from,
{
    if from < 0 || from >= vectors.len() {
        None
    } else {
        first_problem(
            match vectors[from] {
                Some(v) => lance_memory::vector_error(v.len as int, v.all_finite),
                None => None,
            },
            vectors_error_from(vectors, from + 1),
        )
    }
}

/// The first thing wrong with some vectors. A missing vector is in order.
pub open spec fn vectors_error(vectors: Seq<Option<VectorShape>>) -> Option<Seq<char>> {
    vectors_error_from(vectors, 0)
}

/// Refuses the first vector of the wrong length or with values that are not
/// finite.
pub fn validate_vectors(vectors: &Vec<Option<VectorShape>>) -> (res: Result<(), String>)
    ensures
        match vectors_error(vectors@) {
            Some(message) => res is Err && res->Err_0@ == message,
            None => res is Ok,
        },
{
    let mut i: usize = 0;
    while i < vectors.len()
        invariant
            i <= vectors@.len(),
            vectors_error(vectors@) == vectors_error_from(vectors@, i as int),
        decreases vectors@.len() - i,
    {
        if let Some(v) = vectors[i] {
            lance_memory::validate_vector(v.len, v.all_finite)?;
        }
        i += 1;
    }
    Ok(())
}

/// A vector is accepted if and only if it has the length of the table and
/// finite values; missing vectors never stand in the way.
pub proof fn law_only_sound_vectors_pass(vectors: Seq<Option<VectorShape>>)
    ensures
        vectors_error(vectors) is None <==> forall|i: int|
            0 <= i < vectors.len() ==> match #[trigger] vectors[i] {
                Some(v) => v.len == lance_memory::VECTOR_DIM && v.all_finite,
                None => true,
            },
{
    lemma_sound_from(vectors, 0);
}

proof fn lemma_sound_from(vectors: Seq<Option<VectorShape>>, from: int)
    requires
        0 <= from <= vectors.len(),
    ensures
        vectors_error_from(vectors, from) is None <==> forall|i: int|
            from <= i < vectors.len() ==> match #[trigger] vectors[i] {
                Some(v) => v.len == lance_memory::VECTOR_DIM && v.all_finite,
                None => true,
            },
    decreases vectors.len() - from,
{
    if from < vectors.len() {
        lemma_sound_from(vectors, from + 1);
        let here = vectors[from];
    }
}

/// Reads a batch of the older table: the memories, and what is known of their
/// vectors.
pub fn legacy_batch_to_items(batch: &RowBatch) -> (res: Result<
    (Vec<MemoryItem>, Vec<Option<VectorShape>>),
    String,
>)
    requires
        batch.wf(),
    ensures
        match first_problem(batch.legacy_columns_error(), vectors_error(batch.vectors())) {
            Some(message) => res is Err && res->Err_0@ == message,
            None => {
                &&& res is Ok
                &&& (res->Ok_0).0@.len() == batch.rows
                &&& forall|i: int|
                    0 <= i < batch.rows ==> (#[trigger] (res->Ok_0).0@[i])@ == batch.item_of(i)
                &&& (res->Ok_0).1@ == batch.vectors()
            },
        },
{
    batch.check_legacy("id")?;
    batch.check_legacy("document")?;
    batch.check_legacy("memory_type")?;
    batch.check_legacy("source")?;
    batch.check_legacy("timestamp")?;
    batch.check_legacy("user_id")?;
    let at: usize = match batch.find_column("vector") {
        Some(place) => place,
        None => {
            return Err("Missing legacy vector column".to_owned());
        },
    };
    match &batch.columns[at].values {
        ColumnValues::Vectors(values) => {
            validate_vectors(values)?;
            let mut items: Vec<MemoryItem> = Vec::new();
            let mut vectors: Vec<Option<VectorShape>> = Vec::new();
            let mut row: usize = 0;
            while row < batch.rows
                invariant
                    row <= batch.rows,
                    batch.wf(),
                    values@.len() == batch.rows,
                    items@.len() == row,
                    forall|i: int| 0 <= i < row ==> (#[trigger] items@[i])@ == batch.item_of(i),
                    vectors@ == values@.take(row as int),
                decreases batch.rows - row,
            {
                items.push(batch.checked_item(row));
                vectors.push(values[row]);
                row += 1;
                assert(values@.take(row as int) == values@.take(row - 1).push(values@[row - 1]));
            }
            assert(values@.take(row as int) == values@);
            Ok((items, vectors))
        },
        _ => Err("Invalid legacy vector column".to_owned()),
    }
}

/// How the table is opened.
#[derive(Debug, Clone, Copy, PartialEq, Eq, Structural)]
pub enum TablePlan {
    /// The current table is used.
    UseActive,
    /// The older table is imported into the current one, which is then used.
    ImportIntoActive,
    /// The older table has the columns of the current one, and is used.
    UseLegacy,
    /// A table is created, and the older one is imported into it.
    CreateAndImport,
    /// A table is created.
    Create,
}

/// How the table is opened. `active` and `legacy` are the columns of the two
/// tables, where they exist; `imported` tells whether an import was completed.
pub open spec fn table_plan(
    active: Option<Seq<lance_memory::ColumnModel>>,
    legacy: Option<Seq<lance_memory::ColumnModel>>,
    imported: bool,
) -> Result<TablePlan, Seq<char>> {
    match (active, legacy) {
        (Some(columns), _) if !lance_memory::is_memory_v2(columns) => Err(
            "Existing memory-v2 table has an incompatible schema"@,
        ),
        (Some(_), Some(older)) => if !imported && !lance_memory::is_memory_v2(older) {
            Ok(TablePlan::ImportIntoActive)
        } else {
            Ok(TablePlan::UseActive)
        },
        (Some(_), None) => Ok(TablePlan::UseActive),
        (None, Some(older)) => if lance_memory::is_memory_v2(older) {
            Ok(TablePlan::UseLegacy)
        } else {
            Ok(TablePlan::CreateAndImport)
        },
        (None, None) => Ok(TablePlan::Create),
    }
}

pub open spec fn opt_columns(columns: Option<Vec<Column>>) -> Option<
    Seq<lance_memory::ColumnModel>,
> {
    match columns {
        Some(list) => Some(lance_memory::column_views(list@)),
        None => None,
    }
}

/// Decides how the table is opened.
pub fn get_or_create_memories_table(
    active: &Option<Vec<Column>>,
    legacy: &Option<Vec<Column>>,
    imported: bool,
) -> (res: Result<TablePlan, String>)
    ensures
        match table_plan(opt_columns(*active), opt_columns(*legacy), imported) {
            Ok(plan) => res == Ok::<TablePlan, String>(plan),
            Err(message) => res is Err && res->Err_0@ == message,
        },
{
    match active {
        Some(columns) => {
            if !lance_memory::schema_matches_memory_v2(columns) {
                return Err("Existing memory-v2 table has an incompatible schema".to_owned());
            }
            match legacy {
                Some(older) => {
                    if !imported && lance_memory::detect_memory_schema_version(older)
                        < lance_memory::MEMORY_SCHEMA_VERSION {
                        Ok(TablePlan::ImportIntoActive)
                    } else {
                        Ok(TablePlan::UseActive)
                    }
                },
                None => Ok(TablePlan::UseActive),
            }
        },
        None => match legacy {
            Some(older) => {
                if lance_memory::schema_matches_memory_v2(older) {
                    Ok(TablePlan::UseLegacy)
                } else {
                    Ok(TablePlan::CreateAndImport)
                }
            },
            None => Ok(TablePlan::Create),
        },
    }
}

/// The older table is never written: it is used only where it has the columns
/// of the current one and there is no other table. And once an import is
/// completed it is not repeated.
pub proof fn law_the_older_table_is_only_read(
    active: Option<Seq<lance_memory::ColumnModel>>,
    legacy: Option<Seq<lance_memory::ColumnModel>>,
    imported: bool,
)
    ensures
        table_plan(active, legacy, imported) == Ok::<TablePlan, Seq<char>>(TablePlan::UseLegacy)
            ==> active is None && legacy is Some && lance_memory::is_memory_v2(legacy->0),
        imported && active is Some ==> table_plan(active, legacy, imported) != Ok::<
            TablePlan,
            Seq<char>,
        >(TablePlan::ImportIntoActive),
{
}

/// What an explicit import reports. `legacy` are the columns of the older
/// table, where there is one; the counts are those of the current table before
/// and after.
pub fn import_legacy_memories(
    legacy: &Option<Vec<Column>>,
    count_before: usize,
    count_after: usize,
) -> (res: MigrationStats)
    ensures
        res.success,
        match opt_columns(*legacy) {
            None => res.imported_count == 0 && res.message@
                == "Legacy memories table not found; nothing to import"@,
            Some(columns) => if lance_memory::is_memory_v2(columns) {
                res.imported_count == 0 && res.message@
                    == "Memories table already uses memory-v2 schema"@
            } else {
                &&& res.imported_count == (if count_after >= count_before {
                    count_after - count_before
                } else {
                    0
                })
                &&& res.message@
                    == "Legacy memories imported into memory-v2; source retained read-only"@
            },
        },
{
    match legacy {
        None => MigrationStats {
            success: true,
            imported_count: 0,
            message: "Legacy memories table not found; nothing to import".to_owned(),
        },
        Some(columns) => {
            if lance_memory::schema_matches_memory_v2(columns) {
                return MigrationStats {
                    success: true,
                    imported_count: 0,
                    message: "Memories table already uses memory-v2 schema".to_owned(),
                };
            }
            let imported_count: usize = if count_after >= count_before {
                count_after - count_before
            } else {
                0
            };
            MigrationStats {
                success: true,
                imported_count,
                message: "Legacy memories imported into memory-v2; source retained read-only".to_owned(),
            }
        },
    }
}

/// A row on its way from the older table. The vector is known by a number
/// under which the caller keeps it.
#[derive(Debug)]
pub struct ImportRow {
    pub item: MemoryItem,
    pub vector: Option<u64>,
}

/// A row on its way from the older table.
pub struct ImportRowModel {
    pub item: ItemModel,
    pub vector: Option<u64>,
}

impl View for ImportRow {
    type V = ImportRowModel;

    open spec fn view(&self) -> ImportRowModel {
        ImportRowModel { item: self.item@, vector: self.vector }
    }
}

pub open spec fn import_views(rows: Seq<ImportRow>) -> Seq<ImportRowModel> {
    rows.map_values(|row: ImportRow| row@)
}

/// What is handed to the journal of a row: everything but the user.
#[derive(Debug)]
pub struct CompatMemory {
    pub id: String,
    pub memory_type: String,
    pub source: String,
    pub timestamp: String,
    pub document: String,
}

/// Whether a journal entry is that of a memory.
pub open spec fn compat_of(entry: CompatMemory, item: ItemModel) -> bool {
    &&& entry.id@ == item.id
    &&& entry.memory_type@ == item.memory_type
    &&& entry.source@ == item.source
    &&& entry.timestamp@ == item.timestamp
    &&& entry.document@ == item.document
}

/// The journal entry of a memory.
pub fn compat_memory(item: &MemoryItem) -> (res: CompatMemory)
    ensures
        compat_of(res, item@),
{
    CompatMemory {
        id: item.id.clone(),
        memory_type: item.memory_type.clone(),
        source: item.source.clone(),
        timestamp: item.timestamp.clone(),
        document: item.document.clone(),
    }
}

/// The rows of a chunk that have a vector.
pub open spec fn embedded(rows: Seq<ImportRow>) -> Seq<bool> {
    rows.map_values(|row: ImportRow| row.vector is Some)
}

/// The journal entries of a chunk of rows, and the identifiers and numbers of
/// those vectors that are there.
pub fn chunk_entries(rows: &Vec<ImportRow>) -> (res: (Vec<CompatMemory>, Vec<(String, u64)>))
    ensures
        res.0@.len() == rows@.len(),
        forall|i: int| 0 <= i < rows@.len() ==> compat_of(#[trigger] res.0@[i], rows@[i].item@),
        res.1@.len() == ordering::places(embedded(rows@)).len(),
        forall|k: int|
            0 <= k < res.1@.len() ==> (#[trigger] res.1@[k]).0@
                == rows@[ordering::places(embedded(rows@))[k]].item@.id && Some(res.1@[k].1)
                == rows@[ordering::places(embedded(rows@))[k]].vector,
{
    let mut entries: Vec<CompatMemory> = Vec::new();
    let mut embeddings: Vec<(String, u64)> = Vec::new();
    let ghost flags = embedded(rows@);
    let mut i: usize = 0;
    while i < rows.len()
        invariant
            i <= rows@.len(),
            flags == embedded(rows@),
            entries@.len() == i,
            forall|k: int| 0 <= k < i ==> compat_of(#[trigger] entries@[k], rows@[k].item@),
            embeddings@.len() == ordering::places(flags.take(i as int)).len(),
            forall|k: int|
                0 <= k < embeddings@.len() ==> (#[trigger] embeddings@[k]).0@
                    == rows@[ordering::places(flags.take(i as int))[k]].item@.id && Some(
                    embeddings@[k].1,
                ) == rows@[ordering::places(flags.take(i as int))[k]].vector,
        decreases rows@.len() - i,
    {
        let ghost before = embeddings@;
        entries.push(compat_memory(&rows[i].item));
        if let Some(number) = rows[i].vector {
            embeddings.push((rows[i].item.id.clone(), number));
        }
        i += 1;
        proof {
            assert(flags.take(i as int).drop_last() == flags.take(i - 1));
            assert(flags.take(i as int).last() == flags[i - 1]);
            assert forall|k: int| 0 <= k < embeddings@.len() implies (#[trigger] embeddings@[k]).0@
                == rows@[ordering::places(flags.take(i as int))[k]].item@.id && Some(
                embeddings@[k].1,
            ) == rows@[ordering::places(flags.take(i as int))[k]].vector by {
                if k < before.len() {
                    assert(embeddings@[k] == before[k]);
                }
            }
        }
    }
    assert(flags.take(i as int) == flags);
    (entries, embeddings)
}

/// The state of an import: the rows read and not yet handed out, and the rows
/// that the journal has taken.
pub struct ImportRun {
    pending: Vec<ImportRow>,
    committed: Vec<ImportRow>,
    progress: MemoryMigrationProgress,
}

/// The state of an import.
pub struct ImportState {
    pub pending: Seq<ImportRowModel>,
    pub committed: Seq<ImportRowModel>,
    pub progress: MigrationModel,
}

impl ImportState {
    /// The rows of the older table that were seen, in order.
    pub open spec fn seen(self) -> Seq<ImportRowModel> {
        self.committed + self.pending
    }

    /// The state after the first `count` rows were handed out.
    pub open spec fn handing(self, count: int) -> ImportState {
        ImportState { pending: self.pending.skip(count), ..self }
    }

    /// The state after the journal took some rows.
    pub open spec fn committing(self, rows: Seq<ImportRowModel>) -> ImportState {
        ImportState {
            committed: self.committed + rows,
            progress: self.progress.updated((self.committed.len() + rows.len()) as usize),
            ..self
        }
    }
}

impl View for ImportRun {
    type V = ImportState;

    closed spec fn view(&self) -> ImportState {
        ImportState {
            pending: import_views(self.pending@),
            committed: import_views(self.committed@),
            progress: self.progress@,
        }
    }
}

impl ImportRun {
    /// An import of so many rows begins.
    pub fn new(total: usize) -> (res: ImportRun)
        ensures
            res@.pending.len() == 0,
            res@.committed.len() == 0,
            res@.progress == lance_memory::idle_migration().begun(total),
    {
        let mut progress = MemoryMigrationProgress::default();
        progress.begin(total);
        ImportRun { pending: Vec::new(), committed: Vec::new(), progress }
    }

    /// Takes the rows of a batch.
    pub fn accept(&mut self, rows: Vec<ImportRow>)
        ensures
            final(self)@ == (ImportState {
                pending: old(self)@.pending + import_views(rows@),
                ..old(self)@
            }),
    {
        let ghost before = self.pending@;
        let ghost added = rows@;
        let mut rows = rows;
        self.pending.append(&mut rows);
        assert(import_views(self.pending@) == import_views(before) + import_views(added));
    }

    fn split(&mut self, count: usize) -> (res: Vec<ImportRow>)
        requires
            count <= old(self)@.pending.len(),
        ensures
            import_views(res@) == old(self)@.pending.take(count as int),
            final(self)@ == old(self)@.handing(count as int),
    {
        let ghost all = self.pending@;
        let mut rest = self.pending.split_off(count);
        let mut chunk: Vec<ImportRow> = Vec::new();
        chunk.append(&mut self.pending);
        self.pending.append(&mut rest);
        assert(import_views(chunk@) == import_views(all).take(count as int));
        assert(import_views(self.pending@) == import_views(all).skip(count as int));
        chunk
    }

    /// The next chunk of rows, where there are enough for a full one.
    pub fn next_chunk(&mut self) -> (res: Option<Vec<ImportRow>>)
        ensures
            old(self)@.pending.len() < lance_memory::IMPORT_BATCH_SIZE ==> res is None
                && final(self)@ == old(self)@,
            old(self)@.pending.len() >= lance_memory::IMPORT_BATCH_SIZE ==> res is Some
                && import_views(res->0@) == old(self)@.pending.take(
                lance_memory::IMPORT_BATCH_SIZE as int,
            ) && final(self)@ == old(self)@.handing(lance_memory::IMPORT_BATCH_SIZE as int),
    {
        if self.pending.len() >= lance_memory::IMPORT_BATCH_SIZE {
            Some(self.split(lance_memory::IMPORT_BATCH_SIZE))
        } else {
            None
        }
    }

    /// The rows that are left when there are no more batches.
    pub fn last_chunk(&mut self) -> (res: Option<Vec<ImportRow>>)
        ensures
            old(self)@.pending.len() == 0 ==> res is None && final(self)@ == old(self)@,
            old(self)@.pending.len() > 0 ==> res is Some && import_views(res->0@)
                == old(self)@.pending && final(self)@ == old(self)@.handing(
                old(self)@.pending.len() as int,
            ),
    {
        let count: usize = self.pending.len();
        if count == 0 {
            return None;
        }
        assert(self@.pending.take(count as int) == self@.pending);
        Some(self.split(count))
    }

    /// The journal has taken a chunk.
    pub fn chunk_committed(&mut self, chunk: Vec<ImportRow>)
        requires
            old(self)@.committed.len() + chunk@.len() <= usize::MAX,
        ensures
            final(self)@ == old(self)@.committing(import_views(chunk@)),
    {
        let ghost before = self.committed@;
        let ghost added = chunk@;
        let mut chunk = chunk;
        self.committed.append(&mut chunk);
        assert(import_views(self.committed@) == import_views(before) + import_views(added));
        let processed: usize = self.committed.len();
        self.progress.update(processed);
    }

    /// How far the import has come.
    pub fn snapshot(&self) -> (res: lance_memory::MemoryMigrationStatus)
        ensures
            res@ == self@.progress,
    {
        self.progress.snapshot()
    }

    /// The import ended well. The rows are those for the table.
    pub fn complete(self, total: usize) -> (res: (Vec<ImportRow>, MemoryMigrationProgress))
        ensures
            import_views(res.0@) == self@.committed,
            res.1@ == self@.progress.completed(total),
    {
        let mut progress = self.progress;
        progress.complete(total);
        (self.committed, progress)
    }

    /// The import failed.
    pub fn fail(&mut self, error: &str)
        ensures
            final(self)@ == (ImportState {
                progress: old(self)@.progress.failed(error@),
                ..old(self)@
            }),
    {
        self.progress.fail(error);
    }
}

/// A chunk that is handed out and committed moves its rows, in order, from the
/// rows read to the rows taken: no row is lost or repeated on the way.
pub proof fn law_chunks_keep_every_row(state: ImportState, count: int)
    requires
        0 <= count <= state.pending.len(),
    ensures
        state.handing(count).committing(state.pending.take(count)).seen() == state.seen(),
{
    let after = state.handing(count).committing(state.pending.take(count));
    assert(after.seen() == state.seen());
}

/// The identifiers of some memories.
pub open spec fn item_ids(items: Seq<MemoryItem>) -> Seq<Seq<char>> {
    items.map_values(|item: MemoryItem| item.id@)
}

/// The rows that are written: all of them, or, where existing rows are skipped,
/// the first of each identifier that is not in the table.
pub open spec fn new_rows(
    ids: Seq<Seq<char>>,
    existing: Seq<Seq<char>>,
    skip_existing: bool,
) -> Seq<bool> {
    Seq::new(
        ids.len(),
        |i: int| !skip_existing || (!existing.contains(ids[i]) && !ids.take(i).contains(ids[i])),
    )
}

/// The row that is written for a memory.
pub open spec fn inserted_row(
    item: ItemModel,
    admission: SummaryAdmission,
    has_vector: bool,
    legacy: bool,
) -> StoredModel {
    StoredModel {
        item,
        summary: None,
        summary_status: if legacy {
            Some(lance_memory::SUMMARY_STATUS_LEGACY@)
        } else if admission == SummaryAdmission::Eligible {
            Some(lance_memory::SUMMARY_STATUS_PENDING@)
        } else {
            None
        },
        summary_model: None,
        summary_prompt_version: None,
        vector_source: Some(
            if has_vector {
                lance_memory::VECTOR_SOURCE_DOCUMENT@
            } else {
                lance_memory::VECTOR_SOURCE_NONE@
            },
        ),
    }
}

/// The row that is written for a memory.
pub fn row_to_insert(
    item: &MemoryItem,
    admission: SummaryAdmission,
    has_vector: bool,
    legacy: bool,
) -> (res: StoredMemory)
    ensures
        res@ == inserted_row(item@, admission, has_vector, legacy),
{
    let summary_status = if legacy {
        Some(lance_memory::SUMMARY_STATUS_LEGACY.to_owned())
    } else if admission == SummaryAdmission::Eligible {
        Some(lance_memory::SUMMARY_STATUS_PENDING.to_owned())
    } else {
        None
    };
    let vector_source = if has_vector {
        Some(lance_memory::VECTOR_SOURCE_DOCUMENT.to_owned())
    } else {
        Some(lance_memory::VECTOR_SOURCE_NONE.to_owned())
    };
    StoredMemory {
        id: item.id.clone(),
        document: item.document.clone(),
        memory_type: item.memory_type.clone(),
        source: item.source.clone(),
        timestamp: item.timestamp.clone(),
        user_id: lance_memory::duplicate_option(&item.user_id),
        summary: None,
        summary_status,
        summary_model: None,
        summary_prompt_version: None,
        vector_source,
    }
}

fn ids_of(items: &Vec<MemoryItem>) -> (res: Vec<String>)
    ensures
        text::views(res@) == item_ids(items@),
        res@.len() == items@.len(),
{
    let ghost all = item_ids(items@);
    let mut ids: Vec<String> = Vec::new();
    let mut i: usize = 0;
    while i < items.len()
        invariant
            i <= items@.len(),
            all == item_ids(items@),
            ids@.len() == i,
            text::views(ids@) == all.take(i as int),
        decreases items@.len() - i,
    {
        let ghost before = ids@;
        ids.push(items[i].id.clone());
        i += 1;
        assert(text::views(ids@) == text::views(before).push(all[i - 1]));
        assert(all.take(i as int) == all.take(i - 1).push(all[i - 1]));
    }
    assert(all.take(i as int) == all);
    ids
}

/// Tells which rows are written.
fn new_row_flags(ids: &Vec<String>, existing: &Vec<String>, skip_existing: bool) -> (res: Vec<bool>)
    ensures
        res@ == new_rows(text::views(ids@), text::views(existing@), skip_existing),
{
    let ghost all = text::views(ids@);
    let listed = ordering::listed_in(ids, existing);
    let first = ordering::first_occurrences(ids);
    let mut flags: Vec<bool> = Vec::new();
    let mut i: usize = 0;
    while i < ids.len()
        invariant
            i <= ids@.len(),
            all == text::views(ids@),
            listed@.len() == ids@.len(),
            first@.len() == ids@.len(),
            forall|k: int|
                0 <= k < ids@.len() ==> #[trigger] listed@[k] == text::views(existing@).contains(
                    ids@[k]@,
                ),
            forall|k: int|
                0 <= k < ids@.len() ==> #[trigger] first@[k] == !all.take(k).contains(ids@[k]@),
            flags@ == new_rows(all, text::views(existing@), skip_existing).take(i as int),
        decreases ids@.len() - i,
    {
        assert(all[i as int] == ids@[i as int]@);
        flags.push(!skip_existing || (!listed[i] && first[i]));
        i += 1;
        assert(flags@ == new_rows(all, text::views(existing@), skip_existing).take(i as int));
    }
    assert(new_rows(all, text::views(existing@), skip_existing).take(i as int) == new_rows(
        all,
        text::views(existing@),
        skip_existing,
    ));
    flags
}

/// Plans an insertion: the rows that are written, and for each the place of the
/// memory that it comes from. `existing` are the identifiers in the table,
/// `admissions` tells which memories may be summarised.
pub fn insert_on_table(
    items: &Vec<MemoryItem>,
    vectors: &Vec<Option<VectorShape>>,
    admissions: &Vec<SummaryAdmission>,
    existing: &Vec<String>,
    legacy: bool,
    skip_existing: bool,
) -> (res: Result<(Vec<StoredMemory>, Vec<usize>), String>)
    requires
        admissions@.len() == items@.len(),
    ensures
        vectors@.len() != items@.len() ==> res is Err && res->Err_0@
            == "Vector count mismatch: expected "@ + text::decimal(items@.len() as nat)
            + ", got "@ + text::decimal(vectors@.len() as nat),
        vectors@.len() == items@.len() ==> match vectors_error(vectors@) {
            Some(message) => res is Err && res->Err_0@ == message,
            None => {
                &&& res is Ok
                &&& ordering::indexes((res->Ok_0).1@) == ordering::places(
                    new_rows(item_ids(items@), text::views(existing@), skip_existing),
                )
                &&& (res->Ok_0).0@.len() == (res->Ok_0).1@.len()
                &&& forall|k: int|
                    0 <= k < (res->Ok_0).0@.len() ==> (res->Ok_0).1@[k] < items@.len() && (
                    #[trigger] (res->Ok_0).0@[k])@ == inserted_row(
                        items@[(res->Ok_0).1@[k] as int]@,
                        admissions@[(res->Ok_0).1@[k] as int],
                        vectors@[(res->Ok_0).1@[k] as int] is Some,
                        legacy,
                    )
            },
        },
{
    lance_memory::check_vector_count(items.len(), vectors.len())?;
    validate_vectors(vectors)?;
    let ids = ids_of(items);
    let flags = new_row_flags(&ids, existing, skip_existing);
    let kept = ordering::set_places(&flags);
    let mut rows: Vec<StoredMemory> = Vec::new();
    let mut i: usize = 0;
    while i < kept.len()
        invariant
            i <= kept@.len(),
            vectors@.len() == items@.len(),
            admissions@.len() == items@.len(),
            forall|k: int| 0 <= k < kept@.len() ==> #[trigger] kept@[k] < items@.len(),
            rows@.len() == i,
            forall|k: int|
                0 <= k < i ==> (#[trigger] rows@[k])@ == inserted_row(
                    items@[kept@[k] as int]@,
                    admissions@[kept@[k] as int],
                    vectors@[kept@[k] as int] is Some,
                    legacy,
                ),
        decreases kept@.len() - i,
    {
        let at: usize = kept[i];
        rows.push(row_to_insert(&items[at], admissions[at], vectors[at].is_some(), legacy));
        i += 1;
    }
    Ok((rows, kept))
}

/// Writing a row a second time does nothing: what the table holds after an
/// insertion is not written again.
pub proof fn law_repeated_inserts_write_nothing(ids: Seq<Seq<char>>, existing: Seq<Seq<char>>)
    requires
        forall|i: int| 0 <= i < ids.len() ==> existing.contains(#[trigger] ids[i]),
    ensures
        ordering::places(new_rows(ids, existing, true)).len() == 0,
{
    let flags = new_rows(ids, existing, true);
    ordering::lemma_places(flags);
    if ordering::places(flags).len() > 0 {
        let at = ordering::places(flags)[0];
        assert(flags[at]);
        assert(existing.contains(ids[at]));
    }
}

/// The rows that are written have different identifiers, none of them in the
/// table, and every identifier that is new is written.
pub proof fn law_inserted_identifiers_are_new(ids: Seq<Seq<char>>, existing: Seq<Seq<char>>)
    ensures
        ({
            let kept = ordering::places(new_rows(ids, existing, true));
            &&& forall|j: int, k: int|
                0 <= j < k < kept.len() ==> ids[#[trigger] kept[j]] != ids[#[trigger] kept[k]]
            &&& forall|k: int|
                0 <= k < kept.len() ==> !existing.contains(ids[#[trigger] kept[k]])
            &&& forall|i: int|
                0 <= i < ids.len() && !existing.contains(#[trigger] ids[i]) ==> exists|k: int|
                    0 <= k < kept.len() && ids[#[trigger] kept[k]] == ids[i]
        }),
{
    let flags = new_rows(ids, existing, true);
    let kept = ordering::places(flags);
    ordering::lemma_places(flags);
    assert forall|j: int, k: int| 0 <= j < k < kept.len() implies ids[#[trigger] kept[j]]
        != ids[#[trigger] kept[k]] by {
        assert(flags[kept[k]]);
        assert(ids.take(kept[k])[kept[j]] == ids[kept[j]]);
    }
    assert forall|k: int| 0 <= k < kept.len() implies !existing.contains(
        ids[#[trigger] kept[k]],
    ) by {
        assert(flags[kept[k]]);
    }
    assert forall|i: int| 0 <= i < ids.len() && !existing.contains(
        #[trigger] ids[i],
    ) implies exists|k: int| 0 <= k < kept.len() && ids[#[trigger] kept[k]] == ids[i] by {
        lemma_first_is_new(ids, existing, i);
        let first = choose|first: int|
            0 <= first < ids.len() && ids[first] == ids[i] && #[trigger] flags[first];
        assert(kept.contains(first));
        assert(ids[kept[kept.index_of(first)]] == ids[i]);
    }
}

proof fn lemma_first_is_new(ids: Seq<Seq<char>>, existing: Seq<Seq<char>>, i: int)
    requires
        0 <= i < ids.len(),
        !existing.contains(ids[i]),
    ensures
        exists|first: int|
            0 <= first < ids.len() && ids[first] == ids[i] && #[trigger] new_rows(
                ids,
                existing,
                true,
            )[first],
    decreases i,
{
    if ids.take(i).contains(ids[i]) {
        let j = ids.take(i).index_of(ids[i]);
        assert(ids[j] == ids[i]);
        lemma_first_is_new(ids, existing, j);
    } else {
        assert(new_rows(ids, existing, true)[i]);
    }
}

/// The vectors that go with some memories: those given, or none at all.
pub open spec fn given_vectors(
    count: int,
    vectors: Option<Seq<Option<VectorShape>>>,
) -> Seq<Option<VectorShape>> {
    match vectors {
        Some(list) => list,
        None => Seq::new(count as nat, |i: int| None::<VectorShape>),
    }
}

pub open spec fn opt_shapes(vectors: Option<Vec<Option<VectorShape>>>) -> Option<
    Seq<Option<VectorShape>>,
> {
    match vectors {
        Some(list) => Some(list@),
        None => None,
    }
}

/// Checks what is to be inserted. `None` where there is nothing to insert, else
/// the vectors that go with the memories.
pub fn insert_memory_batch_nullable(
    count: usize,
    vectors: Option<Vec<Option<VectorShape>>>,
) -> (res: Result<Option<Vec<Option<VectorShape>>>, String>)
    ensures
        count == 0 ==> res == Ok::<Option<Vec<Option<VectorShape>>>, String>(None),
        count > 0 ==> {
            let list = given_vectors(count as int, opt_shapes(vectors));
            if list.len() != count {
                res is Err && res->Err_0@ == "Vector count mismatch: expected "@
                    + text::decimal(count as nat) + ", got "@ + text::decimal(list.len())
            } else {
                match vectors_error(list) {
                    Some(message) => res is Err && res->Err_0@ == message,
                    None => res is Ok && res->Ok_0 is Some && res->Ok_0->0@ == list,
                }
            }
        },
{
    if count == 0 {
        return Ok(None);
    }
    let list = match vectors {
        Some(list) => list,
        None => {
            let mut list: Vec<Option<VectorShape>> = Vec::new();
            let mut i: usize = 0;
            while i < count
                invariant
                    i <= count,
                    list@ == given_vectors(i as int, None),
                decreases count - i,
            {
                list.push(None);
                i += 1;
                assert(list@ == given_vectors(i as int, None));
            }
            list
        },
    };
    lance_memory::check_vector_count(count, list.len())?;
    validate_vectors(&list)?;
    Ok(Some(list))
}

/// Checks a request for similar memories: the vector, and how many rows to ask
/// for. `None` where nothing is wanted.
pub fn similar_memories_request(query: VectorShape, limit: usize) -> (res: Result<
    Option<usize>,
    String,
>)
    requires
        limit <= usize::MAX - 50,
    ensures
        match lance_memory::vector_error(query.len as int, query.all_finite) {
            Some(message) => res is Err && res->Err_0@ == message,
            None => res is Ok && res->Ok_0 == (if limit == 0 {
                None::<usize>
            } else if limit <= 50 {
                Some((2 * limit) as usize)
            } else {
                Some((limit + 50) as usize)
            }),
        },
{
    lance_memory::validate_vector(query.len, query.all_finite)?;
    if limit == 0 {
        return Ok(None);
    }
    Ok(Some(lance_memory::fetch_limit(limit)))
}

/// The times of some rows.
pub open spec fn row_times(rows: Seq<StoredMemory>) -> Seq<Seq<char>> {
    rows.map_values(|row: StoredMemory| row.timestamp@)
}

/// The places of the rows, the newest first. Rows of the same time keep their
/// order.
pub fn list_stored_memories(rows: &Vec<StoredMemory>) -> (res: Vec<usize>)
    ensures
        ordering::indexes(res@) == ordering::ranking(row_times(rows@), true),
        forall|k: int| 0 <= k < res@.len() ==> #[trigger] res@[k] < rows@.len(),
{
    let ghost times = row_times(rows@);
    let mut keys: Vec<Vec<char>> = Vec::new();
    let mut i: usize = 0;
    while i < rows.len()
        invariant
            i <= rows@.len(),
            times == row_times(rows@),
            keys@.len() == i,
            ordering::key_views(keys@) == times.take(i as int),
        decreases rows@.len() - i,
    {
        let ghost before = keys@;
        keys.push(text::chars_of(rows[i].timestamp.as_str()));
        i += 1;
        assert(ordering::key_views(keys@) == ordering::key_views(before).push(times[i - 1]));
        assert(times.take(i as int) == times.take(i - 1).push(times[i - 1]));
    }
    assert(times.take(i as int) == times);
    ordering::rank_by_keys(&keys, true)
}

/// The row of an event: one with the identifier itself, the first of the table,
/// else the newest one whose canonical identifier is that of the event.
pub open spec fn event_row(
    rows: Seq<StoredMemory>,
    canonical_ids: Seq<Seq<char>>,
    id: Seq<char>,
    canonical: Seq<char>,
) -> Option<int> {
    let own = ordering::found_at(memory_summary::row_ids(rows), id);
    let order = ordering::ranking(row_times(rows), true);
    match own {
        Some(at) => Some(at),
        None => match ordering::found_at(ordering::in_order(canonical_ids, order), canonical) {
            Some(k) => Some(order[k]),
            None => None,
        },
    }
}

/// Finds the row of an event among the rows of the table, given the canonical
/// identifiers of the rows and of the event.
pub fn get_memory_by_event_id(
    rows: &Vec<StoredMemory>,
    canonical_ids: &Vec<String>,
    id: &str,
    canonical: &str,
) -> (res: Option<usize>)
    requires
        canonical_ids@.len() == rows@.len(),
    ensures
        match res {
            Some(at) => at < rows@.len() && event_row(
                rows@,
                text::views(canonical_ids@),
                id@,
                canonical@,
            ) == Some(at as int),
            None => event_row(rows@, text::views(canonical_ids@), id@, canonical@) is None,
        },
{
    let ghost ids = memory_summary::row_ids(rows@);
    let mut i: usize = 0;
    while i < rows.len()
        invariant
            i <= rows@.len(),
            ids == memory_summary::row_ids(rows@),
            forall|k: int| 0 <= k < i ==> #[trigger] ids[k] != id@,
        decreases rows@.len() - i,
    {
        assert(ids[i as int] == rows@[i as int].id@);
        if text::same_text(rows[i].id.as_str(), id) {
            proof {
                ordering::lemma_found_at(ids, id@, i as int);
            }
            return Some(i);
        }
        i += 1;
    }
    assert(!ids.contains(id@));
    let order = list_stored_memories(rows);
    let ghost ranks = ordering::indexes(order@);
    let ghost names = ordering::in_order(text::views(canonical_ids@), ranks);
    let mut k: usize = 0;
    while k < order.len()
        invariant
            k <= order@.len(),
            canonical_ids@.len() == rows@.len(),
            ids == memory_summary::row_ids(rows@),
            !ids.contains(id@),
            ranks == ordering::indexes(order@),
            ranks == ordering::ranking(row_times(rows@), true),
            names == ordering::in_order(text::views(canonical_ids@), ranks),
            forall|j: int| 0 <= j < order@.len() ==> #[trigger] order@[j] < rows@.len(),
            forall|j: int| 0 <= j < k ==> #[trigger] names[j] != canonical@,
        decreases order@.len() - k,
    {
        let at: usize = order[k];
        assert(ranks[k as int] == at);
        assert(names[k as int] == canonical_ids@[at as int]@);
        if text::same_text(canonical_ids[at].as_str(), canonical) {
            proof {
                ordering::lemma_found_at(names, canonical@, k as int);
            }
            return Some(at);
        }
        k += 1;
    }
    assert(!names.contains(canonical@));
    None
}

/// The row of an event has the identifier of the event, or no row has it; then
/// its canonical identifier is that of the event, and no such row is newer.
pub proof fn law_the_row_of_an_event_is_its_own_or_the_newest(
    rows: Seq<StoredMemory>,
    canonical_ids: Seq<Seq<char>>,
    id: Seq<char>,
    canonical: Seq<char>,
)
    requires
        canonical_ids.len() == rows.len(),
    ensures
        match event_row(rows, canonical_ids, id, canonical) {
            Some(at) => 0 <= at < rows.len() && (rows[at].id@ == id || (canonical_ids[at]
                == canonical && forall|i: int|
                0 <= i < rows.len() ==> (#[trigger] rows[i]).id@ != id && (canonical_ids[i]
                    == canonical ==> !ordering::text_lt(rows[at].timestamp@, rows[i].timestamp@)))),
            None => forall|i: int|
                0 <= i < rows.len() ==> (#[trigger] rows[i]).id@ != id && canonical_ids[i]
                    != canonical,
        },
{
    let ids = memory_summary::row_ids(rows);
    let times = row_times(rows);
    let order = ordering::ranking(times, true);
    let names = ordering::in_order(canonical_ids, order);
    ordering::law_every_list_has_a_ranking(times, true);
    ordering::lemma_found(ids, id);
    ordering::lemma_found(names, canonical);
    if !ids.contains(id) {
        assert forall|i: int| 0 <= i < rows.len() implies (#[trigger] rows[i]).id@ != id by {
            assert(ids[i] == rows[i].id@);
        }
        match ordering::found_at(names, canonical) {
            Some(k) => {
                let at = order[k];
                assert forall|i: int|
                    0 <= i < rows.len() && canonical_ids[i] == canonical implies !ordering::text_lt(
                    (#[trigger] rows[at]).timestamp@,
                    (#[trigger] rows[i]).timestamp@,
                ) by {
                    assert(order.contains(i));
                    let j = choose|j: int| 0 <= j < order.len() && order[j] == i;
                    assert(names[j] == canonical);
                    assert(times[i] == rows[i].timestamp@);
                    assert(times[at] == rows[at].timestamp@);
                    ordering::lemma_lt_irreflexive(times[i]);
                    if k < j {
                        assert(ordering::ranks_before(times, true, order[k], order[j]));
                        ordering::lemma_lt_total(times[at], times[i]);
                    }
                }
            },
            None => {
                assert forall|i: int| 0 <= i < rows.len() implies canonical_ids[i]
                    != canonical by {
                    assert(order.contains(i));
                    let j = choose|j: int| 0 <= j < order.len() && order[j] == i;
                    assert(names[j] == canonical_ids[i]);
                }
            },
        }
    }
}

/// The texts of a list at the places of the flags that are set.
pub open spec fn chosen(list: Seq<Seq<char>>, flags: Seq<bool>) -> Seq<Seq<char>> {
    ordering::in_order(list, ordering::places(flags))
}

/// Which of the identifiers are in the table.
pub open spec fn present(ids: Seq<Seq<char>>, existing: Seq<Seq<char>>) -> Seq<bool> {
    ids.map_values(|id: Seq<char>| existing.contains(id))
}

/// What is deleted together.
#[derive(Debug)]
pub struct BulkDeletion {
    /// The identifiers asked for that are in the table, in the order asked for.
    pub ids: Vec<String>,
    /// How many memories that are.
    pub count: usize,
}

/// What is deleted together, given the identifiers that were found in the
/// table. A memory that is asked for or found more than once counts once.
pub fn delete_memories_bulk(ids: &Vec<String>, existing: &Vec<String>) -> (res: BulkDeletion)
    ensures
        text::views(res.ids@) == chosen(
            text::views(ids@),
            present(text::views(ids@), text::views(existing@)),
        ),
        res.count == text::views(existing@).to_set().len(),
{
    let distinct = ordering::sort_and_dedup(existing);
    proof {
        lemma_distinct_count(text::views(existing@), text::views(distinct@));
    }
    BulkDeletion { ids: ids_to_delete(ids, existing), count: distinct.len() }
}

proof fn lemma_distinct_count(all: Seq<Seq<char>>, distinct: Seq<Seq<char>>)
    requires
        ordering::strictly_ascending(distinct),
        forall|t: Seq<char>| distinct.contains(t) <==> #[trigger] all.contains(t),
    ensures
        distinct.len() == all.to_set().len(),
{
    assert(distinct.no_duplicates()) by {
        assert forall|i: int, j: int|
            0 <= i < distinct.len() && 0 <= j < distinct.len() && i != j implies distinct[i]
            != distinct[j] by {
            ordering::lemma_lt_irreflexive(distinct[i]);
        }
    }
    distinct.unique_seq_to_set();
    assert(distinct.to_set() =~= all.to_set()) by {
        assert forall|t: Seq<char>| distinct.to_set().contains(t) == all.to_set().contains(
            t,
        ) by {
            assert(all.contains(t) == distinct.contains(t));
        }
    }
}

fn ids_to_delete(ids: &Vec<String>, existing: &Vec<String>) -> (res: Vec<String>)
    ensures
        text::views(res@) == chosen(
            text::views(ids@),
            present(text::views(ids@), text::views(existing@)),
        ),
{
    let ghost all = text::views(ids@);
    let listed = ordering::listed_in(ids, existing);
    assert(listed@ == present(all, text::views(existing@)));
    let places = ordering::set_places(&listed);
    let ghost order = ordering::indexes(places@);
    let mut res: Vec<String> = Vec::new();
    let mut i: usize = 0;
    while i < places.len()
        invariant
            i <= places@.len(),
            all == text::views(ids@),
            order == ordering::indexes(places@),
            forall|k: int| 0 <= k < places@.len() ==> #[trigger] places@[k] < ids@.len(),
            text::views(res@) == ordering::in_order(all, order.take(i as int)),
        decreases places@.len() - i,
    {
        let ghost before = res@;
        let at: usize = places[i];
        assert(order[i as int] == at);
        res.push(ids[at].clone());
        i += 1;
        assert(order.take(i as int) == order.take(i - 1).push(order[i - 1]));
        assert(text::views(res@) == text::views(before).push(all[at as int]));
        assert(ordering::in_order(all, order.take(i as int)) == ordering::in_order(
            all,
            order.take(i - 1),
        ).push(all[at as int]));
    }
    assert(order.take(i as int) == order);
    res
}

/// What an entry of a directory is.
#[derive(Debug)]
pub enum EntryKind {
    Link,
    Directory,
    File,
    /// The entry could not be looked at.
    Unknown(String),
}

/// What is wrong with an entry that is to be copied.
pub open spec fn entry_error(entry: EntryKind, label: Seq<char>, top: bool) -> Option<Seq<char>> {
    match entry {
        EntryKind::Unknown(error) => Some("Failed to inspect "@ + label + ": "@ + error@),
        EntryKind::Link => Some(label + " must not contain links or reparse points"@),
        EntryKind::File => if top {
            Some(label + " must be a directory"@)
        } else {
            None
        },
        EntryKind::Directory => None,
    }
}

/// Refuses a link, and a file in the place of the directory to be copied.
/// Tells whether to go down into the entry.
pub fn validate_copy_tree(entry: &EntryKind, label: &str, top: bool) -> (res: Result<bool, String>)
    ensures
        match entry_error(*entry, label@, top) {
            Some(message) => res is Err && res->Err_0@ == message,
            None => res == Ok::<bool, String>(*entry is Directory),
        },
{
    match entry {
        EntryKind::Unknown(error) => {
            let mut message = "Failed to inspect ".to_owned();
            text::append_text(&mut message, label);
            text::append_text(&mut message, ": ");
            text::append_text(&mut message, error.as_str());
            Err(message)
        },
        EntryKind::Link => {
            let mut message = label.to_owned();
            text::append_text(&mut message, " must not contain links or reparse points");
            Err(message)
        },
        EntryKind::File => {
            if top {
                let mut message = label.to_owned();
                text::append_text(&mut message, " must be a directory");
                return Err(message);
            }
            Ok(false)
        },
        EntryKind::Directory => Ok(true),
    }
}

/// The label of the entries of a directory.
pub fn child_label(label: &str) -> (res: String)
    ensures
        res@ == label@ + " entry"@,
{
    let mut child = label.to_owned();
    text::append_text(&mut child, " entry");
    child
}

/// What is done with an entry while a directory is copied.
#[derive(Debug, Clone, Copy, PartialEq, Eq)]
pub enum CopyStep {
    /// Its entries are copied in turn.
    Descend,
    /// It is copied.
    CopyFile,
    /// The copy ends with this error.
    Refuse(&'static str),
}

/// The directory itself, before its entries are copied.
pub fn copy_dir_all(source: &EntryKind, destination_is_link: bool) -> (res: CopyStep)
    ensures
        res == (if !(*source is Directory) {
            CopyStep::Refuse("source contains a link, reparse point, or non-directory")
        } else if destination_is_link {
            CopyStep::Refuse("destination contains a link or reparse point")
        } else {
            CopyStep::Descend
        }),
{
    match source {
        EntryKind::Directory => {
            if destination_is_link {
                CopyStep::Refuse("destination contains a link or reparse point")
            } else {
                CopyStep::Descend
            }
        },
        _ => CopyStep::Refuse("source contains a link, reparse point, or non-directory"),
    }
}

/// One entry of a directory that is copied.
pub fn copy_entry(source: &EntryKind, destination_is_link: bool) -> (res: CopyStep)
    ensures
        res == (if *source is Link {
            CopyStep::Refuse("source contains a link or reparse point")
        } else if destination_is_link {
            CopyStep::Refuse("destination contains a link or reparse point")
        } else if *source is Directory {
            CopyStep::Descend
        } else {
            CopyStep::CopyFile
        }),
{
    match source {
        EntryKind::Link => CopyStep::Refuse("source contains a link or reparse point"),
        EntryKind::Directory => {
            if destination_is_link {
                CopyStep::Refuse("destination contains a link or reparse point")
            } else {
                CopyStep::Descend
            }
        },
        _ => {
            if destination_is_link {
                CopyStep::Refuse("destination contains a link or reparse point")
            } else {
                CopyStep::CopyFile
            }
        },
    }
}

/// The names of the file that keeps a raw text, and of the file that is
/// written first.
pub fn preserve_raw_document(id: &str, process: u32, unique: &str) -> (res: Result<
    (String, String),
    String,
>)
    ensures
        lance_memory::is_plain_name(id@) ==> res is Ok && (res->Ok_0).0@ == id@ + ".txt"@ && (
        res->Ok_0).1@ == "."@ + id@ + ".tmp-"@ + text::decimal(process as nat) + "-"@ + unique@,
        !lance_memory::is_plain_name(id@) ==> res is Err && res->Err_0@
            == "memory id cannot be used for a raw document backup"@,
{
    lance_memory::validate_memory_id(id)?;
    let mut target = id.to_owned();
    text::append_text(&mut target, ".txt");
    let mut temporary = ".".to_owned();
    text::append_text(&mut temporary, id);
    text::append_text(&mut temporary, ".tmp-");
    text::append_decimal(&mut temporary, process as u64);
    text::append_text(&mut temporary, "-");
    text::append_text(&mut temporary, unique);
    Ok((target, temporary))
}

/// The same names, with a new suffix for the file that is written first.
pub fn preserve_raw_document_now(id: &str, process: u32) -> (res: Result<(String, String), String>)
    ensures
        lance_memory::is_plain_name(id@) ==> res is Ok && (res->Ok_0).0@ == id@ + ".txt"@
            && exists|unique: Seq<char>| #[trigger]
            identifiers::is_plain_identifier(unique) && (res->Ok_0).1@ == "."@ + id@ + ".tmp-"@
                + text::decimal(process as nat) + "-"@ + unique,
        !lance_memory::is_plain_name(id@) ==> res is Err && res->Err_0@
            == "memory id cannot be used for a raw document backup"@,
{
    let unique = identifiers::new_suffix();
    assert(identifiers::is_plain_identifier(unique@));
    preserve_raw_document(id, process, unique.as_str())
}

/// The name of the file that all memories are written to: the one asked for, or
/// the usual one.
pub open spec fn export_name(asked: Option<Seq<char>>) -> Seq<char> {
    match asked {
        Some(name) => name,
        None => "lance_export.json"@,
    }
}

/// Finds the name of the file that all memories are written to. It leads to no
/// other directory.
pub fn export_lance_memories_json(output_filename: Option<String>) -> (res: Result<String, String>)
    ensures
        lance_memory::is_safe_component(export_name(text::opt_view(output_filename))) ==> res is Ok
            && res->Ok_0@ == export_name(text::opt_view(output_filename)),
        !lance_memory::is_safe_component(export_name(text::opt_view(output_filename)))
            ==> res is Err && res->Err_0@ == "Export filename"@
            + " must be a single safe component"@,
{
    let name = match output_filename {
        Some(asked) => asked,
        None => "lance_export.json".to_owned(),
    };
    lance_memory::validate_safe_component(name.as_str(), "Export filename")?;
    Ok(name)
}

/// What is told after all memories were written to a file.
pub fn exported_message(total: usize, path_shown: &str) -> (res: String)
    ensures
        res@ == "Exported "@ + text::decimal(total as nat) + " memories to "@ + path_shown@,
{
    let mut message = "Exported ".to_owned();
    text::append_decimal(&mut message, total as u64);
    text::append_text(&mut message, " memories to ");
    text::append_text(&mut message, path_shown);
    message
}

/// Documents cannot be changed: the answer is always a refusal.
pub fn update_memory_document() -> (res: Result<bool, String>)
    ensures
        res is Err && res->Err_0@ == "memory documents are immutable; append a new event instead"@,
{
    Err("memory documents are immutable; append a new event instead".to_owned())
}

proof fn lemma_column_from(columns: Seq<BatchColumn>, name: Seq<char>, from: int, at: int)
    requires
        0 <= from <= at < columns.len(),
        columns[at].name@ == name,
        forall|k: int| from <= k < at ==> (#[trigger] columns[k]).name@ != name,
    ensures
        column_from(columns, name, from) == Some(at),
    decreases at - from,
{
    if from < at {
        lemma_column_from(columns, name, from + 1, at);
    }
}

proof fn lemma_no_column_from(columns: Seq<BatchColumn>, name: Seq<char>, from: int)
    requires
        0 <= from,
        forall|k: int| from <= k < columns.len() ==> (#[trigger] columns[k]).name@ != name,
    ensures
        column_from(columns, name, from) is None,
    decreases columns.len() - from,
{
    if from < columns.len() {
        lemma_no_column_from(columns, name, from + 1);
    }
}

/// A cell is read from the first column of its name; where there is none, or
/// the cell is empty, nothing is read.
pub proof fn law_cells_are_found_by_name(batch: RowBatch, name: Seq<char>, at: int, row: int)
    ensures
        0 <= at < batch.columns@.len() && batch.columns@[at].name@ == name && (forall|k: int|
            0 <= k < at ==> (#[trigger] batch.columns@[k]).name@ != name) ==> batch.values_of(name)
            == Some(batch.columns@[at].values) && batch.text_cell(name, row) == match batch.columns@[at].values {
            ColumnValues::Texts(values) => text::opt_view(values@[row]),
            _ => None,
        },
        (forall|k: int| 0 <= k < batch.columns@.len() ==> (#[trigger] batch.columns@[k]).name@ != name)
            ==> batch.values_of(name) is None && batch.text_cell(name, row) is None
            && batch.required_error(name) is Some && batch.optional_error(name) is None,
{
    if 0 <= at < batch.columns@.len() && batch.columns@[at].name@ == name && (forall|k: int|
        0 <= k < at ==> (#[trigger] batch.columns@[k]).name@ != name) {
        lemma_column_from(batch.columns@, name, 0, at);
    }
    if forall|k: int| 0 <= k < batch.columns@.len() ==> (#[trigger] batch.columns@[k]).name@ != name {
        lemma_no_column_from(batch.columns@, name, 0);
    }
}

/// A row is put together from the cells of its columns; a memory's own columns
/// must be there, and those of its user and its summary may be missing.
pub proof fn law_rows_are_put_together_from_cells(batch: RowBatch, row: int)
    ensures
        batch.text_cell("id"@, row) matches Some(t) ==> batch.stored_of(row).item.id == t,
        batch.text_cell("document"@, row) matches Some(t) ==> batch.stored_of(row).item.document
            == t,
        batch.text_cell("document"@, row) is None ==> batch.stored_of(row).item.document.len()
            == 0,
        batch.text_cell("memory_type"@, row) matches Some(t) ==> batch.stored_of(
            row,
        ).item.memory_type == t,
        batch.text_cell("source"@, row) matches Some(t) ==> batch.stored_of(row).item.source == t,
        batch.text_cell("timestamp"@, row) matches Some(t) ==> batch.stored_of(row).item.timestamp
            == t,
        batch.stored_of(row).item.user_id == batch.text_cell("user_id"@, row),
        batch.stored_of(row).summary == batch.text_cell("summary"@, row),
        batch.stored_of(row).summary_status == batch.text_cell("summary_status"@, row),
        batch.stored_of(row).summary_model == batch.text_cell("summary_model"@, row),
        batch.stored_of(row).summary_prompt_version == batch.text_cell(
            "summary_prompt_version"@,
            row,
        ),
        batch.stored_of(row).vector_source == batch.text_cell("vector_source"@, row),
        (batch.stored_error() is None) == ({
            &&& batch.values_of("id"@) is Some && batch.values_of("id"@)->0 is Texts
            &&& batch.values_of("document"@) is Some && batch.values_of("document"@)->0 is Texts
            &&& batch.values_of("memory_type"@) is Some && batch.values_of(
                "memory_type"@,
            )->0 is Texts
            &&& batch.values_of("source"@) is Some && batch.values_of("source"@)->0 is Texts
            &&& batch.values_of("timestamp"@) is Some && batch.values_of("timestamp"@)->0 is Texts
            &&& batch.values_of("user_id"@) is Some ==> batch.values_of("user_id"@)->0 is Texts
            &&& batch.values_of("summary"@) is Some ==> batch.values_of("summary"@)->0 is Texts
            &&& batch.values_of("summary_status"@) is Some ==> batch.values_of(
                "summary_status"@,
            )->0 is Texts
            &&& batch.values_of("summary_model"@) is Some ==> batch.values_of(
                "summary_model"@,
            )->0 is Texts
            &&& batch.values_of("summary_prompt_version"@) is Some ==> batch.values_of(
                "summary_prompt_version"@,
            )->0 is Texts
            &&& batch.values_of("vector_source"@) is Some ==> batch.values_of(
                "vector_source"@,
            )->0 is Texts
        }),
{
}

/// The table that is used: the current one where it is there and sound, and
/// the older one only while it has the current layout itself. An older table of
/// another layout is imported once.
pub proof fn law_the_current_table_is_used(
    active: Option<Seq<lance_memory::ColumnModel>>,
    legacy: Option<Seq<lance_memory::ColumnModel>>,
    imported: bool,
)
    ensures
        active is None && legacy is None ==> table_plan(active, legacy, imported) == Ok::<
            TablePlan,
            Seq<char>,
        >(TablePlan::Create),
        active is Some && !lance_memory::is_memory_v2(active->0) ==> table_plan(
            active,
            legacy,
            imported,
        ) is Err,
        active is Some && lance_memory::is_memory_v2(active->0) && (legacy is None || imported
            || lance_memory::is_memory_v2(legacy->0)) ==> table_plan(active, legacy, imported)
            == Ok::<TablePlan, Seq<char>>(TablePlan::UseActive),
        active is Some && lance_memory::is_memory_v2(active->0) && legacy is Some && !imported
            && !lance_memory::is_memory_v2(legacy->0) ==> table_plan(active, legacy, imported)
            == Ok::<TablePlan, Seq<char>>(TablePlan::ImportIntoActive),
        active is None && legacy is Some && lance_memory::is_memory_v2(legacy->0) ==> table_plan(
            active,
            legacy,
            imported,
        ) == Ok::<TablePlan, Seq<char>>(TablePlan::UseLegacy),
        active is None && legacy is Some && !lance_memory::is_memory_v2(legacy->0) ==> table_plan(
            active,
            legacy,
            imported,
        ) == Ok::<TablePlan, Seq<char>>(TablePlan::CreateAndImport),
{
}

/// Rows that are written count as done, and what is handed out is no longer
/// waiting; nothing is lost on the way.
pub proof fn law_written_rows_are_counted(
    state: ImportState,
    rows: Seq<ImportRowModel>,
    count: int,
    total: usize,
)
    requires
        0 <= count <= state.pending.len(),
        state.committed.len() + rows.len() <= usize::MAX,
        state.progress.total == Some(total),
    ensures
        state.handing(count).pending == state.pending.skip(count),
        state.handing(count).committed == state.committed,
        state.handing(count).progress == state.progress,
        state.committing(rows).committed == state.committed + rows,
        state.committing(rows).pending == state.pending,
        state.committing(rows).progress.total == Some(total),
        state.committed.len() + rows.len() <= total ==> state.committing(rows).progress.processed
            == state.committed.len() + rows.len(),
        state.committed.len() + rows.len() > total ==> state.committing(rows).progress.processed
            == total,
        lance_memory::IMPORT_BATCH_SIZE == 2048,
{
}

/// Where rows that exist are passed over, a row is written exactly where its
/// identifier neither exists nor stands earlier in the list; else all are.
pub proof fn law_new_identifiers_are_written(
    ids: Seq<Seq<char>>,
    existing: Seq<Seq<char>>,
    i: int,
)
    requires
        0 <= i < ids.len(),
    ensures
        ordering::places(new_rows(ids, existing, true)).contains(i) == (!existing.contains(ids[i])
            && forall|j: int| 0 <= j < i ==> #[trigger] ids[j] != ids[i]),
        ordering::places(new_rows(ids, existing, false)).contains(i),
{
    ordering::law_set_places_are_listed(new_rows(ids, existing, true), i);
    ordering::law_set_places_are_listed(new_rows(ids, existing, false), i);
    let before = ids.take(i);
    if before.contains(ids[i]) {
        let k = before.index_of(ids[i]);
        assert(ids[k] == ids[i]);
    }
    if exists|j: int| 0 <= j < i && #[trigger] ids[j] == ids[i] {
        let j = choose|j: int| 0 <= j < i && #[trigger] ids[j] == ids[i];
        assert(before[j] == ids[i]);
    }
}

/// A new row waits for its summary where its event can be summarised, and has
/// no status else; imported rows are marked as older ones. It says whether it
/// has a vector, and has no summary.
pub proof fn law_new_rows_wait_for_their_summary(
    item: ItemModel,
    admission: SummaryAdmission,
    has_vector: bool,
)
    ensures
        inserted_row(item, SummaryAdmission::Eligible, has_vector, false).summary_status == Some(
            "pending"@,
        ),
        admission != SummaryAdmission::Eligible ==> inserted_row(
            item,
            admission,
            has_vector,
            false,
        ).summary_status is None,
        inserted_row(item, admission, has_vector, true).summary_status == Some("legacy"@),
        inserted_row(item, admission, has_vector, false).item == item,
        inserted_row(item, admission, has_vector, true).item == item,
        inserted_row(item, admission, has_vector, false).summary is None,
        inserted_row(item, admission, true, false).vector_source == Some("document"@),
        inserted_row(item, admission, false, false).vector_source == Some("none"@),
{
}

/// Of the rows that are to be deleted those that exist are, in the order asked
/// for.
pub proof fn law_existing_rows_are_deleted(
    ids: Seq<Seq<char>>,
    existing: Seq<Seq<char>>,
    id: Seq<char>,
)
    ensures
        chosen(ids, present(ids, existing)).contains(id) == (ids.contains(id) && existing.contains(
            id,
        )),
        (forall|i: int| 0 <= i < ids.len() ==> existing.contains(#[trigger] ids[i])) ==> chosen(
            ids,
            present(ids, existing),
        ).len() == ids.len(),
{
    let flags = present(ids, existing);
    let order = ordering::places(flags);
    let list = chosen(ids, flags);
    ordering::lemma_places(flags);
    if list.contains(id) {
        let k = list.index_of(id);
        assert(flags[order[k]]);
        assert(ids[order[k]] == id);
    }
    if ids.contains(id) && existing.contains(id) {
        let i = ids.index_of(id);
        assert(flags[i]);
        assert(order.contains(i));
        let k = order.index_of(i);
        assert(list[k] == id);
    }
    if forall|i: int| 0 <= i < ids.len() ==> existing.contains(#[trigger] ids[i]) {
        lemma_all_places(flags);
    }
}

proof fn lemma_all_places(flags: Seq<bool>)
    requires
        forall|i: int| 0 <= i < flags.len() ==> #[trigger] flags[i],
    ensures
        ordering::places(flags).len() == flags.len(),
    decreases flags.len(),
{
    if flags.len() > 0 {
        assert(flags[flags.len() - 1]);
        assert forall|i: int| 0 <= i < flags.drop_last().len() implies #[trigger] flags.drop_last()[i] by {
            assert(flags[i]);
        }
        lemma_all_places(flags.drop_last());
    }
}

/// A tree is copied only where it is one: links are refused everywhere, a file
/// at its top, and what cannot be looked at; files and directories below pass.
pub proof fn law_trees_hold_no_links(entry: EntryKind, label: Seq<char>, top: bool)
    ensures
        entry is Link || entry is Unknown ==> entry_error(entry, label, top) is Some,
        entry is File ==> (entry_error(entry, label, top) is Some) == top,
        entry is Directory ==> entry_error(entry, label, top) is None,
{
}

impl RowBatch {
    /// The older table can be read where its six columns of texts and its
    /// column of vectors are there and hold what they should, and only there;
    /// the first column that is not is the one that is named.
    pub proof fn law_older_tables_need_their_columns(self)
        ensures
            self.legacy_columns_error() is None <==> {
                &&& self.values_of("id"@) matches Some(ColumnValues::Texts(_))
                &&& self.values_of("document"@) matches Some(ColumnValues::Texts(_))
                &&& self.values_of("memory_type"@) matches Some(ColumnValues::Texts(_))
                &&& self.values_of("source"@) matches Some(ColumnValues::Texts(_))
                &&& self.values_of("timestamp"@) matches Some(ColumnValues::Texts(_))
                &&& self.values_of("user_id"@) matches Some(ColumnValues::Texts(_))
                &&& self.values_of("vector"@) matches Some(ColumnValues::Vectors(_))
            },
            self.values_of("id"@) is None ==> self.legacy_columns_error() == Some(
                "Missing legacy "@ + "id"@ + " column"@,
            ),
            self.values_of("id"@) is Some && !(self.values_of("id"@)->0 is Texts)
                ==> self.legacy_columns_error() == Some("Invalid legacy "@ + "id"@ + " column"@),
    {
    }

    /// Rows are listed where the first five columns hold texts, and only there.
    pub proof fn law_listings_need_five_columns(self)
        ensures
            self.listing_error() is None <==> forall|at: int|
                0 <= at < 5 ==> (#[trigger] self.columns@[at]).values is Texts,
            self.columns@[0].values is Texts && !(self.columns@[1].values is Texts)
                ==> self.listing_error() == Some("Invalid doc column"@),
    {
        if self.listing_error() is None {
            assert(self.texts_at(0) && self.texts_at(1) && self.texts_at(2) && self.texts_at(3)
                && self.texts_at(4));
        } else if forall|at: int| 0 <= at < 5 ==> (#[trigger] self.columns@[at]).values is Texts {
            assert(self.columns@[0].values is Texts);
            assert(self.columns@[1].values is Texts);
            assert(self.columns@[2].values is Texts);
            assert(self.columns@[3].values is Texts);
            assert(self.columns@[4].values is Texts);
        }
    }

    /// Where the columns stand in the usual order, a row that is listed by the
    /// places of the columns is the memory that their names give.
    pub proof fn law_places_and_names_agree(self, row: int)
        requires
            self.columns@.len() >= 6,
            self.columns@[0].name@ == "id"@,
            self.columns@[1].name@ == "document"@,
            self.columns@[2].name@ == "memory_type"@,
            self.columns@[3].name@ == "source"@,
            self.columns@[4].name@ == "timestamp"@,
            self.columns@[5].name@ == "user_id"@,
            forall|at: int|
                0 <= at < 5 ==> (#[trigger] self.columns@[at]).values is Texts
                    && self.columns@[at].values->Texts_0@[row] is Some,
            self.columns@[5].values is Texts,
        ensures
            self.listed_item(row).id == self.columns@[0].values->Texts_0@[row]->0@,
            self.listed_item(row).document == self.columns@[1].values->Texts_0@[row]->0@,
            self.listed_item(row).memory_type == self.columns@[2].values->Texts_0@[row]->0@,
            self.listed_item(row).source == self.columns@[3].values->Texts_0@[row]->0@,
            self.listed_item(row).timestamp == self.columns@[4].values->Texts_0@[row]->0@,
            self.listed_item(row).user_id == text::opt_view(
                self.columns@[5].values->Texts_0@[row],
            ),
            self.listed_item(row).id == self.item_of(row).id,
    {
        assert(self.columns@[0].values is Texts && self.columns@[1].values is Texts
            && self.columns@[2].values is Texts && self.columns@[3].values is Texts
            && self.columns@[4].values is Texts);
    }
}

/// The journal keeps what a memory is, of each field the same.
pub proof fn law_journal_entries_keep_the_memory(entry: CompatMemory, item: ItemModel)
    requires
        compat_of(entry, item),
    ensures
        entry.id@ == item.id,
        entry.document@ == item.document,
        entry.memory_type@ == item.memory_type,
        entry.source@ == item.source,
        entry.timestamp@ == item.timestamp,
{
}

/// Memories are written to the file that was asked for, and to one of its own
/// name where none was.
pub proof fn law_exports_go_where_they_were_asked_for(name: Seq<char>)
    ensures
        export_name(Some(name)) == name,
        export_name(None) == "lance_export.json"@,
{
}

/// The rows that have a vector are the ones that are embedded.
pub proof fn law_rows_with_a_vector_are_embedded(rows: Seq<ImportRow>, i: int)
    requires
        0 <= i < rows.len(),
    ensures
        embedded(rows).len() == rows.len(),
        embedded(rows)[i] == (rows[i].vector is Some),
{
}

/// An entry that keeps a tree from being copied is told for what it is, under
/// the name of the tree.
pub proof fn law_bad_entries_are_told_for_what_they_are(
    entry: EntryKind,
    label: Seq<char>,
    top: bool,
)
    ensures
        entry is Link ==> entry_error(entry, label, top) == Some(
            label + " must not contain links or reparse points"@,
        ),
        entry is File && top ==> entry_error(entry, label, top) == Some(
            label + " must be a directory"@,
        ),
        entry is File && !top || entry is Directory ==> entry_error(entry, label, top) is None,
        entry matches EntryKind::Unknown(error) ==> entry_error(entry, label, top) == Some(
            "Failed to inspect "@ + label + ": "@ + error@,
        ),
{
}

} // verus!
