//! The schema of one table, and the ordinals it gives to its field columns.

use crate::schema::{ColumnType, ColumnView, Precision, TableColumn, TimeUnit};
use vstd::prelude::*;

verus! {

/// The views of a list of column definitions.
pub open spec fn columns_view(cols: Seq<TableColumn>) -> Seq<ColumnView> {
    Seq::new(cols.len(), |i: int| cols[i]@)
}

/// How many of the first `n` columns are fields.
pub open spec fn field_count(cols: Seq<ColumnView>, n: int) -> nat
    decreases n,
{
    if n <= 0 || n > cols.len() {
        0
    } else {
        field_count(cols, n - 1) + if cols[n - 1].column_type.spec_is_field() {
            1nat
        } else {
            0nat
        }
    }
}

/// How many of the first `n` columns are fields whose id is at most `id`.
pub open spec fn field_ids_upto(cols: Seq<ColumnView>, id: u32, n: int) -> nat
    decreases n,
{
    if n <= 0 || n > cols.len() {
        0
    } else {
        field_ids_upto(cols, id, n - 1) + if cols[n - 1].column_type.spec_is_field() && cols[n
            - 1].id <= id {
            1nat
        } else {
            0nat
        }
    }
}

/// Whether some field column carries the id.
pub open spec fn has_field(cols: Seq<ColumnView>, id: u32) -> bool {
    exists|i: int| 0 <= i < cols.len() && #[trigger] is_field_with_id(cols[i], id)
}

/// Whether the column is a field with the given id.
pub open spec fn is_field_with_id(c: ColumnView, id: u32) -> bool {
    c.column_type.spec_is_field() && c.id == id
}

/// The ordinal of the field with the given id: its rank among the field
/// columns ordered by id. Where several fields share an id, it is the rank
/// of the last of them.
pub open spec fn field_ordinal(cols: Seq<ColumnView>, id: u32) -> Option<int> {
    if has_field(cols, id) {
        Some(field_ids_upto(cols, id, cols.len() as int) - 1)
    } else {
        None
    }
}

/// The position of the last column with the given name.
pub open spec fn column_position(cols: Seq<ColumnView>, name: Seq<char>) -> Option<int> {
    if exists|i: int| 0 <= i < cols.len() && #[trigger] cols[i].name == name {
        Some(last_named(cols, name, cols.len() as int))
    } else {
        None
    }
}

/// The largest position below `n` of a column with the given name, or -1.
pub open spec fn last_named(cols: Seq<ColumnView>, name: Seq<char>, n: int) -> int
    decreases n,
{
    if n <= 0 || n > cols.len() {
        -1
    } else if cols[n - 1].name == name {
        n - 1
    } else {
        last_named(cols, name, n - 1)
    }
}

/// The position of the first column with the given id, or `cols.len()`.
pub open spec fn first_with_id(cols: Seq<ColumnView>, id: u32, from: int) -> int
    decreases cols.len() - from,
{
    if from < 0 || from >= cols.len() {
        cols.len() as int
    } else if cols[from].id == id {
        from
    } else {
        first_with_id(cols, id, from + 1)
    }
}

/// The position of the first time column, or `cols.len()`.
pub open spec fn first_time(cols: Seq<ColumnView>, from: int) -> int
    decreases cols.len() - from,
{
    if from < 0 || from >= cols.len() {
        cols.len() as int
    } else if cols[from].column_type.spec_is_time() {
        from
    } else {
        first_time(cols, from + 1)
    }
}

/// The position of the first field column with the given id, or
/// `cols.len()`.
pub open spec fn first_field_with_id(cols: Seq<ColumnView>, id: u32, from: int) -> int
    decreases cols.len() - from,
{
    if from < 0 || from >= cols.len() {
        cols.len() as int
    } else if is_field_with_id(cols[from], id) {
        from
    } else {
        first_field_with_id(cols, id, from + 1)
    }
}

/// The field columns among the first `n`, in column order.
pub open spec fn field_columns(cols: Seq<ColumnView>, n: int) -> Seq<ColumnView>
    decreases n,
{
    if n <= 0 || n > cols.len() {
        Seq::empty()
    } else if cols[n - 1].column_type.spec_is_field() {
        field_columns(cols, n - 1).push(cols[n - 1])
    } else {
        field_columns(cols, n - 1)
    }
}

/// The precision of the first time column; nanoseconds where there is no
/// time column or its unit is none that points are written in.
pub open spec fn time_precision(cols: Seq<ColumnView>) -> Precision {
    let i = first_time(cols, 0);
    if i < cols.len() {
        match cols[i].column_type.spec_precision() {
            Some(p) => p,
            None => Precision::NS,
        }
    } else {
        Precision::NS
    }
}

/// The first time column; where there is none, a column named `time` with
/// id 0 in nanoseconds.
pub open spec fn time_column_of(cols: Seq<ColumnView>) -> ColumnView {
    let i = first_time(cols, 0);
    if i < cols.len() {
        cols[i]
    } else {
        ColumnView {
            id: 0,
            name: crate::schema::time_column_name(),
            column_type: ColumnType::Time(TimeUnit::Nanosecond),
            encoding: crate::schema::Encoding::Default,
        }
    }
}

/// A versioned snapshot of a table's columns.
#[derive(Debug, PartialEq, Eq)]
pub struct TskvTableSchema {
    pub tenant: String,
    pub db: String,
    pub name: String,
    pub schema_id: u32,
    pub next_column_id: u32,
    pub columns: Vec<TableColumn>,
}

/// What a schema snapshot stands for.
pub struct SchemaView {
    pub tenant: Seq<char>,
    pub db: Seq<char>,
    pub name: Seq<char>,
    pub schema_id: u32,
    pub next_column_id: u32,
    pub columns: Seq<ColumnView>,
}

impl View for TskvTableSchema {
    type V = SchemaView;

    open spec fn view(&self) -> SchemaView {
        SchemaView {
            tenant: self.tenant@,
            db: self.db@,
            name: self.name@,
            schema_id: self.schema_id,
            next_column_id: self.next_column_id,
            columns: columns_view(self.columns@),
        }
    }
}

impl SchemaView {
    /// The number of field columns.
    pub open spec fn field_num(self) -> nat {
        field_count(self.columns, self.columns.len() as int)
    }

    /// The ordinal of the field with the given id.
    pub open spec fn field_index(self, id: u32) -> Option<int> {
        field_ordinal(self.columns, id)
    }

    /// The schema with one more column, unless one of that name exists.
    /// The next column id moves on either way.
    pub open spec fn add_column(self, col: ColumnView) -> SchemaView {
        SchemaView {
            columns: if column_position(self.columns, col.name) is Some {
                self.columns
            } else {
                self.columns.push(col)
            },
            next_column_id: if self.next_column_id == u32::MAX {
                0u32
            } else {
                (self.next_column_id + 1) as u32
            },
            ..self
        }
    }

    /// The schema without the last column of the given name.
    pub open spec fn drop_column(self, name: Seq<char>) -> SchemaView {
        match column_position(self.columns, name) {
            Some(i) => SchemaView { columns: self.columns.remove(i), ..self },
            None => self,
        }
    }

    /// The schema with the last column of the given name replaced.
    pub open spec fn change_column(self, name: Seq<char>, col: ColumnView) -> SchemaView {
        match column_position(self.columns, name) {
            Some(i) => SchemaView { columns: self.columns.update(i, col), ..self },
            None => self,
        }
    }

    /// The schema under another identifier.
    pub open spec fn with_id(self, schema_id: u32) -> SchemaView {
        SchemaView { schema_id, ..self }
    }
}

/// `last_named` yields a position of that name with no later one, or -1.
pub proof fn lemma_last_named(cols: Seq<ColumnView>, name: Seq<char>, n: int)
    requires
        0 <= n <= cols.len(),
    ensures
        -1 <= last_named(cols, name, n) < n,
        last_named(cols, name, n) >= 0 ==> cols[last_named(cols, name, n)].name == name,
        forall|k: int| last_named(cols, name, n) < k < n ==> (#[trigger] cols[k]).name != name,
    decreases n,
{
    if n > 0 && cols[n - 1].name != name {
        lemma_last_named(cols, name, n - 1);
    }
}

/// `first_with_id` yields the first column of that id from `from` on, or
/// the length.
pub proof fn lemma_first_with_id(cols: Seq<ColumnView>, id: u32, from: int)
    requires
        0 <= from <= cols.len(),
    ensures
        from <= first_with_id(cols, id, from) <= cols.len(),
        first_with_id(cols, id, from) < cols.len() ==> cols[first_with_id(cols, id, from)].id
            == id,
        forall|k: int| from <= k < first_with_id(cols, id, from) ==> (#[trigger] cols[k]).id != id,
    decreases cols.len() - from,
{
    if from < cols.len() && cols[from].id != id {
        lemma_first_with_id(cols, id, from + 1);
    }
}

/// Counting fields is monotone in the prefix length and bounded by it.
pub proof fn lemma_field_count_bounds(cols: Seq<ColumnView>, id: u32, n: int)
    requires
        0 <= n <= cols.len(),
    ensures
        field_ids_upto(cols, id, n) <= field_count(cols, n) <= n,
        field_columns(cols, n).len() == field_count(cols, n),
    decreases n,
{
    if n > 0 {
        lemma_field_count_bounds(cols, id, n - 1);
    }
}

/// A field with the id among the first `n` columns is counted.
pub proof fn lemma_field_counted(cols: Seq<ColumnView>, id: u32, n: int, k: int)
    requires
        0 <= k < n <= cols.len(),
        is_field_with_id(cols[k], id),
    ensures
        field_ids_upto(cols, id, n) >= 1,
    decreases n,
{
    if k < n - 1 {
        lemma_field_counted(cols, id, n - 1, k);
    }
}

/// The ordinal of a field that exists lies below the number of fields.
pub proof fn lemma_field_ordinal_in_range(cols: Seq<ColumnView>, id: u32)
    ensures
        match field_ordinal(cols, id) {
            Some(o) => 0 <= o < field_count(cols, cols.len() as int),
            None => true,
        },
{
    if has_field(cols, id) {
        let k = choose|k: int| 0 <= k < cols.len() && #[trigger] is_field_with_id(cols[k], id);
        lemma_field_counted(cols, id, cols.len() as int, k);
        lemma_field_count_bounds(cols, id, cols.len() as int);
    }
}

/// A copy of a list of column definitions.
pub fn duplicate_columns(cols: &Vec<TableColumn>) -> (r: Vec<TableColumn>)
    ensures
        columns_view(r@) == columns_view(cols@),
{
    let mut r: Vec<TableColumn> = Vec::with_capacity(cols.len());
    let mut i: usize = 0;
    while i < cols.len()
        invariant
            i <= cols.len(),
            r.len() == i,
            forall|k: int| 0 <= k < i ==> (#[trigger] r[k])@ == cols[k]@,
        decreases cols.len() - i,
    {
        r.push(cols[i].duplicate());
        i += 1;
    }
    r
}

impl TskvTableSchema {
    /// A schema with identifier 0 over the given columns.
    pub fn new(tenant: String, db: String, name: String, columns: Vec<TableColumn>) -> (r:
        TskvTableSchema)
        ensures
            r@.tenant == tenant@,
            r@.db == db@,
            r@.name == name@,
            r@.schema_id == 0,
            r@.next_column_id as int == (columns.len() as int) % 0x1_0000_0000int,
            r@.columns == columns_view(columns@),
    {
        let wide: u64 = columns.len() as u64;
        let next: u64 = wide % 0x1_0000_0000;
        TskvTableSchema {
            tenant,
            db,
            name,
            schema_id: 0,
            next_column_id: next as u32,
            columns,
        }
    }

    /// A copy of the snapshot.
    pub fn duplicate(&self) -> (r: TskvTableSchema)
        ensures
            r@ == self@,
    {
        TskvTableSchema {
            tenant: self.tenant.clone(),
            db: self.db.clone(),
            name: self.name.clone(),
            schema_id: self.schema_id,
            next_column_id: self.next_column_id,
            columns: duplicate_columns(&self.columns),
        }
    }

    pub fn columns(&self) -> (r: &Vec<TableColumn>)
        ensures
            r == &self.columns,
    {
        &self.columns
    }

    /// The number of field columns.
    pub fn field_num(&self) -> (n: usize)
        ensures
            n == self@.field_num(),
    {
        let mut n: usize = 0;
        let mut i: usize = 0;
        while i < self.columns.len()
            invariant
                i <= self.columns.len(),
                n == field_count(self@.columns, i as int),
                n <= i,
            decreases self.columns.len() - i,
        {
            if self.columns[i].column_type.is_field() {
                n += 1;
            }
            i += 1;
        }
        n
    }

    /// The field columns, in column order.
    pub fn fields(&self) -> (r: Vec<TableColumn>)
        ensures
            columns_view(r@) == field_columns(self@.columns, self@.columns.len() as int),
    {
        let mut r: Vec<TableColumn> = Vec::new();
        let mut i: usize = 0;
        while i < self.columns.len()
            invariant
                i <= self.columns.len(),
                columns_view(r@) == field_columns(self@.columns, i as int),
            decreases self.columns.len() - i,
        {
            if self.columns[i].column_type.is_field() {
                r.push(self.columns[i].duplicate());
            }
            i += 1;
        }
        r
    }

    /// The ordinal of the field with the given id, where there is one.
    pub fn field_index(&self, id: u32) -> (r: Option<usize>)
        ensures
            match r {
                Some(o) => self@.field_index(id) == Some(o as int) && o < self@.field_num(),
                None => self@.field_index(id) is None,
            },
    {
        let mut count: usize = 0;
        let mut found = false;
        let mut i: usize = 0;
        while i < self.columns.len()
            invariant
                i <= self.columns.len(),
                count == field_ids_upto(self@.columns, id, i as int),
                count <= i,
                found <==> exists|k: int|
                    0 <= k < i && #[trigger] is_field_with_id(self@.columns[k], id),
            decreases self.columns.len() - i,
        {
            let c = &self.columns[i];
            if c.column_type.is_field() && c.id <= id {
                count += 1;
                if c.id == id {
                    found = true;
                    assert(is_field_with_id(self@.columns[i as int], id));
                }
            }
            i += 1;
        }
        proof {
            lemma_field_ordinal_in_range(self@.columns, id);
        }
        if found {
            Some(count - 1)
        } else {
            None
        }
    }

    /// The position of the last column with the given name.
    pub fn column_index(&self, name: &str) -> (r: Option<usize>)
        ensures
            match r {
                Some(i) => column_position(self@.columns, name@) == Some(i as int) && i
                    < self.columns.len(),
                None => column_position(self@.columns, name@) is None,
            },
    {
        let key: String = name.to_owned();
        let mut last: Option<usize> = None;
        let mut i: usize = 0;
        while i < self.columns.len()
            invariant
                i <= self.columns.len(),
                key@ == name@,
                match last {
                    Some(k) => k as int == last_named(self@.columns, name@, i as int),
                    None => last_named(self@.columns, name@, i as int) == -1,
                },
            decreases self.columns.len() - i,
        {
            if self.columns[i].name == key {
                last = Some(i);
            }
            i += 1;
        }
        proof {
            lemma_last_named(self@.columns, name@, self.columns.len() as int);
        }
        last
    }

    /// The last column with the given name.
    pub fn column(&self, name: &str) -> (r: Option<&TableColumn>)
        ensures
            match r {
                Some(c) => match column_position(self@.columns, name@) {
                    Some(i) => 0 <= i < self.columns.len() && *c == self.columns[i],
                    None => false,
                },
                None => column_position(self@.columns, name@) is None,
            },
    {
        match self.column_index(name) {
            Some(i) => Some(&self.columns[i]),
            None => None,
        }
    }

    pub fn contains_column(&self, name: &str) -> (b: bool)
        ensures
            b == column_position(self@.columns, name@) is Some,
    {
        self.column_index(name).is_some()
    }

    /// The name of the first column with the given id.
    pub fn column_name(&self, id: u32) -> (r: Option<&String>)
        ensures
            match r {
                Some(n) => first_with_id(self@.columns, id, 0) < self.columns.len()
                    && n@ == self@.columns[first_with_id(self@.columns, id, 0)].name,
                None => first_with_id(self@.columns, id, 0) == self.columns.len(),
            },
    {
        let mut i: usize = 0;
        while i < self.columns.len()
            invariant
                i <= self.columns.len(),
                first_with_id(self@.columns, id, 0) == first_with_id(self@.columns, id, i as int),
            decreases self.columns.len() - i,
        {
            if self.columns[i].id == id {
                return Some(&self.columns[i].name);
            }
            i += 1;
        }
        None
    }

    /// The position of the first time column.
    fn time_index(&self) -> (r: Option<usize>)
        ensures
            match r {
                Some(i) => i < self.columns.len() && i == first_time(self@.columns, 0),
                None => first_time(self@.columns, 0) == self.columns.len(),
            },
    {
        let mut i: usize = 0;
        while i < self.columns.len()
            invariant
                i <= self.columns.len(),
                first_time(self@.columns, 0) == first_time(self@.columns, i as int),
            decreases self.columns.len() - i,
        {
            if self.columns[i].column_type.is_time() {
                return Some(i);
            }
            i += 1;
        }
        None
    }

    /// The precision in which the table stores timestamps.
    pub fn time_column_precision(&self) -> (p: Precision)
        ensures
            p == time_precision(self@.columns),
    {
        match self.time_index() {
            Some(i) => match self.columns[i].column_type.precision() {
                Some(p) => p,
                None => Precision::NS,
            },
            None => Precision::NS,
        }
    }

    /// The definition of the time column.
    pub fn time_column(&self) -> (c: TableColumn)
        ensures
            c@ == time_column_of(self@.columns),
    {
        match self.time_index() {
            Some(i) => self.columns[i].duplicate(),
            None => TableColumn::new_time_column(0, TimeUnit::Nanosecond),
        }
    }

    /// Appends the column unless one of its name exists; the next column id
    /// moves on either way.
    pub fn add_column(&mut self, col: TableColumn)
        ensures
            final(self)@ == old(self)@.add_column(col@),
    {
        let present = self.column_index(col.name.as_str()).is_some();
        if !present {
            let ghost before = self@.columns;
            self.columns.push(col);
            assert(self@.columns =~= before.push(col@));
        }
        self.next_column_id = self.next_column_id.wrapping_add(1);
    }

    /// Removes the last column of the given name, if there is one.
    pub fn drop_column(&mut self, name: &str)
        ensures
            final(self)@ == old(self)@.drop_column(name@),
    {
        match self.column_index(name) {
            Some(i) => {
                let ghost before = self@.columns;
                self.columns.remove(i);
                assert(self@.columns =~= before.remove(i as int));
            },
            None => {},
        }
    }

    /// Replaces the last column of the given name, if there is one.
    pub fn change_column(&mut self, name: &str, col: TableColumn)
        ensures
            final(self)@ == old(self)@.change_column(name@, col@),
    {
        match self.column_index(name) {
            Some(i) => {
                let ghost before = self@.columns;
                self.columns[i] = col;
                assert(self@.columns =~= before.update(i as int, col@));
            },
            None => {},
        }
    }
}

impl Clone for TskvTableSchema {
    fn clone(&self) -> (r: TskvTableSchema)
        ensures
            r@ == self@,
    {
        self.duplicate()
    }
}

} // verus!
