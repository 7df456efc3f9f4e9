//! Table schemas: immutable snapshots of a table's column set.

use vstd::prelude::*;

verus! {

/// The type of the values of a field column.
#[derive(Clone, Copy, Debug, PartialEq, Eq, Structural)]
pub enum ValueType {
    Unknown,
    Float,
    Integer,
    Unsigned,
    Boolean,
    String,
}

/// The resolution of a time column.
#[derive(Clone, Copy, Debug, PartialEq, Eq, Structural)]
pub enum TimeUnit {
    Second,
    Millisecond,
    Microsecond,
    Nanosecond,
}

/// The timestamp precisions that written points may carry.
#[derive(Clone, Copy, Debug, PartialEq, Eq, Structural)]
pub enum Precision {
    MS,
    US,
    NS,
}

/// How the values of a column are encoded once durable.
#[derive(Clone, Copy, Debug, PartialEq, Eq, Structural)]
pub enum Encoding {
    Default,
    Null,
    Delta,
    Quantile,
    Gzip,
    Bzip,
    Gorilla,
    Snappy,
    Zstd,
    Zlib,
    BitPack,
}

impl Default for Encoding {
    fn default() -> (r: Encoding)
        ensures
            r == Encoding::Default,
    {
        Encoding::Default
    }
}

/// The role of a column in a table.
#[derive(Clone, Copy, Debug, PartialEq, Eq, Structural)]
pub enum ColumnType {
    Tag,
    Time(TimeUnit),
    Field(ValueType),
}

impl Precision {
    /// The time unit of a column that stores timestamps of this precision.
    pub open spec fn spec_unit(self) -> TimeUnit {
        match self {
            Precision::MS => TimeUnit::Millisecond,
            Precision::US => TimeUnit::Microsecond,
            Precision::NS => TimeUnit::Nanosecond,
        }
    }

    pub fn unit(&self) -> (u: TimeUnit)
        ensures
            u == self.spec_unit(),
    {
        match self {
            Precision::MS => TimeUnit::Millisecond,
            Precision::US => TimeUnit::Microsecond,
            Precision::NS => TimeUnit::Nanosecond,
        }
    }
}

impl ColumnType {
    pub open spec fn spec_is_field(self) -> bool {
        self is Field
    }

    pub open spec fn spec_is_time(self) -> bool {
        self is Time
    }

    /// The precision of a time column, where its unit is one that points
    /// can be written in.
    pub open spec fn spec_precision(self) -> Option<Precision> {
        match self {
            ColumnType::Time(TimeUnit::Millisecond) => Some(Precision::MS),
            ColumnType::Time(TimeUnit::Microsecond) => Some(Precision::US),
            ColumnType::Time(TimeUnit::Nanosecond) => Some(Precision::NS),
            _ => None,
        }
    }

    pub fn is_field(&self) -> (b: bool)
        ensures
            b == self.spec_is_field(),
    {
        match self {
            ColumnType::Field(_) => true,
            _ => false,
        }
    }

    pub fn is_time(&self) -> (b: bool)
        ensures
            b == self.spec_is_time(),
    {
        match self {
            ColumnType::Time(_) => true,
            _ => false,
        }
    }

    pub fn is_tag(&self) -> (b: bool)
        ensures
            b == (*self == ColumnType::Tag),
    {
        match self {
            ColumnType::Tag => true,
            _ => false,
        }
    }

    pub fn precision(&self) -> (p: Option<Precision>)
        ensures
            p == self.spec_precision(),
    {
        match self {
            ColumnType::Time(TimeUnit::Millisecond) => Some(Precision::MS),
            ColumnType::Time(TimeUnit::Microsecond) => Some(Precision::US),
            ColumnType::Time(TimeUnit::Nanosecond) => Some(Precision::NS),
            _ => None,
        }
    }
}

/// The definition of one column.
#[derive(Debug, PartialEq, Eq)]
pub struct TableColumn {
    pub id: u32,
    pub name: String,
    pub column_type: ColumnType,
    pub encoding: Encoding,
}

/// What a column definition stands for.
pub struct ColumnView {
    pub id: u32,
    pub name: Seq<char>,
    pub column_type: ColumnType,
    pub encoding: Encoding,
}

impl View for TableColumn {
    type V = ColumnView;

    open spec fn view(&self) -> ColumnView {
        ColumnView {
            id: self.id,
            name: self.name@,
            column_type: self.column_type,
            encoding: self.encoding,
        }
    }
}

/// The name that every time column carries.
pub open spec fn time_column_name() -> Seq<char> {
    seq!['t', 'i', 'm', 'e']
}

impl TableColumn {
    pub fn new(id: u32, name: String, column_type: ColumnType, encoding: Encoding) -> (c:
        TableColumn)
        ensures
            c@ == (ColumnView { id, name: name@, column_type, encoding }),
    {
        TableColumn { id, name, column_type, encoding }
    }

    /// The time column of a table, named `time`.
    pub fn new_time_column(id: u32, unit: TimeUnit) -> (c: TableColumn)
        ensures
            c@ == (ColumnView {
                id,
                name: time_column_name(),
                column_type: ColumnType::Time(unit),
                encoding: Encoding::Default,
            }),
    {
        let name = "time".to_owned();
        proof {
            reveal_strlit("time");
            assert(name@ =~= time_column_name());
        }
        TableColumn {
            id,
            name,
            column_type: ColumnType::Time(unit),
            encoding: Encoding::Default,
        }
    }

    pub fn new_tag_column(id: u32, name: String) -> (c: TableColumn)
        ensures
            c@ == (ColumnView {
                id,
                name: name@,
                column_type: ColumnType::Tag,
                encoding: Encoding::Default,
            }),
    {
        TableColumn { id, name, column_type: ColumnType::Tag, encoding: Encoding::Default }
    }

    /// A copy of the definition.
    pub fn duplicate(&self) -> (c: TableColumn)
        ensures
            c@ == self@,
    {
        TableColumn {
            id: self.id,
            name: self.name.clone(),
            column_type: self.column_type,
            encoding: self.encoding,
        }
    }
}

impl Clone for TableColumn {
    fn clone(&self) -> (c: TableColumn)
        ensures
            c@ == self@,
    {
        self.duplicate()
    }
}

} // verus!
