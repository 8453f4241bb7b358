//! The decoded rows of a time-series response.

use vstd::prelude::*;

verus! {

/// The attributes that a record can carry.
#[derive(Debug, Clone, Copy, PartialEq, Eq)]
pub enum Attr {
    Result,
    Table,
    Start,
    Stop,
    Time,
    Value,
    Field,
    Measurement,
    Country,
    Currency,
    Isin,
    Name,
    Source,
    Symbol,
}

/// How many attributes there are.
pub const ATTR_COUNT: usize = 14;

/// The place of `attr` among the attributes, from 0.
pub open spec fn attr_slot(attr: Attr) -> int {
    match attr {
        Attr::Result => 0,
        Attr::Table => 1,
        Attr::Start => 2,
        Attr::Stop => 3,
        Attr::Time => 4,
        Attr::Value => 5,
        Attr::Field => 6,
        Attr::Measurement => 7,
        Attr::Country => 8,
        Attr::Currency => 9,
        Attr::Isin => 10,
        Attr::Name => 11,
        Attr::Source => 12,
        Attr::Symbol => 13,
    }
}

impl Attr {
    /// The place of this attribute among the attributes, from 0.
    pub fn slot(self) -> (i: usize)
        ensures
            i == attr_slot(self),
            i < ATTR_COUNT,
    {
        match self {
            Attr::Result => 0,
            Attr::Table => 1,
            Attr::Start => 2,
            Attr::Stop => 3,
            Attr::Time => 4,
            Attr::Value => 5,
            Attr::Field => 6,
            Attr::Measurement => 7,
            Attr::Country => 8,
            Attr::Currency => 9,
            Attr::Isin => 10,
            Attr::Name => 11,
            Attr::Source => 12,
            Attr::Symbol => 13,
        }
    }
}

/// One decoded row. An attribute is `None` where the payload has no column
/// for it or the row's cell in that column is empty.
#[derive(Debug, Clone, PartialEq, Eq)]
pub struct LendableTable {
    /// The label of the query's result set.
    pub result: Option<String>,
    /// The id that groups rows into one series.
    pub table: Option<i32>,
    /// Where the queried range starts, as a timestamp.
    pub start: Option<String>,
    /// Where the queried range stops, as a timestamp.
    pub stop: Option<String>,
    /// When the sample was taken, as a timestamp.
    pub time: Option<String>,
    /// The measurement: the text of a floating-point number.
    pub value: Option<String>,
    /// Which field was measured.
    pub field: Option<String>,
    /// Which measurement the field belongs to.
    pub measurement: Option<String>,
    pub country: Option<String>,
    pub currency: Option<String>,
    pub isin: Option<String>,
    pub name: Option<String>,
    pub source: Option<String>,
    pub symbol: Option<String>,
}

/// The mathematical value of a [`LendableTable`].
pub struct LendableTableView {
    pub result: Option<Seq<char>>,
    pub table: Option<i32>,
    pub start: Option<Seq<char>>,
    pub stop: Option<Seq<char>>,
    pub time: Option<Seq<char>>,
    pub value: Option<Seq<char>>,
    pub field: Option<Seq<char>>,
    pub measurement: Option<Seq<char>>,
    pub country: Option<Seq<char>>,
    pub currency: Option<Seq<char>>,
    pub isin: Option<Seq<char>>,
    pub name: Option<Seq<char>>,
    pub source: Option<Seq<char>>,
    pub symbol: Option<Seq<char>>,
}

/// The characters of an optional text.
pub open spec fn text_view(text: Option<String>) -> Option<Seq<char>> {
    match text {
        Some(t) => Some(t@),
        None => None,
    }
}

impl View for LendableTable {
    type V = LendableTableView;

    open spec fn view(&self) -> LendableTableView {
        LendableTableView {
            result: text_view(self.result),
            table: self.table,
            start: text_view(self.start),
            stop: text_view(self.stop),
            time: text_view(self.time),
            value: text_view(self.value),
            field: text_view(self.field),
            measurement: text_view(self.measurement),
            country: text_view(self.country),
            currency: text_view(self.currency),
            isin: text_view(self.isin),
            name: text_view(self.name),
            source: text_view(self.source),
            symbol: text_view(self.symbol),
        }
    }
}

/// The values of the records `list`, in order.
pub open spec fn records_view(list: Seq<LendableTable>) -> Seq<LendableTableView> {
    list.map_values(|r: LendableTable| r@)
}

/// The records of one response, in the order of its rows.
#[derive(Debug, Clone, PartialEq, Eq)]
pub struct ResponseTables {
    pub list: Vec<LendableTable>,
}

impl View for ResponseTables {
    type V = Seq<LendableTableView>;

    open spec fn view(&self) -> Seq<LendableTableView> {
        records_view(self.list@)
    }
}

} // verus!
