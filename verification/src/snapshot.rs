//! The columns of a trajectory snapshot.
//!
//! A snapshot is one record for each output tick, under one header. A record
//! starts with the time and an empty column. Then come, for each test
//! particle, its position and velocity and an empty column, and for each
//! massive body, its mass, position and velocity and an empty column. The
//! header and every record follow the same list of columns.

use crate::limits::{listable, LIST_LIMIT};
use crate::body::Body;
use vstd::prelude::*;

verus! {

/// One quantity of a body.
#[derive(Clone, Copy, Debug, PartialEq, Eq, Structural)]
pub enum Field {
    Mass,
    X,
    Y,
    Z,
    Vx,
    Vy,
    Vz,
}

/// One column of a snapshot.
#[derive(Clone, Copy, Debug, PartialEq, Eq, Structural)]
pub enum Column {
    /// The time of the record.
    Time,
    /// An empty column that sets two groups apart.
    Gap,
    /// A quantity of a body.
    Of(Body, Field),
}

impl Field {
    /// The name of the field in the header.
    pub open spec fn label_of(self) -> Seq<char> {
        match self {
            Field::Mass => "m"@,
            Field::X => "x"@,
            Field::Y => "y"@,
            Field::Z => "z"@,
            Field::Vx => "vx"@,
            Field::Vy => "vy"@,
            Field::Vz => "vz"@,
        }
    }

    /// The name of the field in the header.
    pub fn label(&self) -> (name: &'static str)
        ensures
            name@ == self.label_of(),
    {
        match self {
            Field::Mass => "m",
            Field::X => "x",
            Field::Y => "y",
            Field::Z => "z",
            Field::Vx => "vx",
            Field::Vy => "vy",
            Field::Vz => "vz",
        }
    }
}

impl Column {
    /// The text of the column in the header.
    pub open spec fn label_of(self) -> Seq<char> {
        match self {
            Column::Time => "Time"@,
            Column::Gap => ""@,
            Column::Of(_, field) => field.label_of(),
        }
    }

    /// The text of the column in the header.
    pub fn label(&self) -> (name: &'static str)
        ensures
            name@ == self.label_of(),
    {
        match self {
            Column::Time => "Time",
            Column::Gap => "",
            Column::Of(_, field) => field.label(),
        }
    }
}

/// The columns of test particle `i`.
pub open spec fn test_block(i: usize) -> Seq<Column> {
    seq![
        Column::Of(Body::Test(i), Field::X),
        Column::Of(Body::Test(i), Field::Y),
        Column::Of(Body::Test(i), Field::Z),
        Column::Of(Body::Test(i), Field::Vx),
        Column::Of(Body::Test(i), Field::Vy),
        Column::Of(Body::Test(i), Field::Vz),
        Column::Gap,
    ]
}

/// The columns of massive body `i`.
pub open spec fn massive_block(i: usize) -> Seq<Column> {
    seq![
        Column::Of(Body::Massive(i), Field::Mass),
        Column::Of(Body::Massive(i), Field::X),
        Column::Of(Body::Massive(i), Field::Y),
        Column::Of(Body::Massive(i), Field::Z),
        Column::Of(Body::Massive(i), Field::Vx),
        Column::Of(Body::Massive(i), Field::Vy),
        Column::Of(Body::Massive(i), Field::Vz),
        Column::Gap,
    ]
}

/// The columns of the first `count` test particles.
pub open spec fn test_blocks(count: nat) -> Seq<Column>
    decreases count,
{
    if count == 0 {
        Seq::empty()
    } else {
        test_blocks((count - 1) as nat) + test_block((count - 1) as usize)
    }
}

/// The columns of the first `count` massive bodies.
pub open spec fn massive_blocks(count: nat) -> Seq<Column>
    decreases count,
{
    if count == 0 {
        Seq::empty()
    } else {
        massive_blocks((count - 1) as nat) + massive_block((count - 1) as usize)
    }
}

/// The columns of a snapshot, in order.
pub open spec fn columns_of(tests: nat, massives: nat) -> Seq<Column> {
    seq![Column::Time, Column::Gap] + test_blocks(tests) + massive_blocks(massives)
}

/// The number of columns: two, seven for a test particle, eight for a
/// massive body.
pub open spec fn columns_len(tests: nat, massives: nat) -> nat {
    2 + 7 * tests + 8 * massives
}

/// Lists the columns of a snapshot of `tests` test particles and `massives`
/// massive bodies; `None` where the list would be too long to hold.
pub fn snapshot_columns(tests: usize, massives: usize) -> (columns: Option<Vec<Column>>)
    ensures
        match columns {
            Some(list) => listable(columns_len(tests as nat, massives as nat) as int) && list@
                == columns_of(tests as nat, massives as nat),
            None => !listable(columns_len(tests as nat, massives as nat) as int),
        },
{
    if tests > LIST_LIMIT / 7 || massives > LIST_LIMIT / 8 {
        return None;
    }
    if 2 + 7 * tests + 8 * massives > LIST_LIMIT {
        return None;
    }
    let mut list: Vec<Column> = Vec::new();
    list.push(Column::Time);
    list.push(Column::Gap);
    let ghost head = list@;
    assert(head =~= seq![Column::Time, Column::Gap]);
    let mut i: usize = 0;
    while i < tests
        invariant
            i <= tests,
            list@ == head + test_blocks(i as nat),
        decreases tests - i,
    {
        let body = Body::Test(i);
        list.push(Column::Of(body, Field::X));
        list.push(Column::Of(body, Field::Y));
        list.push(Column::Of(body, Field::Z));
        list.push(Column::Of(body, Field::Vx));
        list.push(Column::Of(body, Field::Vy));
        list.push(Column::Of(body, Field::Vz));
        list.push(Column::Gap);
        assert(list@ =~= head + (test_blocks(i as nat) + test_block(i)));
        i += 1;
    }
    let ghost upper = list@;
    let mut j: usize = 0;
    while j < massives
        invariant
            j <= massives,
            list@ == upper + massive_blocks(j as nat),
        decreases massives - j,
    {
        let body = Body::Massive(j);
        list.push(Column::Of(body, Field::Mass));
        list.push(Column::Of(body, Field::X));
        list.push(Column::Of(body, Field::Y));
        list.push(Column::Of(body, Field::Z));
        list.push(Column::Of(body, Field::Vx));
        list.push(Column::Of(body, Field::Vy));
        list.push(Column::Of(body, Field::Vz));
        list.push(Column::Gap);
        assert(list@ =~= upper + (massive_blocks(j as nat) + massive_block(j)));
        j += 1;
    }
    Some(list)
}

/// The columns of the test particles are seven for each.
pub proof fn lemma_test_blocks_len(count: nat)
    ensures
        test_blocks(count).len() == 7 * count,
    decreases count,
{
    if count > 0 {
        lemma_test_blocks_len((count - 1) as nat);
    }
}

/// The columns of the massive bodies are eight for each.
pub proof fn lemma_massive_blocks_len(count: nat)
    ensures
        massive_blocks(count).len() == 8 * count,
    decreases count,
{
    if count > 0 {
        lemma_massive_blocks_len((count - 1) as nat);
    }
}

/// Column `slot` of test particle `i` stands at `7 * i + slot` among the
/// columns of the test particles.
pub proof fn lemma_test_blocks_entry(count: nat, i: int, slot: int)
    requires
        0 <= i < count,
        0 <= slot < 7,
    ensures
        test_blocks(count).len() == 7 * count,
        test_blocks(count)[7 * i + slot] == test_block(i as usize)[slot],
    decreases count,
{
    lemma_test_blocks_len(count);
    lemma_test_blocks_len((count - 1) as nat);
    if i < count - 1 {
        lemma_test_blocks_entry((count - 1) as nat, i, slot);
    }
}

/// Column `slot` of massive body `i` stands at `8 * i + slot` among the
/// columns of the massive bodies.
pub proof fn lemma_massive_blocks_entry(count: nat, i: int, slot: int)
    requires
        0 <= i < count,
        0 <= slot < 8,
    ensures
        massive_blocks(count).len() == 8 * count,
        massive_blocks(count)[8 * i + slot] == massive_block(i as usize)[slot],
    decreases count,
{
    lemma_massive_blocks_len(count);
    lemma_massive_blocks_len((count - 1) as nat);
    if i < count - 1 {
        lemma_massive_blocks_entry((count - 1) as nat, i, slot);
    }
}

/// Where each column of a snapshot stands: the time and a gap, then seven
/// columns for each test particle, then eight for each massive body.
pub proof fn lemma_columns_entry(tests: nat, massives: nat)
    ensures
        columns_of(tests, massives).len() == columns_len(tests, massives),
        columns_of(tests, massives)[0] == Column::Time,
        columns_of(tests, massives)[1] == Column::Gap,
        forall|i: int, slot: int|
            0 <= i < tests && 0 <= slot < 7 ==> columns_of(tests, massives)[2 + 7 * i + slot]
                == #[trigger] test_block(i as usize)[slot],
        forall|i: int, slot: int|
            0 <= i < massives && 0 <= slot < 8 ==> columns_of(tests, massives)[2 + 7 * tests + 8
                * i + slot] == #[trigger] massive_block(i as usize)[slot],
{
    lemma_columns_len(tests, massives);
    assert forall|i: int, slot: int| 0 <= i < tests && 0 <= slot < 7 implies columns_of(
        tests,
        massives,
    )[2 + 7 * i + slot] == #[trigger] test_block(i as usize)[slot] by {
        lemma_test_blocks_entry(tests, i, slot);
    }
    assert forall|i: int, slot: int| 0 <= i < massives && 0 <= slot < 8 implies columns_of(
        tests,
        massives,
    )[2 + 7 * tests + 8 * i + slot] == #[trigger] massive_block(i as usize)[slot] by {
        lemma_test_blocks_len(tests);
        lemma_massive_blocks_entry(massives, i, slot);
    }
}

/// A snapshot has `columns_len` columns.
pub proof fn lemma_columns_len(tests: nat, massives: nat)
    ensures
        columns_of(tests, massives).len() == columns_len(tests, massives),
{
    lemma_test_blocks_len(tests);
    lemma_massive_blocks_len(massives);
}

} // verus!
