//! The configuration of a load: table specs, where each column sits in a
//! CSV record, and the SQL attributes of each column.

use vstd::prelude::*;

verus! {

/// A table to create and fill: its name and its columns in order. For a
/// lookup table the first column is the dedup key.
pub struct TableSpec {
    pub name: String,
    pub columns: Vec<String>,
}

/// A column's zero-based position in a raw CSV record.
pub struct ColumnIndex {
    pub column: String,
    pub index: usize,
}

/// A column's SQL type and attributes, as written in CREATE TABLE
/// (`INTEGER PRIMARY KEY`, `TEXT`).
pub struct ColumnAttribute {
    pub column: String,
    pub attribute: String,
}

/// The position of `col`: the first entry of the map that names it.
pub open spec fn index_of(map: Seq<ColumnIndex>, col: Seq<char>) -> Option<usize>
    decreases map.len(),
{
    if map.len() == 0 {
        None
    } else if map[0].column@ == col {
        Some(map[0].index)
    } else {
        index_of(map.drop_first(), col)
    }
}

/// The attributes of `col`: the first entry of the list that names it.
pub open spec fn attribute_of(attrs: Seq<ColumnAttribute>, col: Seq<char>) -> Option<Seq<char>>
    decreases attrs.len(),
{
    if attrs.len() == 0 {
        None
    } else if attrs[0].column@ == col {
        Some(attrs[0].attribute@)
    } else {
        attribute_of(attrs.drop_first(), col)
    }
}

/// Looks up the position of `col`.
pub fn find_index(map: &Vec<ColumnIndex>, col: &String) -> (r: Option<usize>)
    ensures
        r == index_of(map@, col@),
{
    let mut i: usize = 0;
    assert(map@.skip(0) =~= map@);
    while i < map.len()
        invariant
            0 <= i <= map.len(),
            index_of(map@, col@) == index_of(map@.skip(i as int), col@),
        decreases map.len() - i,
    {
        assert(map@.skip(i as int).drop_first() =~= map@.skip(i + 1));
        if map[i].column.eq(col) {
            return Some(map[i].index);
        }
        i += 1;
    }
    None
}

/// Looks up the attributes of `col`.
pub fn find_attribute(attrs: &Vec<ColumnAttribute>, col: &String) -> (r: Option<String>)
    ensures
        r matches Some(a) ==> attribute_of(attrs@, col@) == Some(a@),
        r is None ==> attribute_of(attrs@, col@) is None,
{
    let mut i: usize = 0;
    assert(attrs@.skip(0) =~= attrs@);
    while i < attrs.len()
        invariant
            0 <= i <= attrs.len(),
            attribute_of(attrs@, col@) == attribute_of(attrs@.skip(i as int), col@),
        decreases attrs.len() - i,
    {
        assert(attrs@.skip(i as int).drop_first() =~= attrs@.skip(i + 1));
        if attrs[i].column.eq(col) {
            return Some(attrs[i].attribute.clone());
        }
        i += 1;
    }
    None
}

/// The columns that a column map names, in order.
pub open spec fn index_columns(map: Seq<ColumnIndex>) -> Seq<Seq<char>> {
    map.map_values(|c: ColumnIndex| c.column@)
}

/// The columns that a list of attributes names, in order.
pub open spec fn attribute_columns(attrs: Seq<ColumnAttribute>) -> Seq<Seq<char>> {
    attrs.map_values(|c: ColumnAttribute| c.column@)
}

/// A name that occurs twice in `names`, the first whose second occurrence
/// comes first; `None` where all differ.
pub fn first_repeat(names: &Vec<String>) -> (r: Option<String>)
    ensures
        r is None <==> names@.map_values(|s: String| s@).no_duplicates(),
{
    let ghost v = names@.map_values(|s: String| s@);
    let mut i: usize = 0;
    while i < names.len()
        invariant
            0 <= i <= names.len(),
            v == names@.map_values(|s: String| s@),
            forall|a: int, b: int| 0 <= a < b < i ==> v[a] != v[b],
        decreases names.len() - i,
    {
        let mut j: usize = 0;
        while j < i
            invariant
                0 <= j <= i < names.len(),
                v == names@.map_values(|s: String| s@),
                forall|b: int| 0 <= b < j ==> v[b] != v[i as int],
            decreases i - j,
        {
            if names[j].eq(&names[i]) {
                assert(!v.no_duplicates()) by {
                    assert(v[j as int] == v[i as int]);
                }
                return Some(names[i].clone());
            }
            j += 1;
        }
        i += 1;
    }
    assert(v.no_duplicates()) by {
        assert forall|a: int, b: int| 0 <= a < v.len() && 0 <= b < v.len() && a != b implies v[a]
            != v[b] by {
            if a > b {
                assert(v[b] != v[a]);
            }
        }
    }
    None
}

/// The columns that a column map names.
pub fn index_column_names(map: &Vec<ColumnIndex>) -> (r: Vec<String>)
    ensures
        r@.map_values(|s: String| s@) == index_columns(map@),
{
    let mut r: Vec<String> = Vec::new();
    let mut i: usize = 0;
    while i < map.len()
        invariant
            0 <= i <= map.len(),
            r@.map_values(|s: String| s@) =~= index_columns(map@.take(i as int)),
        decreases map.len() - i,
    {
        let ghost prev = r@;
        r.push(map[i].column.clone());
        assert(r@.map_values(|s: String| s@) =~= prev.map_values(|s: String| s@).push(map@[i as int].column@));
        assert(map@.take(i + 1) =~= map@.take(i as int).push(map@[i as int]));
        i += 1;
    }
    assert(map@.take(map.len() as int) =~= map@);
    r
}

/// The columns that a list of attributes names.
pub fn attribute_column_names(attrs: &Vec<ColumnAttribute>) -> (r: Vec<String>)
    ensures
        r@.map_values(|s: String| s@) == attribute_columns(attrs@),
{
    let mut r: Vec<String> = Vec::new();
    let mut i: usize = 0;
    while i < attrs.len()
        invariant
            0 <= i <= attrs.len(),
            r@.map_values(|s: String| s@) =~= attribute_columns(attrs@.take(i as int)),
        decreases attrs.len() - i,
    {
        let ghost prev = r@;
        r.push(attrs[i].column.clone());
        assert(r@.map_values(|s: String| s@) =~= prev.map_values(|s: String| s@).push(attrs@[i as int].column@));
        assert(attrs@.take(i + 1) =~= attrs@.take(i as int).push(attrs@[i as int]));
        i += 1;
    }
    assert(attrs@.take(attrs.len() as int) =~= attrs@);
    r
}

} // verus!
