//! The textual forms in which the command line hands over a row, a list of
//! changes and the load configuration: fields split at a separator
//! character, `key=value` pairs, `table:col|col` specs.

use crate::config::{ColumnAttribute, ColumnIndex, TableSpec};
use crate::records::{i32_of_text, parse_i32};
use crate::sql::texts;
use vstd::prelude::*;

verus! {

/// `s` cut at every `sep`: one more piece than there are separators.
pub open spec fn split_text(s: Seq<char>, sep: char) -> Seq<Seq<char>>
    decreases s.len(),
{
    if s.len() == 0 {
        seq![Seq::empty()]
    } else {
        let init = split_text(s.drop_last(), sep);
        if s.last() == sep {
            init.push(Seq::empty())
        } else {
            init.drop_last().push(init.last().push(s.last()))
        }
    }
}

/// Cuts `s` at every `sep`.
pub fn split_fields(s: &str, sep: char) -> (r: Vec<String>)
    ensures
        texts(r@) == split_text(s@, sep),
{
    let n = s.unicode_len();
    let mut parts: Vec<String> = Vec::new();
    let mut start: usize = 0;
    let mut i: usize = 0;
    assert(s@.take(0) =~= Seq::<char>::empty());
    assert(texts(parts@).push(s@.subrange(0, 0)) =~= seq![Seq::<char>::empty()]);
    while i < n
        invariant
            n == s@.len(),
            0 <= start <= i <= n,
            split_text(s@.take(i as int), sep) =~= texts(parts@).push(s@.subrange(start as int, i as int)),
        decreases n - i,
    {
        let c = s.get_char(i);
        let ghost init = split_text(s@.take(i as int), sep);
        proof {
            let t = s@.take(i + 1);
            assert(t.drop_last() =~= s@.take(i as int));
            assert(t.last() == c);
            assert(split_text(t, sep) == if c == sep {
                init.push(Seq::empty())
            } else {
                init.drop_last().push(init.last().push(c))
            });
        }
        if c == sep {
            let piece = String::from_str(s.substring_char(start, i));
            let ghost prev = parts@;
            parts.push(piece);
            assert(texts(parts@) =~= texts(prev).push(s@.subrange(start as int, i as int)));
            assert(s@.subrange(i + 1, i + 1) =~= Seq::<char>::empty());
            start = i + 1;
        } else {
            assert(s@.subrange(start as int, i + 1) =~= s@.subrange(start as int, i as int).push(c));
            assert(init.drop_last() =~= texts(parts@));
            assert(init.last() == s@.subrange(start as int, i as int));
        }
        i += 1;
    }
    let last = String::from_str(s.substring_char(start, n));
    let ghost prev = parts@;
    parts.push(last);
    assert(texts(parts@) =~= texts(prev).push(s@.subrange(start as int, n as int)));
    assert(s@.take(n as int) =~= s@);
    parts
}

/// Each piece of `s` between `item_sep`s, cut once more at `kv_sep` into
/// exactly two parts; `None` where some piece has not exactly one `kv_sep`.
pub open spec fn pairs_text(s: Seq<char>, item_sep: char, kv_sep: char) -> Option<
    Seq<(Seq<char>, Seq<char>)>,
> {
    let items = split_text(s, item_sep);
    if forall|k: int| 0 <= k < items.len() ==> (#[trigger] split_text(items[k], kv_sep)).len() == 2 {
        Some(
            items.map_values(
                |it: Seq<char>| (split_text(it, kv_sep)[0], split_text(it, kv_sep)[1]),
            ),
        )
    } else {
        None
    }
}

pub open spec fn pairs_view(v: Seq<(String, String)>) -> Seq<(Seq<char>, Seq<char>)> {
    v.map_values(|p: (String, String)| (p.0@, p.1@))
}

/// Reads `key<kv_sep>value` pairs separated by `item_sep`.
pub fn parse_pairs(s: &str, item_sep: char, kv_sep: char) -> (r: Option<Vec<(String, String)>>)
    ensures
        r matches Some(v) ==> pairs_text(s@, item_sep, kv_sep) == Some(pairs_view(v@)),
        r is None ==> pairs_text(s@, item_sep, kv_sep) is None,
{
    let items = split_fields(s, item_sep);
    let ghost iv = texts(items@);
    let mut out: Vec<(String, String)> = Vec::new();
    let mut k: usize = 0;
    while k < items.len()
        invariant
            0 <= k <= items.len(),
            iv == texts(items@),
            iv == split_text(s@, item_sep),
            forall|m: int| 0 <= m < k ==> (#[trigger] split_text(iv[m], kv_sep)).len() == 2,
            pairs_view(out@) =~= iv.take(k as int).map_values(
                |it: Seq<char>| (split_text(it, kv_sep)[0], split_text(it, kv_sep)[1]),
            ),
        decreases items.len() - k,
    {
        let halves = split_fields(items[k].as_str(), kv_sep);
        if halves.len() != 2 {
            assert(split_text(iv[k as int], kv_sep).len() != 2);
            return None;
        }
        assert(halves[0]@ == split_text(iv[k as int], kv_sep)[0]);
        assert(halves[1]@ == split_text(iv[k as int], kv_sep)[1]);
        let ghost prev = out@;
        out.push((halves[0].clone(), halves[1].clone()));
        assert(pairs_view(out@) =~= pairs_view(prev).push(
            (split_text(iv[k as int], kv_sep)[0], split_text(iv[k as int], kv_sep)[1]),
        ));
        assert(iv.take(k + 1) =~= iv.take(k as int).push(iv[k as int]));
        k += 1;
    }
    assert(iv.take(items.len() as int) =~= iv);
    Some(out)
}

/// A row given as fields separated by `,`.
pub fn parse_row(text: &str) -> (r: Vec<String>)
    ensures
        texts(r@) == split_text(text@, ','),
{
    split_fields(text, ',')
}

/// Changes given as `col=value` pairs separated by `,`.
pub fn parse_changes(text: &str) -> (r: Option<Vec<(String, String)>>)
    ensures
        r matches Some(v) ==> pairs_text(text@, ',', '=') == Some(pairs_view(v@)),
        r is None ==> pairs_text(text@, ',', '=') is None,
{
    parse_pairs(text, ',', '=')
}

/// Column attributes given as `col=ATTRIBUTES` pairs separated by `;`.
pub fn parse_attributes(text: &str) -> (r: Option<Vec<ColumnAttribute>>)
    ensures
        r matches Some(v) ==> pairs_text(text@, ';', '=') matches Some(p) && p.len() == v@.len()
            && forall|k: int|
            0 <= k < p.len() ==> (#[trigger] v@[k]).column@ == p[k].0 && v@[k].attribute@ == p[k].1,
        r is None ==> pairs_text(text@, ';', '=') is None,
{
    let pairs = match parse_pairs(text, ';', '=') {
        Some(p) => p,
        None => return None,
    };
    let mut out: Vec<ColumnAttribute> = Vec::new();
    let mut k: usize = 0;
    while k < pairs.len()
        invariant
            0 <= k <= pairs.len(),
            out@.len() == k,
            forall|m: int|
                0 <= m < k ==> (#[trigger] out@[m]).column@ == pairs@[m].0@ && out@[m].attribute@
                    == pairs@[m].1@,
        decreases pairs.len() - k,
    {
        out.push(ColumnAttribute { column: pairs[k].0.clone(), attribute: pairs[k].1.clone() });
        k += 1;
    }
    Some(out)
}

/// Whether `t` writes a nonnegative `i32` in base 10.
pub open spec fn index_text_ok(t: Seq<char>) -> bool {
    i32_of_text(t) matches Some(v) && v >= 0
}

/// A column map given as `col=index` pairs separated by `;`; `None` also
/// where an index is not a nonnegative integer.
pub fn parse_column_map(text: &str) -> (r: Option<Vec<ColumnIndex>>)
    ensures
        r is Some <==> (pairs_text(text@, ';', '=') matches Some(p) && forall|k: int|
            0 <= k < p.len() ==> index_text_ok(#[trigger] p[k].1)),
        r matches Some(v) ==> pairs_text(text@, ';', '=') matches Some(p) && p.len() == v@.len()
            && forall|k: int|
            0 <= k < p.len() ==> (#[trigger] v@[k]).column@ == p[k].0 && i32_of_text(p[k].1)
                == Some(v@[k].index as i32),
{
    let pairs = match parse_pairs(text, ';', '=') {
        Some(p) => p,
        None => return None,
    };
    let ghost pv = pairs_view(pairs@);
    let mut out: Vec<ColumnIndex> = Vec::new();
    let mut k: usize = 0;
    while k < pairs.len()
        invariant
            0 <= k <= pairs.len(),
            out@.len() == k,
            forall|m: int|
                0 <= m < k ==> (#[trigger] out@[m]).column@ == pairs@[m].0@ && i32_of_text(
                    pairs@[m].1@,
                ) == Some(out@[m].index as i32),
            pv == pairs_view(pairs@),
            pairs_text(text@, ';', '=') == Some(pv),
            forall|m: int| 0 <= m < k ==> index_text_ok(#[trigger] pv[m].1),
        decreases pairs.len() - k,
    {
        assert(pv[k as int].1 == pairs@[k as int].1@);
        match parse_i32(pairs[k].1.as_str()) {
            Some(i) => {
                if i < 0 {
                    return None;
                }
                out.push(ColumnIndex { column: pairs[k].0.clone(), index: i as usize });
            },
            None => return None,
        }
        k += 1;
    }
    Some(out)
}

/// Table specs given as `table:col|col|...` separated by `;`.
pub fn parse_table_specs(text: &str) -> (r: Option<Vec<TableSpec>>)
    ensures
        r matches Some(v) ==> pairs_text(text@, ';', ':') matches Some(p) && p.len() == v@.len()
            && forall|k: int|
            0 <= k < p.len() ==> (#[trigger] v@[k]).name@ == p[k].0 && texts(v@[k].columns@)
                == split_text(p[k].1, '|'),
        r is None ==> pairs_text(text@, ';', ':') is None,
{
    let pairs = match parse_pairs(text, ';', ':') {
        Some(p) => p,
        None => return None,
    };
    let mut out: Vec<TableSpec> = Vec::new();
    let mut k: usize = 0;
    while k < pairs.len()
        invariant
            0 <= k <= pairs.len(),
            out@.len() == k,
            forall|m: int|
                0 <= m < k ==> (#[trigger] out@[m]).name@ == pairs@[m].0@ && texts(out@[m].columns@)
                    == split_text(pairs@[m].1@, '|'),
        decreases pairs.len() - k,
    {
        let columns = split_fields(pairs[k].1.as_str(), '|');
        out.push(TableSpec { name: pairs[k].0.clone(), columns });
        k += 1;
    }
    Some(out)
}

} // verus!
