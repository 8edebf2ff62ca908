//! Reading CSV text into records, and reading integers out of fields.

use crate::sql::texts;
use vstd::prelude::*;

verus! {

/// The records that the `csv` crate reads from `data` (no header handling,
/// all records of one length): each a list of fields, or `None` where the
/// record could not be read.
pub uninterp spec fn csv_records(data: Seq<u8>) -> Seq<Option<Seq<Seq<char>>>>;

/// The view of a list of read records.
pub open spec fn records_view(rs: Seq<Option<Vec<String>>>) -> Seq<Option<Seq<Seq<char>>>> {
    rs.map_values(
        |o: Option<Vec<String>>|
            match o {
                Some(r) => Some(texts(r@)),
                None => None,
            },
    )
}

/// Relies on csv::ReaderBuilder (with has_headers(false)) and
/// csv::Reader::records: every record of `data` in order, the failed ones
/// (a record whose number of fields differs from the first's, bad UTF-8)
/// kept as `None`.
#[verifier::external_body]
pub(crate) fn read_csv(data: &[u8]) -> (r: Vec<Option<Vec<String>>>)
    ensures
        records_view(r@) == csv_records(data@),
{
    let mut reader = csv::ReaderBuilder::new().has_headers(false).from_reader(data);
    reader.records().map(|rec| rec.ok().map(|fields| fields.iter().map(|f| f.to_string()).collect()))
        .collect()
}

pub open spec fn is_digit(c: char) -> bool {
    '0' <= c && c <= '9'
}

/// The value of a nonempty run of decimal digits.
pub open spec fn digits_value(s: Seq<char>) -> int
    decreases s.len(),
{
    if s.len() == 0 {
        0
    } else {
        digits_value(s.drop_last()) * 10 + (s.last() as int - '0' as int)
    }
}

pub open spec fn all_digits(s: Seq<char>) -> bool {
    s.len() > 0 && forall|i: int| 0 <= i < s.len() ==> is_digit(#[trigger] s[i])
}

/// The integer that `s` writes in base 10: an optional `+` or `-`, then one
/// or more digits and nothing else.
pub open spec fn decimal_value(s: Seq<char>) -> Option<int> {
    if s.len() > 0 && (s[0] == '+' || s[0] == '-') {
        let d = s.subrange(1, s.len() as int);
        if all_digits(d) {
            Some(
                if s[0] == '-' {
                    -digits_value(d)
                } else {
                    digits_value(d)
                },
            )
        } else {
            None
        }
    } else if all_digits(s) {
        Some(digits_value(s))
    } else {
        None
    }
}

/// The `i32` that `s` writes in base 10, where it fits.
pub open spec fn i32_of_text(s: Seq<char>) -> Option<i32> {
    match decimal_value(s) {
        Some(v) => if i32::MIN <= v <= i32::MAX {
            Some(v as i32)
        } else {
            None
        },
        None => None,
    }
}

/// Relies on `str::parse::<i32>`: as documented for `i32::from_str_radix`,
/// an optional `+` or `-` followed by digits only, whose value fits.
#[verifier::external_body]
pub(crate) fn parse_i32(s: &str) -> (r: Option<i32>)
    ensures
        r == i32_of_text(s@),
{
    s.parse::<i32>().ok()
}

} // verus!
