//! The written form of a date, `YYYY-MM-DD`, found with a regular
//! expression.

use regex::Regex;
use vstd::prelude::*;

use crate::number::is_digit;

verus! {

/// The regular expression of a date: four digits, two digits and two
/// digits, each one of `0` to `9`, with a hyphen between them and
/// nothing before or after.
pub open spec fn date_pattern() -> Seq<char> {
    "^([0-9]{4})-([0-9]{2})-([0-9]{2})$"@
}

/// Ten characters, the fifth and the eighth of them a hyphen.
pub open spec fn has_date_layout(text: Seq<char>) -> bool {
    text.len() == 10 && text[4] == '-' && text[7] == '-'
}

/// A place of a digit in a text of that layout.
pub open spec fn is_digit_place(i: int) -> bool {
    0 <= i < 4 || 5 <= i < 7 || 8 <= i < 10
}

/// The written form of a date: that layout with one of `0` to `9` in
/// every digit place.
pub open spec fn is_plain_date(text: Seq<char>) -> bool {
    has_date_layout(text) && forall|i: int| is_digit_place(i) ==> is_digit(#[trigger] text[i])
}

/// The fields of a text of that layout: year, month and day as written.
pub open spec fn date_fields(text: Seq<char>) -> Seq<Seq<char>> {
    seq![text.subrange(0, 4), text.subrange(5, 7), text.subrange(8, 10)]
}

/// Compiles the pattern with `regex::Regex::new` and matches the text
/// with `Regex::captures`; the three groups are then taken with
/// `Captures::get` and `Match::as_str`.
///
/// Believed of the regex crate, for the pattern of a date only: the
/// pattern compiles; the anchors make a match span the whole text;
/// the class `[0-9]` takes one character, which is one of `0` to `9`;
/// so the pattern matches the texts of the written form and no other,
/// and its groups are the three fields.
#[verifier::external_body]
pub(crate) fn capture_date<'a>(pattern: &str, text: &'a str) -> (fields: Option<[&'a str; 3]>)
    requires
        pattern@ == date_pattern(),
    ensures
        fields is Some <==> is_plain_date(text@),
        fields matches Some(f) ==> f[0]@ == date_fields(text@)[0] && f[1]@ == date_fields(
            text@,
        )[1] && f[2]@ == date_fields(text@)[2],
{
    let found = Regex::new(pattern).unwrap().captures(text)?;
    Some(
        [
            found.get(1).unwrap().as_str(),
            found.get(2).unwrap().as_str(),
            found.get(3).unwrap().as_str(),
        ],
    )
}

} // verus!
