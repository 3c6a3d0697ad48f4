//! The failures that resolving a date can end in.

use vstd::prelude::*;
use vstd::string::StringExecFns;

verus! {

/// What failed, with the data that made it fail.
#[derive(Debug, PartialEq, Eq)]
pub enum ErrorKind {
    /// The text is not of the form `YYYY-MM-DD`.
    CouldNotParseDate(String),
    /// The field at this index (0 year, 1 month, 2 day) is not a number.
    CouldNotParseNumericComponent(usize, String),
    /// The month is not one of 1 to 12.
    InvalidMonth(u16),
    /// The month does not have this day.
    InvalidDateForMonth(u16, u16),
    /// Midnight of year, month, day is not one instant in the zone.
    NoSingleDate(u16, u16, u16),
}

/// The mathematical value of an [`ErrorKind`]: strings as sequences of
/// characters, numbers as integers.
pub enum Failure {
    CouldNotParseDate(Seq<char>),
    CouldNotParseNumericComponent(int, Seq<char>),
    InvalidMonth(int),
    InvalidDateForMonth(int, int),
    NoSingleDate(int, int, int),
}

impl View for ErrorKind {
    type V = Failure;

    open spec fn view(&self) -> Failure {
        match *self {
            ErrorKind::CouldNotParseDate(text) => Failure::CouldNotParseDate(text@),
            ErrorKind::CouldNotParseNumericComponent(index, text) => {
                Failure::CouldNotParseNumericComponent(index as int, text@)
            },
            ErrorKind::InvalidMonth(month) => Failure::InvalidMonth(month as int),
            ErrorKind::InvalidDateForMonth(month, day) => {
                Failure::InvalidDateForMonth(month as int, day as int)
            },
            ErrorKind::NoSingleDate(year, month, day) => {
                Failure::NoSingleDate(year as int, month as int, day as int)
            },
        }
    }
}

/// The character of a digit.
pub open spec fn digit_char(digit: nat) -> char {
    ((48 + digit) as u8) as char
}

/// A number as it is written in base ten, without leading zeros.
pub open spec fn decimal_text(number: nat) -> Seq<char>
    decreases number,
{
    if number < 10 {
        seq![digit_char(number)]
    } else {
        decimal_text(number / 10).push(digit_char(number % 10))
    }
}

/// What a failure says to a reader.
pub open spec fn message_text(failure: Failure) -> Seq<char> {
    match failure {
        Failure::CouldNotParseDate(text) => {
            "Could not extract components from date string '"@ + text + "'."@
        },
        Failure::CouldNotParseNumericComponent(index, text) => {
            "Could not parse number from component '"@ + text + "' at index "@ + decimal_text(
                index as nat,
            ) + "."@
        },
        Failure::InvalidMonth(month) => {
            "Month "@ + decimal_text(month as nat) + " is not a valid month."@
        },
        Failure::InvalidDateForMonth(month, day) => {
            "Month "@ + decimal_text(month as nat) + " does not have "@ + decimal_text(day as nat)
                + " days in it"@
        },
        Failure::NoSingleDate(year, month, day) => {
            decimal_text(year as nat) + "-"@ + decimal_text(month as nat) + "-"@ + decimal_text(
                day as nat,
            ) + " could not be converted into a single date."@
        },
    }
}

/// A digit as text.
fn digit_text(digit: u64) -> (text: &'static str)
    requires
        digit < 10,
    ensures
        text@ == seq![digit_char(digit as nat)],
{
    proof {
        reveal_strlit("0");
        reveal_strlit("1");
        reveal_strlit("2");
        reveal_strlit("3");
        reveal_strlit("4");
        reveal_strlit("5");
        reveal_strlit("6");
        reveal_strlit("7");
        reveal_strlit("8");
        reveal_strlit("9");
    }
    let text = match digit {
        0 => "0",
        1 => "1",
        2 => "2",
        3 => "3",
        4 => "4",
        5 => "5",
        6 => "6",
        7 => "7",
        8 => "8",
        _ => "9",
    };
    assert(text@ =~= seq![digit_char(digit as nat)]);
    text
}

/// Writes a number in base ten.
pub fn decimal(number: u64) -> (text: String)
    ensures
        text@ == decimal_text(number as nat),
    decreases number,
{
    if number < 10 {
        digit_text(number).to_owned()
    } else {
        let mut text = decimal(number / 10);
        text.append(digit_text(number % 10));
        text
    }
}

/// The status with which a process ends after a usage error.
pub open spec fn usage_status() -> int {
    64
}

/// Reads the constant `exitcode::USAGE`, which that crate defines as 64.
#[verifier::external_body]
fn usage() -> (code: i32)
    ensures
        code == usage_status(),
{
    exitcode::USAGE
}

/// An error of this library.
#[derive(Debug, PartialEq, Eq)]
pub struct Error {
    kind: ErrorKind,
}

impl View for Error {
    type V = Failure;

    closed spec fn view(&self) -> Failure {
        self.kind@
    }
}

impl Error {
    pub fn new(kind: ErrorKind) -> (error: Error)
        ensures
            error@ == kind@,
    {
        Error { kind }
    }

    /// What failed.
    pub fn kind(&self) -> (kind: &ErrorKind)
        ensures
            kind@ == self@,
    {
        &self.kind
    }

    /// What the error says to a reader.
    pub fn message(&self) -> (text: String)
        ensures
            text@ == message_text(self@),
    {
        match &self.kind {
            ErrorKind::CouldNotParseDate(d) => {
                let mut text = "Could not extract components from date string '".to_owned();
                text.append(d.as_str());
                text.append("'.");
                text
            },
            ErrorKind::CouldNotParseNumericComponent(i, c) => {
                let mut text = "Could not parse number from component '".to_owned();
                text.append(c.as_str());
                text.append("' at index ");
                text.append(decimal(*i as u64).as_str());
                text.append(".");
                text
            },
            ErrorKind::InvalidMonth(m) => {
                let mut text = "Month ".to_owned();
                text.append(decimal(*m as u64).as_str());
                text.append(" is not a valid month.");
                text
            },
            ErrorKind::InvalidDateForMonth(m, d) => {
                let mut text = "Month ".to_owned();
                text.append(decimal(*m as u64).as_str());
                text.append(" does not have ");
                text.append(decimal(*d as u64).as_str());
                text.append(" days in it");
                text
            },
            ErrorKind::NoSingleDate(y, m, d) => {
                let mut text = decimal(*y as u64);
                text.append("-");
                text.append(decimal(*m as u64).as_str());
                text.append("-");
                text.append(decimal(*d as u64).as_str());
                text.append(" could not be converted into a single date.");
                text
            },
        }
    }

    /// The status that a process reports for this error: every failure
    /// of this library is a usage error.
    pub fn exit_code(&self) -> (code: i32)
        ensures
            code == usage_status(),
    {
        match &self.kind {
            ErrorKind::CouldNotParseDate(_) => usage(),
            ErrorKind::CouldNotParseNumericComponent(_, _) => usage(),
            ErrorKind::InvalidMonth(_) => usage(),
            ErrorKind::InvalidDateForMonth(_, _) => usage(),
            ErrorKind::NoSingleDate(_, _, _) => usage(),
        }
    }
}

} // verus!
