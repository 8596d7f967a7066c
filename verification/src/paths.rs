//! Where the datalog file of a run lies.

use vstd::prelude::*;
use crate::text::{decimal, decimal_string};

verus! {

/// A local date and time of day.
#[derive(Clone, Copy, Debug, PartialEq, Eq, Structural)]
pub struct LocalTime {
    pub year: u16,
    pub month: u8,
    pub day: u8,
    pub hour: u8,
    pub minute: u8,
    pub second: u8,
}

/// `count` zeros.
pub open spec fn zeros(count: nat) -> Seq<char> {
    Seq::new(count, |i: int| '0')
}

/// The decimal digits of a number, with zeros in front up to a width.
pub open spec fn padded(n: nat, width: nat) -> Seq<char> {
    if decimal(n).len() >= width {
        decimal(n)
    } else {
        zeros((width - decimal(n).len()) as nat) + decimal(n)
    }
}

/// The name of the datalog file that is created at a time:
/// `YYYY-MM-DD_HH-MM-SS.wpilog`.
pub open spec fn file_name(t: LocalTime) -> Seq<char> {
    padded(t.year as nat, 4) + seq!['-'] + padded(t.month as nat, 2) + seq!['-'] + padded(
        t.day as nat,
        2,
    ) + seq!['_'] + padded(t.hour as nat, 2) + seq!['-'] + padded(t.minute as nat, 2) + seq!['-']
        + padded(t.second as nat, 2) + ".wpilog"@
}

/// The directory of the datalogs, below the documents directory.
pub open spec fn datalog_directory() -> Seq<char> {
    "Enoki/Datalogs"@
}

/// The decimal text of a number, with zeros in front up to a width.
pub fn padded_decimal(n: u64, width: usize) -> (s: String)
    ensures
        s@ == padded(n as nat, width as nat),
{
    let digits = decimal_string(n);
    let len = digits.as_str().unicode_len();
    if len >= width {
        return digits;
    }
    proof {
        reveal_strlit("0");
        assert(zeros(0) =~= Seq::<char>::empty());
    }
    let mut s = String::new();
    let mut i: usize = 0;
    while i < width - len
        invariant
            len < width,
            i <= width - len,
            "0"@ == seq!['0'],
            s@ == zeros(i as nat),
        decreases width - len - i,
    {
        s.append("0");
        i += 1;
        assert(s@ =~= zeros(i as nat));
    }
    s.append(digits.as_str());
    s
}

/// The name of the datalog file that is created at a time.
pub fn datalog_file_name(t: &LocalTime) -> (s: String)
    ensures
        s@ == file_name(*t),
{
    proof {
        reveal_strlit("-");
        reveal_strlit("_");
    }
    let mut s = padded_decimal(t.year as u64, 4);
    s.append("-");
    s.append(padded_decimal(t.month as u64, 2).as_str());
    s.append("-");
    s.append(padded_decimal(t.day as u64, 2).as_str());
    s.append("_");
    s.append(padded_decimal(t.hour as u64, 2).as_str());
    s.append("-");
    s.append(padded_decimal(t.minute as u64, 2).as_str());
    s.append("-");
    s.append(padded_decimal(t.second as u64, 2).as_str());
    s.append(".wpilog");
    assert(s@ =~= file_name(*t));
    s
}

/// The path of the datalog file, relative to the documents directory.
pub fn datalog_relative_path(t: &LocalTime) -> (s: String)
    ensures
        s@ == datalog_directory() + seq!['/'] + file_name(*t),
{
    proof {
        reveal_strlit("/");
    }
    let mut s = String::from_str("Enoki/Datalogs");
    s.append("/");
    s.append(datalog_file_name(t).as_str());
    s
}

} // verus!
