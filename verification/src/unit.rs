use vstd::prelude::*;

use crate::text::{dec_val, digit_prefix_end, is_dec_digit, parse_u64, str_eq, trim_ascii, trimmed};

verus! {

/// A canonical candlestick time unit.
#[derive(Debug, Clone, PartialEq, Eq, Structural)]
pub enum TermUnit {
    Sec,
    Min,
    Hour,
    Day,
    Week,
    Month,
}

/// A candlestick interval: a count together with a unit.
#[derive(Debug, Clone, PartialEq, Eq, Structural)]
pub struct DurationAndUnit(pub u8, pub TermUnit);

/// Milliseconds of one unit; a month counts as thirty weeks here, matching
/// how interval lengths are used to advance the request window.
pub open spec fn unit_msec(u: TermUnit) -> int {
    match u {
        TermUnit::Sec => 1000,
        TermUnit::Min => 60000,
        TermUnit::Hour => 3600000,
        TermUnit::Day => 86400000,
        TermUnit::Week => 604800000,
        TermUnit::Month => 18144000000,
    }
}

/// Milliseconds of one unit as used for a `--past` range; here a month
/// counts as thirty days.
pub open spec fn past_unit_msec(u: TermUnit) -> int {
    match u {
        TermUnit::Sec => 1000,
        TermUnit::Min => 60000,
        TermUnit::Hour => 3600000,
        TermUnit::Day => 86400000,
        TermUnit::Week => 604800000,
        TermUnit::Month => 2592000000,
    }
}

impl DurationAndUnit {
    /// The interval's length in milliseconds.
    pub fn to_msec(&self) -> (r: i64)
        ensures
            r == self.0 * unit_msec(self.1),
            0 <= r <= 0x10_0000_0000_0000,
    {
        let number: i64 = self.0 as i64;
        match self.1 {
            TermUnit::Sec => number * 1000,
            TermUnit::Min => number * 1000 * 60,
            TermUnit::Hour => number * 1000 * 60 * 60,
            TermUnit::Day => number * 1000 * 60 * 60 * 24,
            TermUnit::Week => number * 1000 * 60 * 60 * 24 * 7,
            TermUnit::Month => number * 1000 * 60 * 60 * 24 * 7 * 30,
        }
    }

    /// The range's length in milliseconds when used with `--past`.
    pub fn past_duration_msec(&self) -> (r: i64)
        ensures
            r == self.0 * past_unit_msec(self.1),
            0 <= r <= 0x10_0000_0000_0000,
    {
        let number: i64 = self.0 as i64;
        match self.1 {
            TermUnit::Sec => number * 1000,
            TermUnit::Min => number * 1000 * 60,
            TermUnit::Hour => number * 1000 * 60 * 60,
            TermUnit::Day => number * 1000 * 60 * 60 * 24,
            TermUnit::Week => number * 1000 * 60 * 60 * 24 * 7,
            TermUnit::Month => number * 1000 * 60 * 60 * 24 * 30,
        }
    }
}

/// Why an interval string could not be parsed.
#[derive(Debug, Clone, PartialEq)]
pub enum ParseDurationAndUnitError {
    /// The string does not start with a digit.
    InvalidFormat(String),
    /// An unexpected number of pieces was found.
    InvalidNumberOfArgs(usize),
    /// The leading digits do not fit the count's range.
    ParseIntError(String),
    /// The unit token is not one of the known units.
    UnknownUnit(String),
}

/// The unit named by a token, if any.
pub open spec fn unit_of_token(u: Seq<char>) -> Option<TermUnit> {
    if u == "sec"@ {
        Some(TermUnit::Sec)
    } else if u == "min"@ {
        Some(TermUnit::Min)
    } else if u == "hour"@ {
        Some(TermUnit::Hour)
    } else if u == "day"@ {
        Some(TermUnit::Day)
    } else if u == "week"@ {
        Some(TermUnit::Week)
    } else if u == "month"@ {
        Some(TermUnit::Month)
    } else {
        None
    }
}

impl ParseDurationAndUnitError {
    /// A human-readable description of the parse failure.
    pub fn message(&self) -> (r: String)
        ensures
            self matches ParseDurationAndUnitError::InvalidFormat(s) ==> r@
                == "Invalid format: expected digit followed by unit, got "@ + s@,
            self matches ParseDurationAndUnitError::InvalidNumberOfArgs(n) ==> r@
                == "Invalid number of args: expected 2, got "@ + crate::text::dec_of(*n as int),
            self matches ParseDurationAndUnitError::ParseIntError(s) ==> r@
                == "Failed to parse duration: "@ + s@,
            self matches ParseDurationAndUnitError::UnknownUnit(s) ==> r@ == "Unknown unit: "@
                + s@,
    {
        match self {
            ParseDurationAndUnitError::InvalidFormat(s) => {
                let mut m = "Invalid format: expected digit followed by unit, got ".to_owned();
                m.append(s.as_str());
                m
            },
            ParseDurationAndUnitError::InvalidNumberOfArgs(n) => {
                let mut m = "Invalid number of args: expected 2, got ".to_owned();
                let d = crate::text::u64_to_dec(*n as u64);
                m.append(d.as_str());
                m
            },
            ParseDurationAndUnitError::ParseIntError(s) => {
                let mut m = "Failed to parse duration: ".to_owned();
                m.append(s.as_str());
                m
            },
            ParseDurationAndUnitError::UnknownUnit(s) => {
                let mut m = "Unknown unit: ".to_owned();
                m.append(s.as_str());
                m
            },
        }
    }
}

/// The interval an interval string denotes, if any: the leading digits give
/// the count, the trimmed remainder the unit.
pub open spec fn parsed_interval(s: Seq<char>) -> Option<DurationAndUnit> {
    let e = digit_prefix_end(s);
    let num = s.subrange(0, e);
    let unit = trimmed(s.subrange(e, s.len() as int));
    if num.len() > 0 && dec_val(num) <= 255 {
        match unit_of_token(unit) {
            Some(u) => Some(DurationAndUnit(dec_val(num) as u8, u)),
            None => None,
        }
    } else {
        None
    }
}

/// Parses an interval string such as `15min`: leading decimal digits give
/// the count, the trimmed remainder must name a unit.
pub fn parse_duration_and_unit(s: &str) -> (r: Result<DurationAndUnit, ParseDurationAndUnitError>)
    ensures
        r is Ok <==> parsed_interval(s@) is Some,
        r matches Ok(d) ==> parsed_interval(s@) == Some(d),
        ({
            let e = digit_prefix_end(s@);
            let num = s@.subrange(0, e);
            let unit = trimmed(s@.subrange(e, s@.len() as int));
            &&& (r matches Err(ParseDurationAndUnitError::InvalidFormat(m)) ==> m@ == s@)
            &&& (r matches Err(ParseDurationAndUnitError::ParseIntError(m)) ==> m@ == num)
            &&& (r matches Err(ParseDurationAndUnitError::UnknownUnit(m)) ==> m@ == unit)
            &&& !(r matches Err(ParseDurationAndUnitError::InvalidNumberOfArgs(_)))
            &&& (r matches Err(ParseDurationAndUnitError::InvalidFormat(_)) <==> num.len() == 0)
            &&& (r matches Err(ParseDurationAndUnitError::ParseIntError(_)) <==> num.len() > 0
                && dec_val(num) > 255)
            &&& (r matches Err(ParseDurationAndUnitError::UnknownUnit(_)) <==> num.len() > 0
                && dec_val(num) <= 255 && unit_of_token(unit) is None)
            &&& (r matches Ok(d) ==> num.len() > 0 && dec_val(num) <= 255 && unit_of_token(unit)
                == Some(d.1) && d.0 == dec_val(num))
            &&& (num.len() > 0 && dec_val(num) <= 255 && unit_of_token(unit) is Some ==> r is Ok)
        }),
{
    let n = s.unicode_len();
    let mut e: usize = 0;
    loop
        invariant
            n == s@.len(),
            0 <= e <= n,
            forall|k: int| 0 <= k < e ==> is_dec_digit(#[trigger] s@[k]),
        ensures
            0 <= e <= n,
            forall|k: int| 0 <= k < e ==> is_dec_digit(#[trigger] s@[k]),
            e == n || !is_dec_digit(s@[e as int]),
        decreases n - e,
    {
        if e == n {
            break ;
        }
        let c = s.get_char(e);
        if c < '0' || c > '9' {
            break ;
        }
        e = e + 1;
    }
    proof {
        crate::text::lemma_digit_prefix_end_unique(s@, e as int);
    }
    if e == 0 {
        return Err(ParseDurationAndUnitError::InvalidFormat(s.to_owned()));
    }
    let num = s.substring_char(0, e);
    let count = match parse_u64(num) {
        Some(v) => v,
        None => {
            return Err(ParseDurationAndUnitError::ParseIntError(num.to_owned()));
        },
    };
    if count > 255 {
        return Err(ParseDurationAndUnitError::ParseIntError(num.to_owned()));
    }
    let rest = s.substring_char(e, n);
    let unit = trim_ascii(rest);
    let unit_val = if str_eq(unit, "sec") {
        Some(TermUnit::Sec)
    } else if str_eq(unit, "min") {
        Some(TermUnit::Min)
    } else if str_eq(unit, "hour") {
        Some(TermUnit::Hour)
    } else if str_eq(unit, "day") {
        Some(TermUnit::Day)
    } else if str_eq(unit, "week") {
        Some(TermUnit::Week)
    } else if str_eq(unit, "month") {
        Some(TermUnit::Month)
    } else {
        None
    };
    match unit_val {
        Some(u) => Ok(DurationAndUnit(count as u8, u)),
        None => Err(ParseDurationAndUnitError::UnknownUnit(unit.to_owned())),
    }
}

impl core::str::FromStr for DurationAndUnit {
    type Err = ParseDurationAndUnitError;

    /// Parses an interval string; see `parse_duration_and_unit`.
    fn from_str(s: &str) -> Result<Self, Self::Err> {
        parse_duration_and_unit(s)
    }
}

} // verus!
