use vstd::prelude::*;

use crate::error::joined;
use crate::error::join_strings;
use crate::exchange::{Exchange, ExchangeChoices};
use crate::format::FormatType;
use crate::order::Order;
use crate::pick::Pick;
use crate::text::{all_dec_digits, dec_of, dec_val, parse_u64, u64_to_dec};
use crate::timestamp::{now_unixtime_ms, rfc3339_ms_of, rfc3339_to_unixtime};
use crate::unit::{parse_duration_and_unit, parsed_interval, DurationAndUnit};

verus! {

/// Subcommands of the tool.
#[derive(Debug)]
pub enum Commands {
    /// Interactive mode that builds a command with all options.
    Guide {},
}

/// The market a symbol trades on: spot, or the never-expiring derivative.
#[derive(Debug, Clone, Copy, PartialEq, Eq, Structural)]
pub enum MarketType {
    Spot,
    Perpetual,
}

/// The raw command-line surface before validation and parsing.
#[derive(Debug)]
pub struct Cli {
    pub command: Option<Commands>,
    pub exchange: ExchangeChoices,
    pub symbol: String,
    pub type_: MarketType,
    pub past: Option<bool>,
    pub range: Option<String>,
    pub term_start: Option<String>,
    pub term_end: Option<String>,
    pub interval: String,
    pub pick: Vec<Pick>,
    pub order: Order,
    pub format: FormatType,
}

/// Either `--past` with `--range`, or an explicit `--term-start` with
/// `--term-end`, and nothing of the other set.
pub open spec fn exists_require_options_ok(c: Cli) -> bool {
    ||| (c.past == Some(true) && c.range is Some && c.term_start is None && c.term_end is None)
    ||| (c.past != Some(true) && c.range is None && c.term_start is Some && c.term_end is Some)
}

/// Neither `--past` nor `--range` may come with an explicit term end.
pub open spec fn argument_consistency_ok(c: Cli) -> bool {
    &&& (c.past == Some(true) ==> c.term_start is None)
    &&& (c.past == Some(true) ==> c.term_end is None)
    &&& (c.range is Some ==> c.term_start is None)
    &&& (c.range is Some ==> c.term_end is None)
}

/// A symbol character: an uppercase letter, a digit, or the separator.
pub open spec fn is_symbol_char(c: char) -> bool {
    ('A' <= c && c <= 'Z') || ('0' <= c && c <= '9') || c == '/'
}

/// Uppercase letters or digits throughout, with at least one separator.
pub open spec fn symbol_format_ok(s: Seq<char>) -> bool {
    &&& forall|i: int| 0 <= i < s.len() ==> is_symbol_char(#[trigger] s[i])
    &&& exists|i: int| 0 <= i < s.len() && s[i] == '/'
}

/// The message of the first consistency rule the arguments break.
pub open spec fn consistency_message(c: Cli) -> Seq<char> {
    if c.past == Some(true) && c.term_start is Some {
        "  - The argument `--term-start ` cannot be used with `--past`."@
    } else if c.past == Some(true) && c.term_end is Some {
        "  - The argument `--term-end ` cannot be used with `--past`."@
    } else if c.range is Some && c.term_start is Some {
        "  - The argument `--term-start ` cannot be used with `--range`."@
    } else {
        "  - The argument `--term-end ` cannot be used with `--range`."@
    }
}

/// The itemized messages of the checks the arguments fail, in check order.
pub open spec fn failed_check_messages(c: Cli) -> Seq<Seq<char>> {
    let m1: Seq<Seq<char>> = if exists_require_options_ok(c) {
        seq![]
    } else {
        seq![
            "  - You must use set of `--past` and `--range`, or set of `--term-start` and `--term-end`."@,
        ]
    };
    let m2: Seq<Seq<char>> = if argument_consistency_ok(c) {
        seq![]
    } else {
        seq![consistency_message(c)]
    };
    let m3: Seq<Seq<char>> = if symbol_format_ok(c.symbol@) {
        seq![]
    } else {
        seq!["  - Symbol pair must be in uppercase or number and contain `/`."@]
    };
    m1 + m2 + m3
}

/// The whole validation message: a summary line, then one line per failed
/// check.
pub open spec fn valdate_message(c: Cli) -> Seq<char> {
    let items = failed_check_messages(c);
    let summary = "Failed to parse arguments due to "@ + dec_of(items.len() as int)
        + " error(s)"@;
    joined(seq![summary] + items, "\n"@)
}

impl Cli {
    /// Checks that the time-range options form one of the two allowed sets.
    pub fn exists_require_options(&self) -> (r: Result<(), String>)
        requires
            self.past is Some,
        ensures
            r is Ok <==> exists_require_options_ok(*self),
            r matches Err(m) ==> m@
                == "You must use set of `--past` and `--range`, or set of `--term-start` and `--term-end`."@,
    {
        let past = match self.past {
            Some(p) => p,
            None => false,
        };
        let ok = (past && self.range.is_some() && self.term_start.is_none()
            && self.term_end.is_none()) || (!past && self.range.is_none()
            && self.term_start.is_some() && self.term_end.is_some());
        if ok {
            Ok(())
        } else {
            Err(
                "You must use set of `--past` and `--range`, or set of `--term-start` and `--term-end`.".to_owned(),
            )
        }
    }

    /// Checks that no option excludes another; reports the first conflict.
    pub fn check_argument_consistency(&self) -> (r: Result<(), String>)
        requires
            self.past is Some,
        ensures
            r is Ok <==> argument_consistency_ok(*self),
            r matches Err(m) ==> "  - "@ + m@ == consistency_message(*self),
    {
        let past = match self.past {
            Some(p) => p,
            None => false,
        };
        if past && self.term_start.is_some() {
            proof {
                reveal_strlit("  - ");
                reveal_strlit("The argument `--term-start ` cannot be used with `--past`.");
                reveal_strlit("  - The argument `--term-start ` cannot be used with `--past`.");
                assert("  - "@ + "The argument `--term-start ` cannot be used with `--past`."@
                    =~= "  - The argument `--term-start ` cannot be used with `--past`."@);
            }
            return Err("The argument `--term-start ` cannot be used with `--past`.".to_owned());
        }
        if past && self.term_end.is_some() {
            proof {
                reveal_strlit("  - ");
                reveal_strlit("The argument `--term-end ` cannot be used with `--past`.");
                reveal_strlit("  - The argument `--term-end ` cannot be used with `--past`.");
                assert("  - "@ + "The argument `--term-end ` cannot be used with `--past`."@
                    =~= "  - The argument `--term-end ` cannot be used with `--past`."@);
            }
            return Err("The argument `--term-end ` cannot be used with `--past`.".to_owned());
        }
        if self.range.is_some() && self.term_start.is_some() {
            proof {
                reveal_strlit("  - ");
                reveal_strlit("The argument `--term-start ` cannot be used with `--range`.");
                reveal_strlit("  - The argument `--term-start ` cannot be used with `--range`.");
                assert("  - "@ + "The argument `--term-start ` cannot be used with `--range`."@
                    =~= "  - The argument `--term-start ` cannot be used with `--range`."@);
            }
            return Err("The argument `--term-start ` cannot be used with `--range`.".to_owned());
        }
        if self.range.is_some() && self.term_end.is_some() {
            proof {
                reveal_strlit("  - ");
                reveal_strlit("The argument `--term-end ` cannot be used with `--range`.");
                reveal_strlit("  - The argument `--term-end ` cannot be used with `--range`.");
                assert("  - "@ + "The argument `--term-end ` cannot be used with `--range`."@
                    =~= "  - The argument `--term-end ` cannot be used with `--range`."@);
            }
            return Err("The argument `--term-end ` cannot be used with `--range`.".to_owned());
        }
        Ok(())
    }

    /// Checks that the symbol is uppercase letters or digits and holds a
    /// separator.
    pub fn check_symbol_format(&self) -> (r: Result<(), String>)
        ensures
            r is Ok <==> symbol_format_ok(self.symbol@),
            r matches Err(m) ==> m@
                == "Symbol pair must be in uppercase or number and contain `/`."@,
    {
        let s = self.symbol.as_str();
        let n = s.unicode_len();
        let mut has_slash: bool = false;
        let mut i: usize = 0;
        while i < n
            invariant
                n == s@.len(),
                s@ == self.symbol@,
                0 <= i <= n,
                forall|k: int| 0 <= k < i ==> is_symbol_char(#[trigger] s@[k]),
                has_slash <==> exists|k: int| 0 <= k < i && s@[k] == '/',
            decreases n - i,
        {
            let c = s.get_char(i);
            if !(('A' <= c && c <= 'Z') || ('0' <= c && c <= '9') || c == '/') {
                return Err("Symbol pair must be in uppercase or number and contain `/`.".to_owned());
            }
            if c == '/' {
                has_slash = true;
            }
            i = i + 1;
        }
        if has_slash {
            Ok(())
        } else {
            Err("Symbol pair must be in uppercase or number and contain `/`.".to_owned())
        }
    }

    /// Runs all argument checks; collects the message of every failing one
    /// under a summary line.
    pub fn valdate(&self) -> (r: Result<(), String>)
        requires
            self.past is Some,
        ensures
            r is Ok <==> exists_require_options_ok(*self) && argument_consistency_ok(*self)
                && symbol_format_ok(self.symbol@),
            r matches Err(m) ==> m@ == valdate_message(*self),
    {
        let mut errors: Vec<String> = Vec::new();
        if let Err(e) = self.exists_require_options() {
            let mut line = "  - ".to_owned();
            line.append(e.as_str());
            errors.push(line);
            proof {
                reveal_strlit("  - ");
                reveal_strlit(
                    "You must use set of `--past` and `--range`, or set of `--term-start` and `--term-end`.",
                );
                reveal_strlit(
                    "  - You must use set of `--past` and `--range`, or set of `--term-start` and `--term-end`.",
                );
                assert(errors@.last()@
                    =~= "  - You must use set of `--past` and `--range`, or set of `--term-start` and `--term-end`."@);
            }
        }
        if let Err(e) = self.check_argument_consistency() {
            let mut line = "  - ".to_owned();
            line.append(e.as_str());
            errors.push(line);
        }
        if let Err(e) = self.check_symbol_format() {
            let mut line = "  - ".to_owned();
            line.append(e.as_str());
            errors.push(line);
            proof {
                reveal_strlit("  - ");
                reveal_strlit("Symbol pair must be in uppercase or number and contain `/`.");
                reveal_strlit("  - Symbol pair must be in uppercase or number and contain `/`.");
                assert(errors@.last()@
                    =~= "  - Symbol pair must be in uppercase or number and contain `/`."@);
            }
        }
        if errors.len() == 0 {
            return Ok(());
        }
        proof {
            assert(errors@.map_values(|s: String| s@) =~= failed_check_messages(*self));
        }
        let count = u64_to_dec(errors.len() as u64);
        let mut summary = "Failed to parse arguments due to ".to_owned();
        summary.append(count.as_str());
        summary.append(" error(s)");
        proof {
            reveal_strlit("Failed to parse arguments due to ");
            reveal_strlit(" error(s)");
        }
        let mut lines: Vec<String> = Vec::new();
        lines.push(summary);
        let mut i: usize = 0;
        while i < errors.len()
            invariant
                0 <= i <= errors@.len(),
                lines@.len() == i + 1,
                lines@[0]@ == "Failed to parse arguments due to "@ + dec_of(
                    failed_check_messages(*self).len() as int,
                ) + " error(s)"@,
                errors@.map_values(|s: String| s@) == failed_check_messages(*self),
                forall|k: int| 0 <= k < i ==> #[trigger] lines@[k + 1]@ == errors@[k]@,
            decreases errors@.len() - i,
        {
            let line = errors[i].clone();
            lines.push(line);
            i = i + 1;
        }
        let msg = join_strings(&lines, "\n");
        proof {
            assert(lines@.map_values(|s: String| s@) =~= seq![
                "Failed to parse arguments due to "@ + dec_of(
                    failed_check_messages(*self).len() as int,
                ) + " error(s)"@,
            ] + failed_check_messages(*self));
        }
        Err(msg)
    }
}

/// The validated, parsed arguments one retrieval call runs on.
#[derive(Debug)]
pub struct ParsedArgs {
    pub exchange: Exchange,
    pub symbol: String,
    pub type_: MarketType,
    pub past: bool,
    pub range: Option<DurationAndUnit>,
    pub term_start: Option<i64>,
    pub term_end: Option<i64>,
    pub interval: DurationAndUnit,
    pub pick: Vec<Pick>,
    pub order: Order,
    pub output: FormatType,
}

impl ParsedArgs {
    /// Parses one term end: a run of digits is a millisecond timestamp, and
    /// anything else must be an RFC 3339 timestamp, taken at whole seconds.
    pub fn parse_terms(term: String) -> (r: Result<Option<i64>, String>)
        ensures
            term@.len() >= 1 && all_dec_digits(term@) ==> (if dec_val(term@) <= i64::MAX {
                r == Result::<Option<i64>, String>::Ok(Some(dec_val(term@) as i64))
            } else {
                r is Err
            }),
            !(term@.len() >= 1 && all_dec_digits(term@)) ==> (match rfc3339_ms_of(term@) {
                Some(ms) => if ms >= i64::MIN + 1000 {
                    r == Result::<Option<i64>, String>::Ok(Some((ms / 1000 * 1000) as i64))
                } else {
                    r is Err
                },
                None => r is Err,
            }),
            r matches Err(m) ==> m@ == "Invalid timestamp format"@,
    {
        match parse_u64(term.as_str()) {
            Some(v) => {
                if v <= i64::MAX as u64 {
                    return Ok(Some(v as i64));
                }
                return Err("Invalid timestamp format".to_owned());
            },
            None => {},
        }
        let digits_overflow: bool = {
            let s = term.as_str();
            let n = s.unicode_len();
            let mut all: bool = n >= 1;
            let mut i: usize = 0;
            while i < n
                invariant
                    n == s@.len(),
                    s@ == term@,
                    0 <= i <= n,
                    all == (n >= 1 && forall|k: int| 0 <= k < i ==> crate::text::is_dec_digit(
                        #[trigger] s@[k],
                    )),
                decreases n - i,
            {
                let c = s.get_char(i);
                if c < '0' || c > '9' {
                    all = false;
                }
                i = i + 1;
            }
            all
        };
        if digits_overflow {
            return Err("Invalid timestamp format".to_owned());
        }
        match rfc3339_to_unixtime(term.as_str()) {
            Some(ms) => {
                if ms < i64::MIN + 1000 {
                    return Err("Invalid timestamp format".to_owned());
                }
                let secs_ms: i64 = if ms >= 0 {
                    (ms / 1000) * 1000
                } else if ms % 1000 == 0 {
                    ms
                } else {
                    (ms / 1000 - 1) * 1000
                };
                Ok(Some(secs_ms))
            },
            None => Err("Invalid timestamp format".to_owned()),
        }
    }

    /// Resolves `--past`/`--range` into explicit term ends against the
    /// clock's answer `now_ms`, at whole seconds, and caps a future end at
    /// the present.
    pub fn fit_to_term_args(self, now_ms: i64) -> (r: Self)
        requires
            0 <= now_ms,
            self.past ==> self.range is Some,
            !self.past ==> self.term_start is Some && self.term_end is Some,
        ensures
            self.past ==> r.term_start == Some(
                (((now_ms as int - (self.range->0).0 * crate::unit::past_unit_msec((self.range->0).1))
                    / 1000) * 1000) as i64,
            ) && r.term_end == Some(((now_ms as int / 1000) * 1000) as i64),
            !self.past ==> r.term_start == self.term_start && r.term_end == Some(
                if self.term_end->0 > now_ms {
                    now_ms
                } else {
                    self.term_end->0
                },
            ),
            r.exchange == self.exchange && r.symbol == self.symbol && r.type_ == self.type_
                && r.past == self.past && r.range == self.range && r.interval == self.interval
                && r.pick == self.pick && r.order == self.order && r.output == self.output,
    {
        let start_time: i64;
        let mut end_time: i64;
        if self.past {
            let dur = match &self.range {
                Some(d) => d.past_duration_msec(),
                None => 0,
            };
            let from = now_ms - dur;
            start_time = if from >= 0 {
                (from / 1000) * 1000
            } else if from % 1000 == 0 {
                from
            } else {
                (from / 1000 - 1) * 1000
            };
            end_time = (now_ms / 1000) * 1000;
        } else {
            start_time = match self.term_start {
                Some(t) => t,
                None => 0,
            };
            end_time = match self.term_end {
                Some(t) => t,
                None => 0,
            };
        }
        if now_ms <= end_time {
            end_time = now_ms;
        }
        ParsedArgs { term_start: Some(start_time), term_end: Some(end_time), ..self }
    }

    /// Checks that the start of the window does not come after its end.
    pub fn check_term_relations(&self) -> (r: Result<(), String>)
        ensures
            r is Ok <==> !(self.term_start is Some && self.term_end is Some && self.term_start->0
                > self.term_end->0),
            r matches Err(m) ==> m@
                == "The `--term-start` time must be earlier than the `--term-end` time."@,
    {
        if self.term_start.is_some() && self.term_end.is_some() {
            let s = match self.term_start {
                Some(s) => s,
                None => 0,
            };
            let e = match self.term_end {
                Some(e) => e,
                None => 0,
            };
            if s > e {
                return Err(
                    "The `--term-start` time must be earlier than the `--term-end` time.".to_owned(),
                );
            }
        }
        Ok(())
    }

    /// Builds the parsed arguments from the raw command line and the chosen
    /// adapter: the range and interval are parsed, the term ends resolved
    /// against the clock, and their relation checked.
    pub fn new(value: Cli, exchange: Exchange) -> (r: Result<Self, String>)
        requires
            value.past == Some(true) ==> value.range is Some,
            value.past != Some(true) ==> value.term_start is Some && value.term_end is Some,
        ensures
            r matches Ok(p) ==> {
                &&& p.term_start is Some
                &&& p.term_end is Some
                &&& p.term_start->0 <= p.term_end->0
                &&& p.exchange == exchange
                &&& p.symbol@ == value.symbol@
                &&& p.type_ == value.type_
                &&& p.past == (value.past == Some(true))
                &&& parsed_interval(value.interval@) == Some(p.interval)
                &&& (value.range is None ==> p.range is None)
                &&& (value.range matches Some(rs) ==> p.range is Some && parsed_interval(rs@)
                    == Some(p.range->0))
                &&& p.pick@ == value.pick@
                &&& p.order == value.order
                &&& p.output == value.format
            },
    {
        let past = match value.past {
            Some(p) => p,
            None => false,
        };
        let range = match value.range {
            Some(range) => match parse_duration_and_unit(range.as_str()) {
                Ok(d) => Some(d),
                Err(e) => { return Err(e.message()); },
            },
            None => None,
        };
        let term_start = match value.term_start {
            Some(term_start) => match Self::parse_terms(term_start) {
                Ok(t) => t,
                Err(e) => { return Err(e); },
            },
            None => None,
        };
        let term_end = match value.term_end {
            Some(term_end) => match Self::parse_terms(term_end) {
                Ok(t) => t,
                Err(e) => { return Err(e); },
            },
            None => None,
        };
        let interval = match parse_duration_and_unit(value.interval.as_str()) {
            Ok(d) => d,
            Err(e) => { return Err(e.message()); },
        };
        if past && range.is_none() {
            return Err("Invalid timestamp format".to_owned());
        }
        if !past && (term_start.is_none() || term_end.is_none()) {
            return Err("Invalid timestamp format".to_owned());
        }
        let parsed_args = ParsedArgs {
            exchange,
            symbol: value.symbol,
            type_: value.type_,
            past,
            range,
            term_start,
            term_end,
            interval,
            pick: value.pick,
            order: value.order,
            output: value.format,
        };
        let now = now_unixtime_ms();
        let now = if now < 0 {
            0
        } else {
            now
        };
        let parsed_args = parsed_args.fit_to_term_args(now);
        match parsed_args.check_term_relations() {
            Ok(_) => {},
            Err(e) => { return Err(e); },
        }
        Ok(parsed_args)
    }
}

} // verus!
