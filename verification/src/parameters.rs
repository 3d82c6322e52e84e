//! Request-shaping directives: the response-format directive and the
//! keep-alive directive.
//!
//! Both are stateless tagged values consulted once per request. Their
//! `wire_value` methods produce the exact JSON value the remote service
//! recognizes; the surrounding transport only has to emit that value.

use vstd::prelude::*;
use vstd::string::StringExecFns;

use crate::json::{JsonValue, JsonView};
use crate::schema::JsonStructure;

verus! {

/// The shape the model's final answer must take: unconstrained JSON, or JSON
/// conforming to a specific schema document.
#[derive(Debug)]
pub enum FormatType {
    /// The model must answer with JSON of any shape.
    Json,
    /// The model must answer with JSON conforming to the held schema.
    StructuredJson(JsonStructure),
}

impl FormatType {
    /// The wire value of the directive: the literal string `"json"`, or the
    /// held schema document itself (an object, not a string).
    pub fn wire_value(&self) -> (r: JsonValue)
        ensures
            *self matches FormatType::Json ==> r@ == JsonView::Text("json"@),
            *self matches FormatType::StructuredJson(s) ==> r@ == s.spec_wire_value(),
    {
        match self {
            FormatType::Json => JsonValue::Text("json".to_owned()),
            FormatType::StructuredJson(s) => s.wire_value(),
        }
    }
}

/// How long the model stays loaded after the request: indefinitely, not at
/// all, or for a bounded time.
#[derive(Debug, Clone, Copy, PartialEq, Eq)]
pub enum KeepAlive {
    Indefinitely,
    UnloadOnCompletion,
    Until { time: u64, unit: TimeUnit },
}

/// The unit of a bounded keep-alive time.
#[derive(Debug, Clone, Copy, PartialEq, Eq)]
pub enum TimeUnit {
    Seconds,
    Minutes,
    Hours,
}

impl TimeUnit {
    /// The unit's wire symbol.
    pub open spec fn spec_symbol(&self) -> Seq<char> {
        match self {
            TimeUnit::Seconds => "s"@,
            TimeUnit::Minutes => "m"@,
            TimeUnit::Hours => "hr"@,
        }
    }

    /// The symbol appended to the magnitude on the wire.
    pub fn to_symbol(&self) -> (r: &'static str)
        ensures
            r@ == self.spec_symbol(),
    {
        match self {
            TimeUnit::Seconds => "s",
            TimeUnit::Minutes => "m",
            TimeUnit::Hours => "hr",
        }
    }
}

/// The decimal digit for `d`.
pub open spec fn spec_digit_char(d: int) -> char
    recommends
        0 <= d < 10,
{
    if d == 0 {
        '0'
    } else if d == 1 {
        '1'
    } else if d == 2 {
        '2'
    } else if d == 3 {
        '3'
    } else if d == 4 {
        '4'
    } else if d == 5 {
        '5'
    } else if d == 6 {
        '6'
    } else if d == 7 {
        '7'
    } else if d == 8 {
        '8'
    } else {
        '9'
    }
}

/// The decimal representation of `n`, without sign or leading zeros
/// (`0` itself is the single digit `0`).
pub open spec fn spec_decimal(n: nat) -> Seq<char>
    decreases n,
{
    if n < 10 {
        seq![spec_digit_char(n as int)]
    } else {
        spec_decimal(n / 10) + seq![spec_digit_char((n % 10) as int)]
    }
}

/// Appends the single decimal digit `d` to `s`.
fn push_digit(s: &mut String, d: u64)
    requires
        d < 10,
    ensures
        final(s)@ == old(s)@ + seq![spec_digit_char(d as int)],
{
    let lit: &str = if d == 0 {
        "0"
    } else if d == 1 {
        "1"
    } else if d == 2 {
        "2"
    } else if d == 3 {
        "3"
    } else if d == 4 {
        "4"
    } else if d == 5 {
        "5"
    } else if d == 6 {
        "6"
    } else if d == 7 {
        "7"
    } else if d == 8 {
        "8"
    } else {
        "9"
    };
    proof {
        reveal_strlit("0");
        reveal_strlit("1");
        reveal_strlit("2");
        reveal_strlit("3");
        reveal_strlit("4");
        reveal_strlit("5");
        reveal_strlit("6");
        reveal_strlit("7");
        reveal_strlit("8");
        reveal_strlit("9");
        assert(lit@ =~= seq![spec_digit_char(d as int)]);
    }
    s.append(lit);
}

/// Appends the decimal representation of `n` to `s`.
fn push_decimal(s: &mut String, n: u64)
    ensures
        final(s)@ == old(s)@ + spec_decimal(n as nat),
    decreases n,
{
    if n >= 10 {
        push_decimal(s, n / 10);
        push_digit(s, n % 10);
        proof {
            assert(final(s)@ =~= old(s)@ + spec_decimal(n as nat));
        }
    } else {
        push_digit(s, n);
    }
}

impl KeepAlive {
    /// The wire value of the directive: the integer `-1` for an indefinite
    /// stay, the integer `0` for unloading on completion, and the string
    /// `"<magnitude><unit-symbol>"` for a bounded stay.
    pub fn wire_value(&self) -> (r: JsonValue)
        ensures
            ({
                match *self {
                    KeepAlive::Indefinitely => r@ == JsonView::Int(-1),
                    KeepAlive::UnloadOnCompletion => r@ == JsonView::Int(0),
                    KeepAlive::Until { time, unit } => r@ == JsonView::Text(
                        spec_decimal(time as nat) + unit.spec_symbol(),
                    ),
                }
            }),
    {
        match self {
            KeepAlive::Indefinitely => JsonValue::Int(-1),
            KeepAlive::UnloadOnCompletion => JsonValue::Int(0),
            KeepAlive::Until { time, unit } => {
                let mut s = String::new();
                push_decimal(&mut s, *time);
                s.append(unit.to_symbol());
                JsonValue::Text(s)
            },
        }
    }
}

} // verus!
