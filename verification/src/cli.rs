//! The command line: an optional port and the flag `--force`.

use crate::response::decimal;
use crate::response::decimal_string;
use vstd::prelude::*;
use vstd::string::StringExecFns;

verus! {

/// The port that is served where none is given.
pub const DEFAULT_PORT: u16 = 8000;

/// What the command line asks for.
#[derive(Clone, Copy, Debug, PartialEq, Eq, Structural)]
pub struct Options {
    /// Serve the directory even where the guard calls it dangerous.
    pub force: bool,
    /// The port to listen on, from 1 to 65535.
    pub port: u16,
}

/// Why a command line is refused.
#[derive(Clone, Debug, PartialEq, Eq)]
pub enum ArgsError {
    /// An argument that begins with `-` and is not `--force`.
    UnknownFlag(String),
    /// The port is no number, or none that fits in 16 bits.
    PortNotANumber,
    /// The port is zero.
    PortOutOfRange,
    /// A second argument that is no flag.
    TooManyPositionals,
}

/// What an error holds.
pub enum ArgsErrorModel {
    UnknownFlag(Seq<char>),
    PortNotANumber,
    PortOutOfRange,
    TooManyPositionals,
}

impl View for ArgsError {
    type V = ArgsErrorModel;

    open spec fn view(&self) -> ArgsErrorModel {
        match self {
            ArgsError::UnknownFlag(flag) => ArgsErrorModel::UnknownFlag(flag@),
            ArgsError::PortNotANumber => ArgsErrorModel::PortNotANumber,
            ArgsError::PortOutOfRange => ArgsErrorModel::PortOutOfRange,
            ArgsError::TooManyPositionals => ArgsErrorModel::TooManyPositionals,
        }
    }
}

/// Whether a character is a decimal digit.
pub open spec fn is_digit(c: char) -> bool {
    '0' <= c <= '9'
}

/// The number that a string of decimal digits spells.
pub open spec fn decimal_value(digits: Seq<char>) -> nat
    decreases digits.len(),
{
    if digits.len() == 0 {
        0
    } else {
        decimal_value(digits.drop_last()) * 10 + (digits.last() as nat - '0' as nat) as nat
    }
}

/// The digits of a number as it may be written: after one optional `+`.
pub open spec fn unsigned_part(text: Seq<char>) -> Seq<char> {
    if text.len() > 0 && text[0] == '+' {
        text.drop_first()
    } else {
        text
    }
}

/// The 16-bit number that a text spells: one or more decimal digits, after
/// one optional `+`, of a value up to 65535. Leading zeros are accepted.
pub open spec fn number_of(text: Seq<char>) -> Option<u16> {
    let digits = unsigned_part(text);
    if digits.len() > 0 && (forall|i: int| 0 <= i < digits.len() ==> is_digit(#[trigger] digits[i]))
        && decimal_value(digits) <= 0xffff {
        Some(decimal_value(digits) as u16)
    } else {
        None
    }
}

/// The outcome of reading the arguments from the first on, after `force` and
/// `port` have been read from earlier ones. The first offending argument
/// decides the error.
pub open spec fn parsed_from(args: Seq<Seq<char>>, force: bool, port: Option<u16>) -> Result<
    Options,
    ArgsErrorModel,
>
    decreases args.len(),
{
    if args.len() == 0 {
        Ok(
            Options {
                force,
                port: match port {
                    Some(port) => port,
                    None => DEFAULT_PORT,
                },
            },
        )
    } else {
        let arg = args[0];
        let rest = args.drop_first();
        if arg == "--force"@ {
            parsed_from(rest, true, port)
        } else if arg.len() > 0 && arg[0] == '-' {
            Err(ArgsErrorModel::UnknownFlag(arg))
        } else if port is Some {
            Err(ArgsErrorModel::TooManyPositionals)
        } else {
            match number_of(arg) {
                None => Err(ArgsErrorModel::PortNotANumber),
                Some(number) => if number == 0 {
                    Err(ArgsErrorModel::PortOutOfRange)
                } else {
                    parsed_from(rest, force, Some(number))
                },
            }
        }
    }
}

/// The outcome of reading a command line, without the name of the program.
pub open spec fn parsed(args: Seq<Seq<char>>) -> Result<Options, ArgsErrorModel> {
    parsed_from(args, false, None)
}

/// What the outcome of parsing holds.
pub open spec fn outcome_model(outcome: Result<Options, ArgsError>) -> Result<
    Options,
    ArgsErrorModel,
> {
    match outcome {
        Ok(options) => Ok(options),
        Err(error) => Err(error@),
    }
}

/// The message for an error.
pub open spec fn message_of(error: ArgsErrorModel) -> Seq<char> {
    match error {
        ArgsErrorModel::UnknownFlag(flag) => "Unknown flag: "@ + flag,
        ArgsErrorModel::PortNotANumber => "Port must be a number between 1 and 65535"@,
        ArgsErrorModel::PortOutOfRange => "Port must be between 1 and 65535"@,
        ArgsErrorModel::TooManyPositionals => "Too many positional arguments"@,
    }
}

/// The address on which a port is served on all interfaces.
pub open spec fn address_of(port: u16) -> Seq<char> {
    "[::]:"@ + decimal(port as nat)
}

/// The line that says what is served, and where.
pub open spec fn serving_line(dir: Seq<char>, address: Seq<char>) -> Seq<char> {
    "Serving "@ + dir + " on http://"@ + address
}

/// Whether a text begins with `-`.
fn begins_with_dash(text: &str) -> (out: bool)
    ensures
        out == (text@.len() > 0 && text@[0] == '-'),
{
    let mut first: Option<char> = None;
    for c in it: text.chars()
        invariant
            it.seq() == text@,
            first == (if it.index() > 0 {
                Some(text@[0])
            } else {
                None
            }),
    {
        if first.is_none() {
            first = Some(c);
        }
    }
    match first {
        Some(c) => c == '-',
        None => false,
    }
}

/// Where the digits of a number begin: behind the `+`, where there is one.
pub open spec fn digits_start(text: Seq<char>) -> int {
    if text.len() > 0 && text[0] == '+' {
        1
    } else {
        0
    }
}

/// Reads a 16-bit number as `str::parse` does: decimal digits after one
/// optional `+`.
pub fn parse_number(text: &str) -> (out: Option<u16>)
    ensures
        out == number_of(text@),
{
    let mut value: u32 = 0;
    let mut any: bool = false;
    let mut valid: bool = true;
    let mut overflow: bool = false;
    let mut first: bool = true;
    let ghost start = digits_start(text@);
    for c in it: text.chars()
        invariant
            it.seq() == text@,
            start == digits_start(text@),
            first == (it.index() == 0),
            valid ==> any == (it.index() > start),
            valid ==> forall|i: int| start <= i < it.index() ==> is_digit(#[trigger] text@[i]),
            !valid ==> exists|i: int|
                0 <= i < unsigned_part(text@).len() && !is_digit(#[trigger] unsigned_part(text@)[i]),
            valid && any && !overflow ==> value == decimal_value(
                text@.subrange(start, it.index() as int),
            ) && value <= 0xffff,
            valid && any && overflow ==> decimal_value(text@.subrange(start, it.index() as int))
                > 0xffff,
            !any ==> value == 0 && !overflow,
    {
        let ghost at = it.index();
        assert(c == text@[at as int]);
        if valid {
            if first && c == '+' {
            } else if '0' <= c && c <= '9' {
                proof {
                    let before = text@.subrange(start, at as int);
                    let after = text@.subrange(start, at + 1);
                    assert(after.drop_last() =~= before);
                    assert(after.last() == c);
                    if !any {
                        assert(before =~= Seq::<char>::empty());
                    }
                    assert(decimal_value(after) == decimal_value(before) * 10 + (c as nat
                        - '0' as nat));
                }
                if !overflow {
                    let digit: u32 = c as u32 - '0' as u32;
                    value = value * 10 + digit;
                    if value > 0xffff {
                        overflow = true;
                    }
                }
                any = true;
            } else {
                valid = false;
                proof {
                    let digits = unsigned_part(text@);
                    assert(digits[at - start] == text@[at as int]);
                }
            }
        }
        first = false;
    }
    proof {
        if valid {
            assert(text@.subrange(start, text@.len() as int) =~= unsigned_part(text@));
        }
    }
    if valid && any && !overflow {
        Some(value as u16)
    } else {
        None
    }
}

/// Reads a command line, without the name of the program.
pub fn parse_args(args: &Vec<String>) -> (out: Result<Options, ArgsError>)
    ensures
        outcome_model(out) == parsed(args.deep_view()),
{
    let mut force: bool = false;
    let mut port: Option<u16> = None;
    let mut i: usize = 0;
    let flag = String::from_str("--force");
    assert(args.deep_view().subrange(0, args.deep_view().len() as int) =~= args.deep_view());
    while i < args.len()
        invariant
            i <= args.len(),
            flag@ == "--force"@,
            parsed(args.deep_view()) == parsed_from(
                args.deep_view().subrange(i as int, args.deep_view().len() as int),
                force,
                port,
            ),
        decreases args.len() - i,
    {
        let ghost rest = args.deep_view().subrange(i as int, args.deep_view().len() as int);
        let arg = &args[i];
        proof {
            assert(rest[0] == arg@);
            assert(rest.drop_first() =~= args.deep_view().subrange(
                i + 1,
                args.deep_view().len() as int,
            ));
        }
        if *arg == flag {
            force = true;
        } else if begins_with_dash(arg.as_str()) {
            return Err(ArgsError::UnknownFlag(arg.clone()));
        } else if port.is_some() {
            return Err(ArgsError::TooManyPositionals);
        } else {
            match parse_number(arg.as_str()) {
                None => {
                    return Err(ArgsError::PortNotANumber);
                },
                Some(number) => {
                    if number == 0 {
                        return Err(ArgsError::PortOutOfRange);
                    }
                    port = Some(number);
                },
            }
        }
        i = i + 1;
    }
    Ok(
        Options {
            force,
            port: match port {
                Some(port) => port,
                None => DEFAULT_PORT,
            },
        },
    )
}

impl ArgsError {
    /// The message for the error.
    pub fn message(&self) -> (out: String)
        ensures
            out@ == message_of(self@),
    {
        match self {
            ArgsError::UnknownFlag(flag) => String::from_str("Unknown flag: ").concat(
                flag.as_str(),
            ),
            ArgsError::PortNotANumber => String::from_str(
                "Port must be a number between 1 and 65535",
            ),
            ArgsError::PortOutOfRange => String::from_str("Port must be between 1 and 65535"),
            ArgsError::TooManyPositionals => String::from_str("Too many positional arguments"),
        }
    }
}

/// The address on which a port is served on all interfaces.
pub fn bind_address(port: u16) -> (out: String)
    ensures
        out@ == address_of(port),
{
    let digits = decimal_string(port as u64);
    String::from_str("[::]:").concat(digits.as_str())
}

/// The first line that the server prints once it listens: the directory, and
/// the address.
pub fn serving_notice(dir: &str, address: &str) -> (out: String)
    ensures
        out@ == serving_line(dir@, address@),
{
    String::from_str("Serving ").concat(dir).concat(" on http://").concat(address)
}

/// The second line that the server prints once it listens.
pub fn index_notice() -> (out: String)
    ensures
        out@ == "Index is disabled; only direct file paths are allowed."@,
{
    String::from_str("Index is disabled; only direct file paths are allowed.")
}

} // verus!
