//! What the command line asks for.

use crate::control::error::ControlError;
use crate::control::text::{self, trim};
use std::num::{ParseFloatError, ParseIntError};
use vstd::prelude::*;

verus! {

/// The lowest percentage that can be asked for.
pub const MIN_PERCENT: u8 = 1;

/// The highest percentage that can be asked for.
pub const MAX_PERCENT: u8 = 99;

/// An argument as the system hands it over.
#[derive(Debug, PartialEq, Eq)]
pub enum ArgText {
    /// Valid UTF-8.
    Utf8(String),
    /// Not valid UTF-8; the text has replacement characters for what is not.
    Lossy(String),
}

impl ArgText {
    /// The text, with or without replacement characters.
    pub open spec fn text(self) -> Seq<char> {
        match self {
            ArgText::Utf8(text) => text@,
            ArgText::Lossy(text) => text@,
        }
    }
}

/// Whether the arguments can be worked with: the name of the program may be anything.
pub open spec fn arguments_are_utf8(args: Seq<ArgText>) -> bool {
    forall|i: int| 1 <= i < args.len() ==> #[trigger] args[i] is Utf8
}

/// Takes the arguments, the first of which is the name of the program, as text.
pub fn parse_env_args(args: Vec<ArgText>) -> (parsed: Result<Vec<String>, ControlError>)
    ensures
        match parsed {
            Ok(texts) => {
                &&& arguments_are_utf8(args@)
                &&& texts.len() == args.len()
                &&& forall|i: int|
                    0 <= i < args.len() ==> #[trigger] texts@[i]@ == args@[i].text()
            },
            Err(ControlError::InvalidArguments(message)) => {
                &&& !arguments_are_utf8(args@)
                &&& message@ == "arguments must be valid UTF-8"@
            },
            Err(_) => false,
        },
{
    let mut texts: Vec<String> = Vec::new();
    let mut index: usize = 0;
    while index < args.len()
        invariant
            index <= args.len(),
            texts.len() == index,
            forall|i: int| 1 <= i < index ==> #[trigger] args@[i] is Utf8,
            forall|i: int| 0 <= i < index ==> #[trigger] texts@[i]@ == args@[i].text(),
        decreases args.len() - index,
    {
        match &args[index] {
            ArgText::Utf8(text) => texts.push(text.clone()),
            ArgText::Lossy(text) => {
                if index > 0 {
                    assert(!(args@[index as int] is Utf8));
                    return Err(ControlError::InvalidArguments("arguments must be valid UTF-8"));
                }
                texts.push(text.clone());
            },
        }
        index = index + 1;
    }
    Ok(texts)
}

/// Whether the text is digits alone.
pub open spec fn all_digits(text: Seq<char>) -> bool {
    forall|i: int| 0 <= i < text.len() ==> '0' <= #[trigger] text[i] <= '9'
}

/// The number that decimal digits stand for.
pub open spec fn digits_value(digits: Seq<char>) -> int
    decreases digits.len(),
{
    if digits.len() == 0 {
        0
    } else {
        10 * digits_value(digits.drop_last()) + (digits.last() as int - '0' as int)
    }
}

/// The number that the text stands for: digits, with or without a sign in front of them.
pub open spec fn number_in(text: Seq<char>) -> Option<int> {
    let signed = text.len() > 0 && (text.first() == '-' || text.first() == '+');
    let digits = if signed {
        text.drop_first()
    } else {
        text
    };
    if digits.len() == 0 || !all_digits(digits) {
        None
    } else if signed && text.first() == '-' {
        Some(-digits_value(digits))
    } else {
        Some(digits_value(digits))
    }
}

/// The 32-bit number that the text stands for, if any.
pub open spec fn i32_in(text: Seq<char>) -> Option<i32> {
    match number_in(text) {
        Some(number) => if i32::MIN <= number <= i32::MAX {
            Some(number as i32)
        } else {
            None
        },
        None => None,
    }
}

/// Calls `str::parse::<i32>`. It takes decimal digits, with or without one sign in front of
/// them, and fails on any other text, and on a number that needs more than 32 bits. Nothing
/// is claimed of the error that it then gives.
#[verifier::external_body]
fn parse_i32(text: &str) -> (parsed: Result<i32, ParseIntError>)
    ensures
        match parsed {
            Ok(number) => i32_in(text@) == Some(number),
            Err(_) => i32_in(text@) is None,
        },
{
    text.parse::<i32>()
}

/// What the user asks for: the process whose group is to be controlled, and the share of
/// CPU it may use.
#[derive(Debug)]
pub struct ControlConfig<V> {
    pub pid: i32,
    pub throttle: V,
}

/// Whether `result` is `InvalidArguments` with this message.
pub open spec fn rejected_with<V>(
    result: Result<ControlConfig<V>, ControlError>,
    message: Seq<char>,
) -> bool {
    result matches Err(ControlError::InvalidArguments(text)) && text@ == message
}

/// What comes of a percentage that was read, or could not be read.
pub open spec fn throttle_judged<V, W: FnOnce(&V, u8, u8) -> bool>(
    pid: i32,
    reading: Result<V, ParseFloatError>,
    within: W,
    result: Result<ControlConfig<V>, ControlError>,
) -> bool {
    match reading {
        Err(error) => result == Err::<ControlConfig<V>, ControlError>(
            ControlError::InvalidThrottle(error),
        ),
        Ok(throttle) => exists|inside: bool| #[trigger]
            within.ensures((&throttle, MIN_PERCENT, MAX_PERCENT), inside) && if inside {
                result == Ok::<ControlConfig<V>, ControlError>(ControlConfig { pid, throttle })
            } else {
                rejected_with(result, "percentage must be between 1 and 99"@)
            },
    }
}

/// Whether `parse` can read the text so.
pub open spec fn reads_as<V, P: FnOnce(&str) -> Result<V, ParseFloatError>>(
    parse: P,
    text: Seq<char>,
    reading: Result<V, ParseFloatError>,
) -> bool {
    exists|shown: &str| shown@ == text && #[trigger] parse.ensures((shown,), reading)
}

/// What comes of the arguments: the name of the program, a pid and a percentage.
pub open spec fn arguments_judged<
    V,
    P: FnOnce(&str) -> Result<V, ParseFloatError>,
    W: FnOnce(&V, u8, u8) -> bool,
>(
    args: Seq<String>,
    parse: P,
    within: W,
    result: Result<ControlConfig<V>, ControlError>,
) -> bool {
    if args.len() != 3 {
        rejected_with(result, "usage: kirv <pid> <percentage>"@)
    } else {
        match i32_in(text::trimmed(args[1]@)) {
            None => result matches Err(ControlError::InvalidPid(_)),
            Some(pid) => if pid <= 0 {
                rejected_with(result, "pid must be greater than 0"@)
            } else {
                exists|reading: Result<V, ParseFloatError>| #[trigger]
                    reads_as(parse, text::trimmed(args[2]@), reading) && throttle_judged(
                        pid,
                        reading,
                        within,
                        result,
                    )
            },
        }
    }
}

impl<V> ControlConfig<V> {
    /// Reads the configuration from the arguments as the system hands them over. `parse`
    /// reads a percentage, and `within` tells whether it lies between two bounds.
    pub fn from_env<
        P: FnOnce(&str) -> Result<V, ParseFloatError>,
        W: FnOnce(&V, u8, u8) -> bool,
    >(args: Vec<ArgText>, parse: P, within: W) -> (result: Result<ControlConfig<V>, ControlError>)
        requires
            forall|text: &str| #[trigger] parse.requires((text,)),
            forall|throttle: &V| #[trigger]
                within.requires((throttle, MIN_PERCENT, MAX_PERCENT)),
        ensures
            if arguments_are_utf8(args@) {
                exists|texts: Seq<String>| #[trigger]
                    arguments_judged(texts, parse, within, result) && texts.len() == args.len()
                        && forall|i: int|
                        0 <= i < args.len() ==> #[trigger] texts[i]@ == args@[i].text()
            } else {
                rejected_with(result, "arguments must be valid UTF-8"@)
            },
    {
        match parse_env_args(args) {
            Ok(texts) => Self::parse_args(texts.as_slice(), parse, within),
            Err(error) => Err(error),
        }
    }

    pub fn new(pid: i32, throttle: V) -> (config: ControlConfig<V>)
        ensures
            config == (ControlConfig { pid, throttle }),
    {
        ControlConfig { pid, throttle }
    }

    /// Reads the configuration from the arguments.
    pub fn parse_args<
        P: FnOnce(&str) -> Result<V, ParseFloatError>,
        W: FnOnce(&V, u8, u8) -> bool,
    >(args: &[String], parse: P, within: W) -> (result: Result<ControlConfig<V>, ControlError>)
        requires
            forall|text: &str| #[trigger] parse.requires((text,)),
            forall|throttle: &V| #[trigger]
                within.requires((throttle, MIN_PERCENT, MAX_PERCENT)),
        ensures
            arguments_judged(args@, parse, within, result),
    {
        if args.len() != 3 {
            return Err(ControlError::InvalidArguments("usage: kirv <pid> <percentage>"));
        }
        let pid: i32 = match parse_i32(trim(args[1].as_str())) {
            Ok(pid) => pid,
            Err(error) => {
                return Err(ControlError::InvalidPid(error));
            },
        };
        if pid <= 0 {
            return Err(ControlError::InvalidArguments("pid must be greater than 0"));
        }
        let percentage = trim(args[2].as_str());
        let reading = parse(percentage);
        let ghost answer = reading;
        assert(reads_as(parse, text::trimmed(args@[2]@), answer));
        let throttle = match reading {
            Ok(throttle) => throttle,
            Err(error) => {
                return Err(ControlError::InvalidThrottle(error));
            },
        };
        if !within(&throttle, MIN_PERCENT, MAX_PERCENT) {
            return Err(ControlError::InvalidArguments("percentage must be between 1 and 99"));
        }
        Ok(Self::new(pid, throttle))
    }
}

/// A configuration that is accepted names a process: its pid is the one that was written,
/// and positive.
pub proof fn law_accepted_pid_is_positive<
    V,
    P: FnOnce(&str) -> Result<V, ParseFloatError>,
    W: FnOnce(&V, u8, u8) -> bool,
>(args: Seq<String>, parse: P, within: W, config: ControlConfig<V>)
    requires
        arguments_judged(args, parse, within, Ok(config)),
    ensures
        args.len() == 3,
        i32_in(text::trimmed(args[1]@)) == Some(config.pid),
        config.pid > 0,
{
}

proof fn lemma_decimal_reads_back(number: nat)
    ensures
        all_digits(text::decimal(number)),
        text::decimal(number).len() > 0,
        digits_value(text::decimal(number)) == number,
        number > 0 ==> text::decimal(number).first() != '0',
    decreases number,
{
    reveal_with_fuel(digits_value, 2);
    let digits = text::decimal(number);
    if number >= 10 {
        lemma_decimal_reads_back(number / 10);
        let before = text::decimal(number / 10);
        assert(digits.drop_last() =~= before);
        assert forall|i: int| 0 <= i < digits.len() implies '0' <= #[trigger] digits[i] <= '9' by {
            if i < before.len() {
                assert(digits[i] == before[i]);
            }
        }
        assert(digits.first() == before.first());
    } else {
        assert(digits.drop_last() =~= Seq::<char>::empty());
    }
}

/// A number that is written out reads back as itself: its digits are decimal, with nothing in
/// front of them that is not needed.
pub proof fn law_number_reads_back(number: int)
    ensures
        number_in(text::signed_decimal(number)) == Some(number),
        number > 0 ==> text::signed_decimal(number).first() != '0',
{
    if number < 0 {
        let digits = text::decimal((-number) as nat);
        lemma_decimal_reads_back((-number) as nat);
        assert(text::signed_decimal(number).drop_first() =~= digits);
    } else {
        lemma_decimal_reads_back(number as nat);
        let digits = text::decimal(number as nat);
        assert('0' <= digits[0] <= '9');
    }
}

/// The arguments can be worked with unless one after the first is not UTF-8.
pub proof fn law_one_bad_argument_is_enough(args: Seq<ArgText>)
    ensures
        arguments_are_utf8(args) <==> !exists|i: int|
            1 <= i < args.len() && (#[trigger] args[i]) is Lossy,
{
    if arguments_are_utf8(args) {
        assert forall|i: int| 1 <= i < args.len() implies !((#[trigger] args[i]) is Lossy) by {
            assert(args[i] is Utf8);
        }
    }
    if !exists|i: int| 1 <= i < args.len() && (#[trigger] args[i]) is Lossy {
        assert forall|i: int| 1 <= i < args.len() implies (#[trigger] args[i]) is Utf8 by {
            assert(!(args[i] is Lossy));
        }
    }
}

/// Whether the percentage that the text says can be read so.
pub open spec fn percentage_read<V, P: FnOnce(&str) -> Result<V, ParseFloatError>>(
    parse: P,
    text: Seq<char>,
    reading: Result<V, ParseFloatError>,
) -> bool {
    exists|shown: &str| shown@ == text && #[trigger] parse.ensures((shown,), reading)
}

/// Whether `within` can say this of the percentage and the bounds 1 and 99.
pub open spec fn percentage_judged<V, W: FnOnce(&V, u8, u8) -> bool>(
    within: W,
    throttle: V,
    inside: bool,
) -> bool {
    within.ensures((&throttle, 1u8, 99u8), inside)
}

/// Every positive pid that fits 32 bits is accepted, with every percentage between the
/// bounds; and each kind of bad argument is answered in its own way, a bad pid before a bad
/// percentage.
pub proof fn law_when_arguments_are_accepted<
    V,
    P: FnOnce(&str) -> Result<V, ParseFloatError>,
    W: FnOnce(&V, u8, u8) -> bool,
>(args: Seq<String>, parse: P, within: W, result: Result<ControlConfig<V>, ControlError>)
    requires
        arguments_judged(args, parse, within, result),
    ensures
        args.len() != 3 ==> {
            &&& result matches Err(ControlError::InvalidArguments(message))
            &&& message@ == "usage: kirv <pid> <percentage>"@
        },
        args.len() == 3 ==> match number_in(text::trimmed(args[1]@)) {
            Some(number) => {
                &&& number < -0x8000_0000 || number > 0x7fff_ffff ==> (result matches Err(
                    ControlError::InvalidPid(_),
                ))
                &&& -0x8000_0000 <= number <= 0 ==> {
                    &&& result matches Err(ControlError::InvalidArguments(message))
                    &&& message@ == "pid must be greater than 0"@
                }
                &&& 1 <= number <= 0x7fff_ffff ==> exists|reading: Result<V, ParseFloatError>|
                    {
                        &&& #[trigger] percentage_read(parse, text::trimmed(args[2]@), reading)
                        &&& match reading {
                            Err(error) => {
                                &&& result matches Err(ControlError::InvalidThrottle(reason))
                                &&& reason == error
                            },
                            Ok(throttle) => exists|inside: bool|
                                {
                                    &&& #[trigger] percentage_judged(within, throttle, inside)
                                    &&& inside ==> {
                                        &&& result matches Ok(config)
                                        &&& config.pid == number
                                        &&& config.throttle == throttle
                                    }
                                    &&& !inside ==> {
                                        &&& result matches Err(
                                            ControlError::InvalidArguments(message),
                                        )
                                        &&& message@ == "percentage must be between 1 and 99"@
                                    }
                                },
                        }
                    }
            },
            None => result matches Err(ControlError::InvalidPid(_)),
        },
{
    if args.len() == 3 {
        if let Some(number) = number_in(text::trimmed(args[1]@)) {
            if 1 <= number <= 0x7fff_ffff {
                let reading = choose|reading: Result<V, ParseFloatError>| #[trigger]
                    reads_as(parse, text::trimmed(args[2]@), reading) && throttle_judged(
                        number as i32,
                        reading,
                        within,
                        result,
                    );
                assert(percentage_read(parse, text::trimmed(args[2]@), reading));
                if let Ok(throttle) = reading {
                    let inside = choose|inside: bool| #[trigger]
                        within.ensures((&throttle, MIN_PERCENT, MAX_PERCENT), inside) && if inside {
                            result == Ok::<ControlConfig<V>, ControlError>(
                                ControlConfig { pid: number as i32, throttle },
                            )
                        } else {
                            rejected_with(result, "percentage must be between 1 and 99"@)
                        };
                    assert(percentage_judged(within, throttle, inside));
                }
            }
        }
    }
}

/// Every argument is taken as it is, in its place; only one after the first that is not UTF-8
/// is refused, and then all are.
pub proof fn law_arguments_are_taken_as_they_are(
    args: Vec<ArgText>,
    parsed: Result<Vec<String>, ControlError>,
)
    requires
        parse_env_args.ensures((args,), parsed),
    ensures
        parsed is Err <==> exists|i: int| 1 <= i < args@.len() && (#[trigger] args@[i]) is Lossy,
        parsed matches Ok(texts) ==> {
            &&& texts@.len() == args@.len()
            &&& forall|i: int|
                0 <= i < args@.len() ==> (#[trigger] texts@[i])@ == match args@[i] {
                    ArgText::Utf8(text) => text@,
                    ArgText::Lossy(text) => text@,
                }
        },
{
    law_one_bad_argument_is_enough(args@);
}

} // verus!
