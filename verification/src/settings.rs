//! Settings as the command line spells them.
use crate::decimal::is_digit;
use crate::runtime::{android_runtime_options, options_of};
use crate::scan::{lemma_trim_twice, trim, trim_exec};
use crate::text::{chars_of, concat2, concat3, debug_string, debug_text, same_text, text_between};
use crate::web::{parse_port, port_setting};
use vstd::prelude::*;

verus! {

/// How many digits `text` begins with.
pub open spec fn leading_digits(text: Seq<char>) -> int
    decreases text.len(),
{
    if text.len() > 0 && is_digit(text[0]) {
        1 + leading_digits(text.skip(1))
    } else {
        0
    }
}

/// Whether `suffix` is a unit of sizes: nothing, or bytes, kilobytes, megabytes or gigabytes.
pub open spec fn is_size_unit(suffix: Seq<char>) -> bool {
    ||| suffix.len() == 0
    ||| suffix == "b"@ || suffix == "B"@
    ||| suffix == "k"@ || suffix == "K"@
    ||| suffix == "m"@ || suffix == "M"@
    ||| suffix == "g"@ || suffix == "G"@
    ||| suffix == "kb"@ || suffix == "KB"@
    ||| suffix == "mb"@ || suffix == "MB"@
    ||| suffix == "gb"@ || suffix == "GB"@
}

/// A size as Docker takes it, without blanks around it, or why it is none.
pub open spec fn docker_size(value: Seq<char>) -> Result<Seq<char>, Seq<char>> {
    let size = trim(value);
    if size.len() == 0 {
        Err("Docker size must not be empty"@)
    } else if leading_digits(size) == 0 {
        Err("Docker size "@ + debug_text(value) + " must start with a number"@)
    } else if is_size_unit(size.skip(leading_digits(size))) {
        Ok(size)
    } else {
        Err("Docker size "@ + debug_text(value) + " must use bytes or b/k/m/g suffix"@)
    }
}

fn is_size_unit_exec(suffix: &str) -> (unit: bool)
    ensures
        unit == is_size_unit(suffix@),
{
    suffix.is_empty() || same_text(suffix, "b") || same_text(suffix, "B") || same_text(suffix, "k")
        || same_text(suffix, "K") || same_text(suffix, "m") || same_text(suffix, "M") || same_text(
        suffix,
        "g",
    ) || same_text(suffix, "G") || same_text(suffix, "kb") || same_text(suffix, "KB") || same_text(
        suffix,
        "mb",
    ) || same_text(suffix, "MB") || same_text(suffix, "gb") || same_text(suffix, "GB")
}

pub fn parse_docker_size(value: &str) -> (size: Result<String, String>)
    ensures
        match size {
            Ok(size) => docker_size(value@) == Ok::<Seq<char>, Seq<char>>(size@),
            Err(message) => docker_size(value@) == Err::<Seq<char>, Seq<char>>(message@),
        },
{
    let trimmed = trim_exec(value);
    if trimmed.as_str().is_empty() {
        return Err("Docker size must not be empty".to_string());
    }
    let chars = chars_of(trimmed.as_str());
    let mut digits: usize = 0;
    assert(chars@.skip(0) =~= chars@);
    while digits < chars.len() && '0' <= chars[digits] && chars[digits] <= '9'
        invariant
            digits <= chars@.len(),
            leading_digits(chars@) == digits + leading_digits(chars@.skip(digits as int)),
        decreases chars@.len() - digits,
    {
        assert(chars@.skip(digits as int).skip(1) =~= chars@.skip(digits + 1));
        digits = digits + 1;
    }
    if digits == 0 {
        return Err(
            concat3("Docker size ", debug_string(value).as_str(), " must start with a number"),
        );
    }
    let suffix = text_between(&chars, digits, chars.len());
    assert(suffix@ =~= chars@.skip(digits as int));
    if is_size_unit_exec(suffix.as_str()) {
        Ok(trimmed)
    } else {
        Err(
            concat3(
                "Docker size ",
                debug_string(value).as_str(),
                " must use bytes or b/k/m/g suffix",
            ),
        )
    }
}

/// What a text is as a number of processors.
#[derive(Debug)]
pub enum CpuNumber {
    /// No number at all, for the reason that is given.
    Invalid(String),
    /// A number above zero that is finite.
    Positive,
    /// Another number.
    Other,
}

/// Reads a limit of processors, given what the text is as a number.
pub fn parse_cpus(value: &str, number: CpuNumber) -> (cpus: Result<String, String>)
    ensures
        match number {
            CpuNumber::Invalid(reason) => cpus matches Err(message) && message@
                == "invalid CPU limit "@ + debug_text(value@) + (": "@ + reason@),
            CpuNumber::Positive => cpus matches Ok(text) && text@ == value@,
            CpuNumber::Other => cpus matches Err(message) && message@
                == "CPU limit must be a positive finite number"@,
        },
{
    match number {
        CpuNumber::Invalid(reason) => {
            let why = concat2(": ", reason.as_str());
            Err(concat3("invalid CPU limit ", debug_string(value).as_str(), why.as_str()))
        },
        CpuNumber::Positive => Ok(value.to_string()),
        CpuNumber::Other => Err("CPU limit must be a positive finite number".to_string()),
    }
}

pub fn parse_no_vnc_port(value: &str) -> (port: Result<u16, String>)
    ensures
        match port {
            Ok(port) => port_setting("noVNC port"@, value@) == Ok::<int, Seq<char>>(port as int),
            Err(message) => port_setting("noVNC port"@, value@) == Err::<int, Seq<char>>(message@),
        },
{
    parse_port("noVNC port", value)
}

pub fn parse_runtime_profile(value: &str) -> (profile: Result<String, String>)
    ensures
        match profile {
            Ok(profile) => options_of(value@) is Some && profile@ == value@,
            Err(message) => options_of(value@) is None && message@
                == "runtime profile must be one of: interactive, app-test, app-test-vnc"@,
        },
{
    match android_runtime_options(value) {
        Some(_) => Ok(value.to_string()),
        None => Err(
            "runtime profile must be one of: interactive, app-test, app-test-vnc".to_string(),
        ),
    }
}

/// A size that was accepted is accepted as it stands when it is read again.
pub proof fn accepted_sizes_are_accepted_again(value: Seq<char>)
    requires
        docker_size(value) is Ok,
    ensures
        docker_size(docker_size(value)->Ok_0) == docker_size(value),
{
    lemma_trim_twice(value);
}

/// A size is accepted exactly where, without the white space around it, it is a row of digits with
/// one of the units after it, or with nothing after it; and then it is handed on like that.
pub proof fn sizes_are_digits_and_a_unit(value: Seq<char>, digits: Seq<char>, unit: Seq<char>)
    requires
        trim(value) == digits + unit,
        unit.len() == 0 || !('0' <= unit[0] <= '9'),
        forall|i: int| 0 <= i < digits.len() ==> '0' <= #[trigger] digits[i] <= '9',
    ensures
        docker_size(value) is Ok <==> digits.len() > 0 && (unit == Seq::<char>::empty() || seq![
            "b"@, "B"@, "k"@, "K"@, "m"@, "M"@, "g"@, "G"@, "kb"@, "KB"@, "mb"@, "MB"@, "gb"@,
            "GB"@,
        ].contains(unit)),
        docker_size(value) is Ok ==> docker_size(value)->Ok_0 == trim(value),
        trim(value).len() == 0 ==> docker_size(value) == Err::<Seq<char>, Seq<char>>(
            "Docker size must not be empty"@,
        ),
        trim(value).len() > 0 && digits.len() == 0 ==> docker_size(value) == Err::<
            Seq<char>,
            Seq<char>,
        >("Docker size "@ + debug_text(value) + " must start with a number"@),
        digits.len() > 0 && docker_size(value) is Err ==> docker_size(value) == Err::<
            Seq<char>,
            Seq<char>,
        >("Docker size "@ + debug_text(value) + " must use bytes or b/k/m/g suffix"@),
{
    let size = trim(value);
    lemma_leading_digits(digits, unit);
    assert(size.skip(digits.len() as int) =~= unit);
    let units = seq![
        "b"@, "B"@, "k"@, "K"@, "m"@, "M"@, "g"@, "G"@, "kb"@, "KB"@, "mb"@, "MB"@, "gb"@, "GB"@,
    ];
    assert(units[0] == "b"@ && units[1] == "B"@ && units[2] == "k"@ && units[3] == "K"@);
    assert(units[4] == "m"@ && units[5] == "M"@ && units[6] == "g"@ && units[7] == "G"@);
    assert(units[8] == "kb"@ && units[9] == "KB"@ && units[10] == "mb"@ && units[11] == "MB"@);
    assert(units[12] == "gb"@ && units[13] == "GB"@);
    if unit.len() == 0 {
        assert(unit =~= Seq::<char>::empty());
    }
}

proof fn lemma_leading_digits(digits: Seq<char>, rest: Seq<char>)
    requires
        rest.len() == 0 || !('0' <= rest[0] <= '9'),
        forall|i: int| 0 <= i < digits.len() ==> '0' <= #[trigger] digits[i] <= '9',
    ensures
        leading_digits(digits + rest) == digits.len(),
    decreases digits.len(),
{
    if digits.len() == 0 {
        assert(digits + rest =~= rest);
    } else {
        let tail = digits.skip(1);
        assert('0' <= digits[0] <= '9');
        assert forall|i: int| 0 <= i < tail.len() implies '0' <= #[trigger] tail[i] <= '9' by {
            assert(tail[i] == digits[i + 1]);
        }
        lemma_leading_digits(tail, rest);
        assert((digits + rest).skip(1) =~= tail + rest);
    }
}

} // verus!
