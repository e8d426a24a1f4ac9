//! Compute device identification.
//!
//! Inference runs on the processor or on a numbered GPU; a device is
//! rendered as `CPU`, `CUDA:<n>` or `Metal:<n>`. Probing which devices the
//! machine actually offers is an outside concern; this type only names
//! them.

use vstd::prelude::*;

use vstd::string::StringExecFns;

verus! {

/// A compute device: the processor, or a GPU by index.
#[derive(Debug, Clone, PartialEq)]
pub enum DeviceType {
    Cpu,
    Cuda(u32),
    Metal(u32),
}

/// The decimal digit character for `d` in `0 ..= 9`.
pub open spec fn decimal_digit(d: int) -> char {
    if d == 0 {
        '0'
    } else if d == 1 {
        '1'
    } else if d == 2 {
        '2'
    } else if d == 3 {
        '3'
    } else if d == 4 {
        '4'
    } else if d == 5 {
        '5'
    } else if d == 6 {
        '6'
    } else if d == 7 {
        '7'
    } else if d == 8 {
        '8'
    } else {
        '9'
    }
}

/// The decimal digits of a non-negative integer, most significant first.
pub open spec fn spec_decimal(n: int) -> Seq<char>
    recommends
        n >= 0,
    decreases n,
{
    if n < 10 {
        seq![decimal_digit(n)]
    } else {
        spec_decimal(n / 10).push(decimal_digit(n % 10))
    }
}

/// The one-character string for a single decimal digit.
fn digit_str(d: u32) -> (r: &'static str)
    requires
        d < 10,
    ensures
        r@ == seq![decimal_digit(d as int)],
{
    proof {
        reveal_strlit("0");
        reveal_strlit("1");
        reveal_strlit("2");
        reveal_strlit("3");
        reveal_strlit("4");
        reveal_strlit("5");
        reveal_strlit("6");
        reveal_strlit("7");
        reveal_strlit("8");
        reveal_strlit("9");
    }
    match d {
        0 => "0",
        1 => "1",
        2 => "2",
        3 => "3",
        4 => "4",
        5 => "5",
        6 => "6",
        7 => "7",
        8 => "8",
        _ => "9",
    }
}

/// Renders a non-negative integer as its decimal digits, most significant
/// first.
fn decimal_string(n: u32) -> (r: String)
    ensures
        r@ == spec_decimal(n as int),
    decreases n,
{
    if n < 10 {
        digit_str(n).to_owned()
    } else {
        let prefix = decimal_string(n / 10);
        let r = prefix.concat(digit_str(n % 10));
        proof {
            assert(r@ =~= spec_decimal(n as int));
        }
        r
    }
}

/// How a device renders: `CPU`, `CUDA:<index>`, or `Metal:<index>`.
pub open spec fn spec_device_display(d: DeviceType) -> Seq<char> {
    match d {
        DeviceType::Cpu => "CPU"@,
        DeviceType::Cuda(i) => "CUDA:"@ + spec_decimal(i as int),
        DeviceType::Metal(i) => "Metal:"@ + spec_decimal(i as int),
    }
}

impl DeviceType {
    /// The device's display name.
    pub fn display_string(&self) -> (r: String)
        ensures
            r@ == spec_device_display(*self),
    {
        match self {
            DeviceType::Cpu => "CPU".to_owned(),
            DeviceType::Cuda(i) => "CUDA:".to_owned().concat(decimal_string(*i).as_str()),
            DeviceType::Metal(i) => "Metal:".to_owned().concat(decimal_string(*i).as_str()),
        }
    }
}

} // verus!
