pub mod gif;
pub mod png;

use vstd::prelude::*;
use vstd::string::StringExecFns;

verus! {

/// Why a capture request produced no job.  The unknown-recorder case is the
/// expected race with teardown and is dropped silently by callers; the
/// others are logged by the host.
#[derive(Clone, Copy, Debug, PartialEq, Eq, Structural)]
pub enum CaptureError {
    /// The request names a recorder that is not tracked; it may have raced
    /// with teardown.
    UnknownRecorder,
    /// The request asked to stop tracking after the capture; that
    /// disposition is not implemented and fails closed.
    StopUnsupported,
    /// The recorder has no stored frames yet.
    NoFrames,
    /// A stored frame does not hold exactly `width * height * pixel_size`
    /// bytes.
    WrongSize,
    /// The encoder declined the frame data.
    EncodeFailed,
}

/// The decimal digits of `n`, most significant first.
pub open spec fn spec_decimal(n: int) -> Seq<char>
    decreases n,
{
    if n < 10 {
        seq![spec_digit_char(n)]
    } else {
        spec_decimal(n / 10).push(spec_digit_char(n % 10))
    }
}

/// The character for one decimal digit.
pub open spec fn spec_digit_char(d: int) -> char {
    if d == 0 {
        '0'
    } else if d == 1 {
        '1'
    } else if d == 2 {
        '2'
    } else if d == 3 {
        '3'
    } else if d == 4 {
        '4'
    } else if d == 5 {
        '5'
    } else if d == 6 {
        '6'
    } else if d == 7 {
        '7'
    } else if d == 8 {
        '8'
    } else {
        '9'
    }
}

fn digit_str(d: u64) -> (r: &'static str)
    requires
        d < 10,
    ensures
        r@ == seq![spec_digit_char(d as int)],
{
    proof {
        reveal_strlit("0");
        reveal_strlit("1");
        reveal_strlit("2");
        reveal_strlit("3");
        reveal_strlit("4");
        reveal_strlit("5");
        reveal_strlit("6");
        reveal_strlit("7");
        reveal_strlit("8");
        reveal_strlit("9");
    }
    match d {
        0 => "0",
        1 => "1",
        2 => "2",
        3 => "3",
        4 => "4",
        5 => "5",
        6 => "6",
        7 => "7",
        8 => "8",
        _ => "9",
    }
}

/// The decimal rendering of `n`, most significant digit first.
pub fn u64_to_decimal(n: u64) -> (r: String)
    ensures
        r@ == spec_decimal(n as int),
    decreases n,
{
    if n < 10 {
        digit_str(n).to_owned()
    } else {
        let mut s = u64_to_decimal(n / 10);
        s.append(digit_str(n % 10));
        s
    }
}

/// The file name a capture is saved under: the caller's path when one was
/// given, else a name generated from the wall-clock time in whole seconds
/// and the format's extension.
pub fn resolve_output_name(path: &Option<String>, now_seconds: u64, extension: &str) -> (r:
    String)
    ensures
        r@ == match path {
            Some(p) => p@,
            None => spec_decimal(now_seconds as int) + extension@,
        },
{
    match path {
        Some(p) => p.clone(),
        None => {
            let mut s = u64_to_decimal(now_seconds);
            s.append(extension);
            s
        },
    }
}

} // verus!
