//! Launch timestamps: whole seconds since the Unix epoch, in decimal.

use std::time::{Duration, SystemTime, SystemTimeError, UNIX_EPOCH};
use vstd::prelude::*;
use vstd::string::StringExecFns;

verus! {

/// `std::time::SystemTime`, a reading of the system clock. It is carried
/// from the clock to the subtraction and nothing is known of it.
#[verifier::external_type_specification]
#[verifier::external_body]
pub struct ExSystemTime(std::time::SystemTime);

/// `std::time::SystemTimeError`, what a subtraction of clock readings gives
/// where the later one is the earlier. Nothing is read from it.
#[verifier::external_type_specification]
#[verifier::external_body]
pub struct ExSystemTimeError(std::time::SystemTimeError);

/// `SystemTime::now`: the system clock's reading. It differs from call to
/// call, so nothing is claimed of it.
#[verifier::external_body]
fn system_time_now() -> SystemTime {
    SystemTime::now()
}

/// `SystemTime::duration_since`, with the Unix epoch as the earlier time:
/// the time elapsed since the epoch, or an error where the clock reads
/// earlier than the epoch. Nothing is claimed of the outcome.
#[verifier::external_body]
fn since_unix_epoch(time: &SystemTime) -> Result<Duration, SystemTimeError> {
    time.duration_since(UNIX_EPOCH)
}

/// `Duration::as_secs`: the whole seconds of a duration. A duration is
/// opaque here, so nothing is claimed of the number.
#[verifier::external_body]
fn whole_seconds(elapsed: &Duration) -> u64 {
    elapsed.as_secs()
}

/// The character of a decimal digit.
pub open spec fn digit_char(digit: nat) -> char {
    if digit == 0 {
        '0'
    } else if digit == 1 {
        '1'
    } else if digit == 2 {
        '2'
    } else if digit == 3 {
        '3'
    } else if digit == 4 {
        '4'
    } else if digit == 5 {
        '5'
    } else if digit == 6 {
        '6'
    } else if digit == 7 {
        '7'
    } else if digit == 8 {
        '8'
    } else {
        '9'
    }
}

/// The decimal numeral of `n`, without leading zeros.
pub open spec fn decimal_digits(n: nat) -> Seq<char>
    decreases n,
{
    if n < 10 {
        seq![digit_char(n)]
    } else {
        decimal_digits(n / 10).push(digit_char(n % 10))
    }
}

fn digit_str(digit: u64) -> (text: &'static str)
    requires
        digit < 10,
    ensures
        text@ == seq![digit_char(digit as nat)],
{
    proof {
        reveal_strlit("0");
        reveal_strlit("1");
        reveal_strlit("2");
        reveal_strlit("3");
        reveal_strlit("4");
        reveal_strlit("5");
        reveal_strlit("6");
        reveal_strlit("7");
        reveal_strlit("8");
        reveal_strlit("9");
    }
    let text = if digit == 0 {
        "0"
    } else if digit == 1 {
        "1"
    } else if digit == 2 {
        "2"
    } else if digit == 3 {
        "3"
    } else if digit == 4 {
        "4"
    } else if digit == 5 {
        "5"
    } else if digit == 6 {
        "6"
    } else if digit == 7 {
        "7"
    } else if digit == 8 {
        "8"
    } else {
        "9"
    };
    assert(text@ =~= seq![digit_char(digit as nat)]);
    text
}

fn append_decimal(n: u64, out: &mut String)
    ensures
        final(out)@ == old(out)@ + decimal_digits(n as nat),
    decreases n,
{
    if n >= 10 {
        append_decimal(n / 10, out);
    }
    out.append(digit_str(n % 10));
    assert(out@ =~= old(out)@ + decimal_digits(n as nat));
}

/// The timestamp of a clock reading of `secs` seconds since the Unix epoch.
pub fn stamp_of(secs: u64) -> (stamp: String)
    ensures
        stamp@ == decimal_digits(secs as nat),
{
    let mut stamp = String::new();
    append_decimal(secs, &mut stamp);
    assert(stamp@ =~= decimal_digits(secs as nat));
    stamp
}

/// The timestamp of a reading of the clock: of a reading of so many seconds
/// since the Unix epoch, its timestamp; of a clock that reads earlier than
/// the epoch, which has no such reading, the timestamp of the epoch itself,
/// `"0"`.
pub fn stamp_of_reading(reading: Option<u64>) -> (stamp: String)
    ensures
        stamp@ == decimal_digits(
            match reading {
                Some(secs) => secs as nat,
                None => 0,
            },
        ),
{
    match reading {
        Some(secs) => stamp_of(secs),
        None => stamp_of(0),
    }
}

/// The timestamp of now: the whole seconds that the system clock reads since
/// the Unix epoch, in decimal; `"0"` where the clock reads earlier than the
/// epoch.
pub fn now_stamp() -> (stamp: String)
    ensures
        exists|secs: u64| stamp@ == #[trigger] decimal_digits(secs as nat),
{
    let now = system_time_now();
    let reading: Option<u64> = match since_unix_epoch(&now) {
        Ok(elapsed) => Some(whole_seconds(&elapsed)),
        Err(_) => None,
    };
    let stamp = stamp_of_reading(reading);
    proof {
        let secs: u64 = match reading {
            Some(secs) => secs,
            None => 0,
        };
        assert(stamp@ == decimal_digits(secs as nat));
    }
    stamp
}

} // verus!
