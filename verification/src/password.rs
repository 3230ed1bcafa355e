//! The password policy: how the encryption secret is derived or collected
//! for each [`PasswordMode`].

use vstd::prelude::*;
use rand::RngExt;
use crate::config::PasswordMode;
use crate::text::{digit_char, digit_to_char, push_char};

verus! {

/// What resolving a secret can report.
#[derive(Clone, Copy, PartialEq, Eq, Structural, Debug)]
pub enum PasswordError {
    /// The two manual entries did not match.
    Mismatch,
    /// Manual mode was chosen but no confirmed secret was supplied; the
    /// interactive collaborator has to collect one first.
    SecretRequired,
}

/// An ASCII letter or digit.
pub open spec fn is_alnum_char(c: char) -> bool {
    ||| (65 <= c as u32 && c as u32 <= 90)
    ||| (97 <= c as u32 && c as u32 <= 122)
    ||| (48 <= c as u32 && c as u32 <= 57)
}

/// An ASCII digit.
pub open spec fn is_digit_char(c: char) -> bool {
    48 <= c as u32 && c as u32 <= 57
}

/// Relies on rand's `Alphanumeric` distribution sampled from the thread
/// generator: exactly `length` characters are drawn, each one of `A`–`Z`,
/// `a`–`z` or `0`–`9`.  Which ones come back is the generator's choice;
/// nothing more holds of any outcome.
#[verifier::external_body]
pub fn generate_random_password(length: usize) -> (r: String)
    ensures
        r@.len() == length as int,
        forall|i: int| 0 <= i < r@.len() ==> is_alnum_char(r@[i]),
{
    rand::rng().sample_iter(&rand::distr::Alphanumeric).take(length).map(char::from).collect()
}

/// Relies on chrono's `Local::now` and its `Datelike`/`Timelike` accessors:
/// the month lies in 1..=12, the day in 1..=31, the hour is at most 23, the
/// minute and the second at most 59.  The clock decides the values; nothing
/// more holds of any outcome, and the year is unbounded.
#[verifier::external_body]
fn now_local_fields() -> (r: (i32, u32, u32, u32, u32, u32))
    ensures
        1 <= r.1 <= 12,
        1 <= r.2 <= 31,
        r.3 <= 23,
        r.4 <= 59,
        r.5 <= 59,
{
    let now = chrono::Local::now();
    (
        chrono::Datelike::year(&now),
        chrono::Datelike::month(&now),
        chrono::Datelike::day(&now),
        chrono::Timelike::hour(&now),
        chrono::Timelike::minute(&now),
        chrono::Timelike::second(&now),
    )
}

/// A number rendered as exactly two decimal digits.
pub open spec fn two_digits(v: int) -> Seq<char> {
    seq![digit_char(v / 10), digit_char(v % 10)]
}

/// A number rendered as exactly four decimal digits.
pub open spec fn four_digits(v: int) -> Seq<char> {
    seq![
        digit_char(v / 1000),
        digit_char((v / 100) % 10),
        digit_char((v / 10) % 10),
        digit_char(v % 10),
    ]
}

/// A local time rendered as the fourteen digits `YYYYMMDDhhmmss`.
pub open spec fn timestamp_chars(y: int, mo: int, d: int, h: int, mi: int, s: int) -> Seq<char> {
    four_digits(y) + two_digits(mo) + two_digits(d) + two_digits(h) + two_digits(mi) + two_digits(
        s,
    )
}

/// Every character of a well-formed timestamp rendering is a digit.
pub proof fn lemma_timestamp_digits(y: int, mo: int, d: int, h: int, mi: int, s: int)
    requires
        0 <= y,
        0 <= mo,
        0 <= d,
        0 <= h,
        0 <= mi,
        0 <= s,
    ensures
        timestamp_chars(y, mo, d, h, mi, s).len() == 14,
        forall|i: int|
            0 <= i < 14 ==> is_digit_char(#[trigger] timestamp_chars(y, mo, d, h, mi, s)[i]),
{
    let ts = timestamp_chars(y, mo, d, h, mi, s);
    assert(ts.len() == 14);
    assert forall|i: int| 0 <= i < 14 implies is_digit_char(#[trigger] ts[i]) by {
        assert(ts[0] == digit_char(y / 1000));
        assert(ts[1] == digit_char((y / 100) % 10));
        assert(ts[2] == digit_char((y / 10) % 10));
        assert(ts[3] == digit_char(y % 10));
        assert(ts[4] == digit_char(mo / 10));
        assert(ts[5] == digit_char(mo % 10));
        assert(ts[6] == digit_char(d / 10));
        assert(ts[7] == digit_char(d % 10));
        assert(ts[8] == digit_char(h / 10));
        assert(ts[9] == digit_char(h % 10));
        assert(ts[10] == digit_char(mi / 10));
        assert(ts[11] == digit_char(mi % 10));
        assert(ts[12] == digit_char(s / 10));
        assert(ts[13] == digit_char(s % 10));
    }
}

pub(crate) fn push_two_digits(out: &mut String, v: u64)
    requires
        v < 100,
    ensures
        final(out)@ == old(out)@ + two_digits(v as int),
{
    push_char(out, digit_to_char(v / 10));
    push_char(out, digit_to_char(v % 10));
    proof {
        assert(old(out)@.push(digit_char(v as int / 10)).push(digit_char(v as int % 10)) =~= old(
            out,
        )@ + two_digits(v as int));
    }
}

fn push_four_digits(out: &mut String, v: u64)
    requires
        v < 10000,
    ensures
        final(out)@ == old(out)@ + four_digits(v as int),
{
    push_char(out, digit_to_char(v / 1000));
    push_char(out, digit_to_char((v / 100) % 10));
    push_char(out, digit_to_char((v / 10) % 10));
    push_char(out, digit_to_char(v % 10));
    proof {
        assert(old(out)@.push(digit_char(v as int / 1000)).push(
            digit_char((v as int / 100) % 10),
        ).push(digit_char((v as int / 10) % 10)).push(digit_char(v as int % 10)) =~= old(out)@
            + four_digits(v as int));
    }
}

/// Renders a local time as the fourteen digits `YYYYMMDDhhmmss`.
fn format_timestamp(y: u64, mo: u64, d: u64, h: u64, mi: u64, s: u64) -> (r: String)
    requires
        y < 10000,
        mo < 100,
        d < 100,
        h < 100,
        mi < 100,
        s < 100,
    ensures
        r@ == timestamp_chars(y as int, mo as int, d as int, h as int, mi as int, s as int),
{
    let mut out = String::new();
    push_four_digits(&mut out, y);
    push_two_digits(&mut out, mo);
    push_two_digits(&mut out, d);
    push_two_digits(&mut out, h);
    push_two_digits(&mut out, mi);
    push_two_digits(&mut out, s);
    proof {
        assert(out@ =~= timestamp_chars(
            y as int,
            mo as int,
            d as int,
            h as int,
            mi as int,
            s as int,
        ));
    }
    out
}

/// The confirmation step of manual entry: the prompted secret and its
/// confirmation must match exactly; the interactive collaborator passes
/// both in.
pub fn confirm_manual_password(entry: String, confirmation: &String) -> (r: Result<
    String,
    PasswordError,
>)
    ensures
        (entry@ == confirmation@) <==> r is Ok,
        r matches Ok(s) ==> s@ == entry@,
        entry@ != confirmation@ ==> r == Err::<String, PasswordError>(PasswordError::Mismatch),
{
    if entry.eq(confirmation) {
        Ok(entry)
    } else {
        Err(PasswordError::Mismatch)
    }
}

/// What a correctly resolved secret looks like for each mode: random mode
/// yields sixteen alphanumeric characters, manual mode the preset secret
/// verbatim, timestamp mode fourteen digits rendering a plausible local
/// time, and disabled mode no secret at all.
pub open spec fn spec_resolved_secret(
    mode: PasswordMode,
    preset: Option<String>,
    resolved: Option<String>,
) -> bool {
    match mode {
        PasswordMode::Random => resolved matches Some(s) && s@.len() == 16 && (forall|i: int|
            0 <= i < s@.len() ==> is_alnum_char(s@[i])),
        PasswordMode::Manual => preset matches Some(p) && (resolved matches Some(s) && s == p),
        PasswordMode::Timestamp => resolved matches Some(s) && ({
            &&& s@.len() == 14
            &&& (forall|i: int| 0 <= i < s@.len() ==> is_digit_char(s@[i]))
            &&& (exists|y: int, mo: int, d: int, h: int, mi: int, sec: int|
                {
                    &&& 0 <= y <= 9999
                    &&& 1 <= mo <= 12
                    &&& 1 <= d <= 31
                    &&& 0 <= h <= 23
                    &&& 0 <= mi <= 59
                    &&& 0 <= sec <= 59
                    &&& s@ == timestamp_chars(y, mo, d, h, mi, sec)
                })
        }),
        PasswordMode::Disabled => resolved is None,
    }
}

/// Resolves the encryption secret for one conversion unit.
///
/// Random mode always produces a fresh sixteen-character alphanumeric
/// secret.  Manual mode uses the preset secret verbatim and fails when none
/// was collected.  Timestamp mode renders the current local time as
/// fourteen digits; a clock year outside 0..=9999 is clamped so the secret
/// always has exactly fourteen.  Disabled mode resolves to no secret at
/// all, and the archive layers are then written unencrypted.
pub fn generate_password(password_mode: &PasswordMode, preset_password: Option<String>) -> (r:
    Result<Option<String>, PasswordError>)
    ensures
        r matches Ok(p) ==> spec_resolved_secret(*password_mode, preset_password, p),
        (r is Err) <==> (*password_mode == PasswordMode::Manual && preset_password is None),
        r is Err ==> r == Err::<Option<String>, PasswordError>(PasswordError::SecretRequired),
{
    match password_mode {
        PasswordMode::Random => Ok(Some(generate_random_password(16))),
        PasswordMode::Manual => match preset_password {
            Some(p) => Ok(Some(p)),
            None => Err(PasswordError::SecretRequired),
        },
        PasswordMode::Timestamp => {
            let (y, mo, d, h, mi, s) = now_local_fields();
            let yc: u64 = if y < 0 {
                0
            } else if y > 9999 {
                9999
            } else {
                y as u64
            };
            let ts = format_timestamp(yc, mo as u64, d as u64, h as u64, mi as u64, s as u64);
            proof {
                lemma_timestamp_digits(
                    yc as int,
                    mo as int,
                    d as int,
                    h as int,
                    mi as int,
                    s as int,
                );
            }
            Ok(Some(ts))
        },
        PasswordMode::Disabled => Ok(None),
    }
}

} // verus!
