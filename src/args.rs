use vstd::prelude::*;

use crate::text::{has_prefix, same_text, starts_with};

verus! {

/// One command-line argument, understood.
#[derive(Debug)]
pub enum Arg {
    /// `-d=<n><unit>` or `--delay=<n><unit>`: the interval in seconds.
    Delay(u32),
    /// `-p=<dir>` or `--path=<dir>`: a root directory of the library.
    Path(String),
    /// `-s` or `--silent`: quiet mode.
    Silent,
}

/// Why an argument was refused.
#[derive(Clone, Copy, Debug, PartialEq, Eq, Structural)]
pub enum ArgError {
    /// The delay does not end in `s`, `m` or `h`.
    BadDelayUnit,
    /// The delay's number is no unsigned 32-bit decimal.
    BadDelayNumber,
    /// The delay in seconds does not fit in 32 bits.
    DelayOverflow,
    /// The argument is none of the known ones.
    Unknown,
}

pub open spec fn is_digit(c: char) -> bool {
    '0' <= c && c <= '9'
}

/// Value of a string of decimal digits.
pub open spec fn decimal_value(s: Seq<char>) -> int
    decreases s.len(),
{
    if s.len() == 0 {
        0
    } else {
        decimal_value(s.drop_last()) * 10 + (s.last() as int - '0' as int)
    }
}

/// The digits of an unsigned number: one leading `+` is allowed.
pub open spec fn unsigned_digits(s: Seq<char>) -> Seq<char> {
    if s.len() > 0 && s[0] == '+' {
        s.drop_first()
    } else {
        s
    }
}

/// The `u32` that `s` denotes as `u32::from_str` reads it, if any.
pub open spec fn parsed_u32(s: Seq<char>) -> Option<u32> {
    let d = unsigned_digits(s);
    if d.len() > 0 && (forall|i: int| 0 <= i < d.len() ==> is_digit(#[trigger] d[i]))
        && decimal_value(d) <= u32::MAX {
        Some(decimal_value(d) as u32)
    } else {
        None
    }
}

/// Seconds per unit of a delay suffix.
pub open spec fn unit_seconds(c: char) -> Option<u32> {
    if c == 's' {
        Some(1u32)
    } else if c == 'm' {
        Some(60u32)
    } else if c == 'h' {
        Some(3600u32)
    } else {
        None
    }
}

/// The delay in seconds that `d` (a number, then a unit) denotes.
pub open spec fn delay_seconds(d: Seq<char>) -> Result<u32, ArgError> {
    if d.len() == 0 || unit_seconds(d.last()) is None {
        Err(ArgError::BadDelayUnit)
    } else {
        match parsed_u32(d.drop_last()) {
            None => Err(ArgError::BadDelayNumber),
            Some(n) => {
                let total = (n as int) * (unit_seconds(d.last()).unwrap() as int);
                if total <= u32::MAX {
                    Ok(total as u32)
                } else {
                    Err(ArgError::DelayOverflow)
                }
            },
        }
    }
}

proof fn lemma_decimal_grows(s: Seq<char>, i: int, j: int)
    requires
        0 <= i <= j <= s.len(),
        forall|k: int| 0 <= k < s.len() ==> is_digit(#[trigger] s[k]),
    ensures
        decimal_value(s.subrange(0, i)) <= decimal_value(s.subrange(0, j)),
    decreases j - i,
{
    if i < j {
        lemma_decimal_grows(s, i, j - 1);
        let t = s.subrange(0, j);
        assert(t.drop_last() =~= s.subrange(0, j - 1));
        assert(is_digit(s[j - 1]));
        assert(decimal_value(s.subrange(0, j - 1)) >= 0) by {
            lemma_decimal_nonneg(s.subrange(0, j - 1));
        }
    }
}

proof fn lemma_decimal_nonneg(s: Seq<char>)
    requires
        forall|k: int| 0 <= k < s.len() ==> is_digit(#[trigger] s[k]),
    ensures
        decimal_value(s) >= 0,
    decreases s.len(),
{
    if s.len() > 0 {
        lemma_decimal_nonneg(s.drop_last());
    }
}

/// Reads an unsigned 32-bit decimal as `u32::from_str` does: an optional `+`,
/// then at least one digit, with a value that fits.
pub fn parse_u32(s: &str) -> (r: Option<u32>)
    ensures
        r == parsed_u32(s@),
{
    let n = s.unicode_len();
    let mut start: usize = 0;
    if n > 0 && s.get_char(0) == '+' {
        start = 1;
    }
    let ghost d = unsigned_digits(s@);
    assert(d =~= s@.subrange(start as int, n as int));
    if start == n {
        return None;
    }
    let mut value: u32 = 0;
    let mut i: usize = start;
    while i < n
        invariant
            n == s@.len(),
            start <= i <= n,
            d == s@.subrange(start as int, n as int),
            d == unsigned_digits(s@),
            forall|k: int| 0 <= k < i - start ==> is_digit(#[trigger] d[k]),
            value as int == decimal_value(d.subrange(0, i - start)),
        decreases n - i,
    {
        let c = s.get_char(i);
        assert(c == d[i - start]);
        if !('0' <= c && c <= '9') {
            assert(!is_digit(d[i - start]));
            assert(!(forall|m: int| 0 <= m < d.len() ==> is_digit(#[trigger] d[m])));
            return None;
        }
        let digit: u32 = (c as u32) - ('0' as u32);
        let ghost k: int = (i - start) as int;
        assert(d.subrange(0, k + 1).drop_last() =~= d.subrange(0, k));
        if value > 429_496_729 || (value == 429_496_729 && digit > 5) {
            proof {
                assert(d.subrange(0, k + 1).last() == c);
                assert(decimal_value(d.subrange(0, k + 1)) == value * 10 + digit);
                assert(decimal_value(d.subrange(0, k + 1)) > u32::MAX);
                if forall|m: int| 0 <= m < d.len() ==> is_digit(#[trigger] d[m]) {
                    lemma_decimal_grows(d, k + 1, d.len() as int);
                    assert(d.subrange(0, d.len() as int) =~= d);
                    assert(decimal_value(d) > u32::MAX);
                }
            }
            return None;
        }
        value = value * 10 + digit;
        i = i + 1;
    }
    assert(d.subrange(0, (n - start) as int) =~= d);
    Some(value)
}

/// Reads a delay: a number, then `s`, `m` or `h`.
pub fn parse_delay(d: &str) -> (r: Result<u32, ArgError>)
    ensures
        r == delay_seconds(d@),
{
    let n = d.unicode_len();
    if n == 0 {
        return Err(ArgError::BadDelayUnit);
    }
    let unit = d.get_char(n - 1);
    let seconds: u32 = if unit == 's' {
        1
    } else if unit == 'm' {
        60
    } else if unit == 'h' {
        3600
    } else {
        return Err(ArgError::BadDelayUnit);
    };
    let number = d.substring_char(0, n - 1);
    assert(number@ =~= d@.drop_last());
    match parse_u32(number) {
        None => Err(ArgError::BadDelayNumber),
        Some(count) => match count.checked_mul(seconds) {
            Some(total) => Ok(total),
            None => Err(ArgError::DelayOverflow),
        },
    }
}

/// What follows the short or, failing that, the long form of an option.
pub open spec fn option_value(a: Seq<char>, short: Seq<char>, long: Seq<char>) -> Seq<char> {
    if has_prefix(a, short) {
        a.subrange(short.len() as int, a.len() as int)
    } else {
        a.subrange(long.len() as int, a.len() as int)
    }
}

/// `r` is what `a` means as an argument. The options are tried in order:
/// delay, path, quiet.
pub open spec fn parses_as(a: Seq<char>, r: Result<Arg, ArgError>) -> bool {
    if has_prefix(a, "-d="@) || has_prefix(a, "--delay="@) {
        match delay_seconds(option_value(a, "-d="@, "--delay="@)) {
            Ok(d) => r == Ok::<Arg, ArgError>(Arg::Delay(d)),
            Err(e) => r == Err::<Arg, ArgError>(e),
        }
    } else if has_prefix(a, "-p="@) || has_prefix(a, "--path="@) {
        r matches Ok(Arg::Path(p)) && p@ == option_value(a, "-p="@, "--path="@)
    } else if a == "-s"@ || a == "--silent"@ {
        r == Ok::<Arg, ArgError>(Arg::Silent)
    } else {
        r == Err::<Arg, ArgError>(ArgError::Unknown)
    }
}

fn option_value_of<'a>(a: &'a str, short: &str, long: &str) -> (r: &'a str)
    requires
        has_prefix(a@, short@) || has_prefix(a@, long@),
    ensures
        r@ == option_value(a@, short@, long@),
{
    let n = a.unicode_len();
    if starts_with(a, short) {
        a.substring_char(short.unicode_len(), n)
    } else {
        a.substring_char(long.unicode_len(), n)
    }
}

/// Reads one command-line argument.
pub fn parse_arg(arg: &str) -> (r: Result<Arg, ArgError>)
    ensures
        parses_as(arg@, r),
{
    if starts_with(arg, "-d=") || starts_with(arg, "--delay=") {
        match parse_delay(option_value_of(arg, "-d=", "--delay=")) {
            Ok(d) => Ok(Arg::Delay(d)),
            Err(e) => Err(e),
        }
    } else if starts_with(arg, "-p=") || starts_with(arg, "--path=") {
        let p = option_value_of(arg, "-p=", "--path=");
        Ok(Arg::Path(String::from_str(p)))
    } else if same_text(arg, "-s") || same_text(arg, "--silent") {
        Ok(Arg::Silent)
    } else {
        Err(ArgError::Unknown)
    }
}

/// A path that starts with `~` names a directory under the user's home:
/// `~/x` becomes `/home/<user>/x`.
pub fn expand_home(path_str: &str, user_name: &str) -> (r: String)
    requires
        path_str@.len() > 0,
    ensures
        r@ == "/home/"@ + user_name@ + path_str@.drop_first(),
{
    let n = path_str.unicode_len();
    let mut expanded = String::from_str("/home/");
    expanded.append(user_name);
    expanded.append(path_str.substring_char(1, n));
    expanded
}

} // verus!
