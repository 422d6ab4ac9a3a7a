//! The pid file of the background process, and whether a process is alive.

use vstd::prelude::*;

use crate::text::{chars_of, decimal, decimal_string, trim, trim_chars};

verus! {

/// Whether `c` is an ASCII decimal digit.
pub open spec fn is_digit(c: char) -> bool {
    '0' <= c && c <= '9'
}

/// The value of the digit `c`.
pub open spec fn digit_value(c: char) -> int {
    c as int - '0' as int
}

/// The number that the digits `s` denote.
pub open spec fn digits_value(s: Seq<char>) -> int
    decreases s.len(),
{
    if s.len() == 0 {
        0
    } else {
        digits_value(s.drop_last()) * 10 + digit_value(s.last())
    }
}

/// `s` is a non-empty run of decimal digits.
pub open spec fn all_digits(s: Seq<char>) -> bool {
    s.len() > 0 && forall|i: int| 0 <= i < s.len() ==> is_digit(#[trigger] s[i])
}

/// `u32::from_str`: an optional `+` and then only digits, of a value that fits.
pub open spec fn parse_u32(s: Seq<char>) -> Option<u32> {
    let ds = if s.len() > 0 && s[0] == '+' {
        s.drop_first()
    } else {
        s
    };
    if all_digits(ds) && digits_value(ds) <= u32::MAX {
        Some(digits_value(ds) as u32)
    } else {
        None
    }
}

/// The pid that a pid file holds, read as the process writes it back.
pub open spec fn pid_in(contents: Seq<char>) -> Option<u32> {
    parse_u32(trim(contents))
}

proof fn lemma_digits_value_nonneg(s: Seq<char>)
    requires
        forall|i: int| 0 <= i < s.len() ==> is_digit(#[trigger] s[i]),
    ensures
        digits_value(s) >= 0,
    decreases s.len(),
{
    if s.len() > 0 {
        lemma_digits_value_nonneg(s.drop_last());
    }
}

proof fn lemma_digits_value_grows(s: Seq<char>, k: int)
    requires
        0 <= k <= s.len(),
        forall|i: int| 0 <= i < s.len() ==> is_digit(#[trigger] s[i]),
    ensures
        digits_value(s.take(k)) <= digits_value(s),
    decreases s.len(),
{
    if k < s.len() {
        lemma_digits_value_grows(s.drop_last(), k);
        assert(s.drop_last().take(k) =~= s.take(k));
        lemma_digits_value_nonneg(s.drop_last());
    } else {
        assert(s.take(k) =~= s);
    }
}

/// The value of the digits `ds`, where it fits in a `u32`.
fn digits_to_u32(ds: &Vec<char>) -> (r: Option<u32>)
    ensures
        r == (if all_digits(ds@) && digits_value(ds@) <= u32::MAX {
            Some(digits_value(ds@) as u32)
        } else {
            None::<u32>
        }),
{
    if ds.len() == 0 {
        return None;
    }
    let mut acc: u64 = 0;
    let mut i: usize = 0;
    while i < ds.len()
        invariant
            i <= ds@.len(),
            forall|k: int| 0 <= k < i ==> is_digit(#[trigger] ds@[k]),
            acc == digits_value(ds@.take(i as int)),
            acc <= u32::MAX,
        decreases ds.len() - i,
    {
        let c = ds[i];
        if !('0' <= c && c <= '9') {
            return None;
        }
        assert(ds@.take(i + 1).drop_last() =~= ds@.take(i as int));
        let next = acc * 10 + ((c as u32) - ('0' as u32)) as u64;
        if next > 4294967295 {
            proof {
                if forall|k: int| 0 <= k < ds@.len() ==> is_digit(#[trigger] ds@[k]) {
                    lemma_digits_value_grows(ds@, i + 1);
                }
            }
            return None;
        }
        acc = next;
        i = i + 1;
    }
    assert(ds@.take(ds@.len() as int) =~= ds@);
    Some(acc as u32)
}

/// Reads the pid held in a pid file's contents: surrounding whitespace is ignored.
pub fn parse_pid(contents: &str) -> (r: Option<u32>)
    ensures
        r == pid_in(contents@),
{
    let t = trim_chars(&chars_of(contents));
    if t.len() > 0 && t[0] == '+' {
        let mut rest: Vec<char> = Vec::new();
        let mut i: usize = 1;
        while i < t.len()
            invariant
                1 <= i <= t@.len(),
                rest@ == t@.subrange(1, i as int),
            decreases t.len() - i,
        {
            rest.push(t[i]);
            i = i + 1;
            assert(rest@ =~= t@.subrange(1, i as int));
        }
        assert(rest@ =~= t@.drop_first());
        digits_to_u32(&rest)
    } else {
        digits_to_u32(&t)
    }
}

/// What the process writes to its pid file.
pub fn pid_file_contents(pid: u32) -> (r: String)
    ensures
        r@ == decimal(pid as nat),
{
    decimal_string(pid as u64)
}

/// Whether a process exists, judged from `kill(pid, 0)`: it does where the call
/// succeeded, or failed only for want of permission (`eperm` is that error number).
pub fn process_exists(kill_result: i32, last_os_error: Option<i32>, eperm: i32) -> (r: bool)
    ensures
        r == (kill_result == 0 || last_os_error == Some(eperm)),
{
    if kill_result == 0 {
        return true;
    }
    match last_os_error {
        Some(code) => code == eperm,
        None => false,
    }
}

} // verus!

verus! {

proof fn lemma_digit_char(d: nat)
    requires
        d < 10,
    ensures
        is_digit(crate::text::digit_char(d)),
        digit_value(crate::text::digit_char(d)) == d,
{
}

pub(crate) proof fn lemma_decimal_digits(n: nat)
    ensures
        all_digits(decimal(n)),
        digits_value(decimal(n)) == n,
    decreases n,
{
    if n < 10 {
        lemma_digit_char(n);
        assert(decimal(n).drop_last() =~= Seq::<char>::empty());
        assert(digits_value(Seq::<char>::empty()) == 0);
        assert(digits_value(decimal(n)) == digits_value(decimal(n).drop_last()) * 10 + digit_value(decimal(n).last()));
    } else {
        lemma_decimal_digits(n / 10);
        lemma_digit_char(n % 10);
        let s = decimal(n);
        assert(s.drop_last() =~= decimal(n / 10));
        assert(s.last() == crate::text::digit_char(n % 10));
        assert((n / 10) * 10 + n % 10 == n) by (nonlinear_arith);
        assert forall|i: int| 0 <= i < s.len() implies is_digit(#[trigger] s[i]) by {
            if i < s.len() - 1 {
                assert(s[i] == decimal(n / 10)[i]);
            }
        }
    }
}

/// A pid written to the pid file reads back as the same pid.
pub proof fn pid_file_round_trip(pid: u32)
    ensures
        pid_in(decimal(pid as nat)) == Some(pid),
{
    let s = decimal(pid as nat);
    lemma_decimal_digits(pid as nat);
    assert(!crate::text::is_white_space(s[0]));
    assert(crate::text::trim_start(s) == s);
    assert(!crate::text::is_white_space(s.last()));
    assert(crate::text::trim_end(s) == s);
}

} // verus!
