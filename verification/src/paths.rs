//! Where the keyboard input server finds the screen reader's PID and socket files.

use crate::text::{chars_of, string_of};
use vstd::prelude::*;

verus! {

/// The decimal digit of a number below ten.
pub open spec fn digit_char(d: u32) -> char {
    if d == 0 {
        '0'
    } else if d == 1 {
        '1'
    } else if d == 2 {
        '2'
    } else if d == 3 {
        '3'
    } else if d == 4 {
        '4'
    } else if d == 5 {
        '5'
    } else if d == 6 {
        '6'
    } else if d == 7 {
        '7'
    } else if d == 8 {
        '8'
    } else {
        '9'
    }
}

/// The decimal digits of a number, without leading zeros (`0` for zero).
pub open spec fn decimal_digits(n: u32) -> Seq<char>
    decreases n,
{
    if n < 10 {
        seq![digit_char(n)]
    } else {
        decimal_digits(n / 10).push(digit_char(n % 10))
    }
}

/// The decimal digit of a number below ten.
fn digit(d: u32) -> (c: char)
    requires
        d < 10,
    ensures
        c == digit_char(d),
{
    if d == 0 {
        '0'
    } else if d == 1 {
        '1'
    } else if d == 2 {
        '2'
    } else if d == 3 {
        '3'
    } else if d == 4 {
        '4'
    } else if d == 5 {
        '5'
    } else if d == 6 {
        '6'
    } else if d == 7 {
        '7'
    } else if d == 8 {
        '8'
    } else {
        '9'
    }
}

/// Append the decimal digits of `n` to `v`.
fn push_decimal(v: &mut Vec<char>, n: u32)
    ensures
        final(v)@ == old(v)@ + decimal_digits(n),
    decreases n,
{
    if n < 10 {
        v.push(digit(n));
        assert(final(v)@ =~= old(v)@ + decimal_digits(n)) by {
            assert(decimal_digits(n) == seq![digit_char(n)]);
        }
    } else {
        push_decimal(v, n / 10);
        v.push(digit(n % 10));
        assert(v@ =~= old(v)@ + decimal_digits(n));
    }
}

/// Append the characters of `s` to `v`.
fn push_str(v: &mut Vec<char>, s: &str)
    ensures
        final(v)@ == old(v)@ + s@,
{
    let c = chars_of(s);
    let mut i: usize = 0;
    while i < c.len()
        invariant
            i <= c@.len(),
            c@ == s@,
            v@ == old(v)@ + c@.take(i as int),
        decreases c.len() - i,
    {
        v.push(c[i]);
        i = i + 1;
        assert(v@ =~= old(v)@ + c@.take(i as int));
    }
    assert(c@.take(c@.len() as int) == c@);
}

/// The directory of the runtime files: the runtime directory when there is one, else
/// `/run/user/<uid>`.
pub open spec fn runtime_dir_for(runtime_dir: Option<Seq<char>>, uid: u32) -> Seq<char> {
    match runtime_dir {
        Some(d) => d,
        None => "/run/user/"@ + decimal_digits(uid),
    }
}

/// The PID file and the socket file: `odilias.pid` and `odilia.sock` in the runtime
/// directory (`XDG_RUNTIME_DIR` when it is set), else in `/run/user/<uid>`.
pub fn file_paths(runtime_dir: Option<&str>, uid: u32) -> (r: (String, String))
    ensures
        r.0@ == runtime_dir_for(
            match runtime_dir {
                Some(d) => Some(d@),
                None => None,
            },
            uid,
        ) + "/odilias.pid"@,
        r.1@ == runtime_dir_for(
            match runtime_dir {
                Some(d) => Some(d@),
                None => None,
            },
            uid,
        ) + "/odilia.sock"@,
{
    let mut dir: Vec<char> = Vec::new();
    match runtime_dir {
        Some(d) => {
            push_str(&mut dir, d);
        },
        None => {
            push_str(&mut dir, "/run/user/");
            push_decimal(&mut dir, uid);
        },
    }
    let mut pid = dir.clone();
    push_str(&mut pid, "/odilias.pid");
    let mut sock = dir;
    push_str(&mut sock, "/odilia.sock");
    (string_of(pid.as_slice()), string_of(sock.as_slice()))
}

} // verus!
