//! Verified text formatting: decimal rendering of integers, the "User
//! {id}: {name}" line in several shapes, and picking the longer of two
//! strings.

use vstd::prelude::*;
use vstd::string::StringExecFns;

verus! {

/// The decimal digit character for `d` in 0..=9.
pub open spec fn digit_char(d: int) -> char {
    if d == 0 {
        '0'
    } else if d == 1 {
        '1'
    } else if d == 2 {
        '2'
    } else if d == 3 {
        '3'
    } else if d == 4 {
        '4'
    } else if d == 5 {
        '5'
    } else if d == 6 {
        '6'
    } else if d == 7 {
        '7'
    } else if d == 8 {
        '8'
    } else {
        '9'
    }
}

/// The decimal digits of a non-negative `n`, most significant first, with
/// no leading zeros (a single zero for 0).
pub open spec fn dec_digits(n: int) -> Seq<char>
    decreases n,
{
    if n < 10 {
        seq![digit_char(n)]
    } else {
        dec_digits(n / 10).push(digit_char(n % 10))
    }
}

/// The one-character string for digit `d`.
fn digit_str(d: u64) -> (s: &'static str)
    requires
        d < 10,
    ensures
        s@ == seq![digit_char(d as int)],
{
    let s: &'static str = match d {
        0 => "0",
        1 => "1",
        2 => "2",
        3 => "3",
        4 => "4",
        5 => "5",
        6 => "6",
        7 => "7",
        8 => "8",
        _ => "9",
    };
    proof {
        reveal_strlit("0");
        reveal_strlit("1");
        reveal_strlit("2");
        reveal_strlit("3");
        reveal_strlit("4");
        reveal_strlit("5");
        reveal_strlit("6");
        reveal_strlit("7");
        reveal_strlit("8");
        reveal_strlit("9");
        assert(s@ =~= seq![digit_char(d as int)]);
    }
    s
}

/// Renders `n` in decimal.
pub fn format_u32(n: u32) -> (r: String)
    ensures
        r@ == dec_digits(n as int),
{
    format_u64(n as u64)
}

/// Renders `n` in decimal.
pub fn format_u64(n: u64) -> (r: String)
    ensures
        r@ == dec_digits(n as int),
    decreases n,
{
    if n < 10 {
        String::from_str(digit_str(n))
    } else {
        let mut s = format_u64(n / 10);
        s.append(digit_str(n % 10));
        proof {
            assert(s@ =~= dec_digits((n / 10) as int).push(digit_char((n % 10) as int)));
        }
        s
    }
}

/// The formatted line for one user: `User {id}: {name}`.
pub open spec fn user_line(id: u32, name: Seq<char>) -> Seq<char> {
    "User "@ + dec_digits(id as int) + ": "@ + name
}

/// Renders the line for one user.
pub fn format_user(id: u32, name: &str) -> (r: String)
    ensures
        r@ == user_line(id, name@),
{
    let mut s = String::from_str("User ");
    let digits = format_u32(id);
    s.append(digits.as_str());
    s.append(": ");
    s.append(name);
    s
}

/// Formats every user as its own string, pushing line by line.
pub fn format_user_list_naive(users: &[(u32, &str)]) -> (r: Vec<String>)
    ensures
        r@.len() == users@.len(),
        forall|i: int| 0 <= i < users@.len() ==> (#[trigger] r@[i])@ == user_line(
            users@[i].0,
            users@[i].1@,
        ),
{
    let mut formatted: Vec<String> = Vec::new();
    let mut i: usize = 0;
    while i < users.len()
        invariant
            i <= users@.len(),
            formatted@.len() == i,
            forall|j: int| 0 <= j < i ==> (#[trigger] formatted@[j])@ == user_line(
                users@[j].0,
                users@[j].1@,
            ),
        decreases users@.len() - i,
    {
        let (id, name) = users[i];
        formatted.push(format_user(id, name));
        i += 1;
    }
    formatted
}

/// The same result as [`format_user_list_naive`], phrased as a mapping
/// over the input.
pub fn format_user_list_idiomatic(users: &[(u32, &str)]) -> (r: Vec<String>)
    ensures
        r@.len() == users@.len(),
        forall|i: int| 0 <= i < users@.len() ==> (#[trigger] r@[i])@ == user_line(
            users@[i].0,
            users@[i].1@,
        ),
{
    let mut formatted: Vec<String> = Vec::new();
    let mut i: usize = 0;
    while i < users.len()
        invariant
            i <= users@.len(),
            formatted@.len() == i,
            forall|j: int| 0 <= j < i ==> (#[trigger] formatted@[j])@ == user_line(
                users@[j].0,
                users@[j].1@,
            ),
        decreases users@.len() - i,
    {
        formatted.push(format_user(users[i].0, users[i].1));
        i += 1;
    }
    formatted
}

/// All user lines joined into one text, each line newline-terminated.
pub open spec fn user_lines_flat(users: Seq<(u32, &str)>) -> Seq<char>
    decreases users.len(),
{
    if users.len() == 0 {
        Seq::empty()
    } else {
        user_lines_flat(users.drop_last()) + user_line(users.last().0, users.last().1@) + "\n"@
    }
}

/// Writes every user line into one single string, avoiding one allocation
/// per user.
pub fn format_user_list_single_string(users: &[(u32, &str)]) -> (r: String)
    ensures
        r@ == user_lines_flat(users@),
{
    let mut output = String::new();
    let mut i: usize = 0;
    proof {
        assert(users@.take(0) =~= Seq::<(u32, &str)>::empty());
    }
    while i < users.len()
        invariant
            i <= users@.len(),
            output@ == user_lines_flat(users@.take(i as int)),
        decreases users@.len() - i,
    {
        let (id, name) = users[i];
        let line = format_user(id, name);
        output.append(line.as_str());
        output.append("\n");
        proof {
            assert(users@.take(i + 1).drop_last() =~= users@.take(i as int));
            assert(users@.take(i + 1).last() == users@[i as int]);
        }
        i += 1;
    }
    proof {
        assert(users@.take(users@.len() as int) =~= users@);
    }
    output
}

/// The longer of two strings, measured in bytes; ties go to the second.
pub fn longest<'a>(x: &'a str, y: &'a str) -> (r: &'a str)
    ensures
        r@ == (if x.len() > y.len() {
            x@
        } else {
            y@
        }),
{
    if x.len() > y.len() {
        x
    } else {
        y
    }
}

} // verus!
