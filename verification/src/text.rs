//! Wire text of outbound frames.
//!
//! Clients see plain text: a join announcement is the literal string
//! `User <user_id> joined room <room_id> and is online`, and a relayed chat
//! message is the literal string `User <user_id>: <message>`. This module
//! builds those strings and proves them equal, character for character, to
//! the specification-level sequences below.

use vstd::prelude::*;
use vstd::string::StringExecFns;

verus! {

/// The decimal digit character of a value in `0 .. 10`.
pub open spec fn digit_char(d: int) -> char {
    if d == 0 {
        '0'
    } else if d == 1 {
        '1'
    } else if d == 2 {
        '2'
    } else if d == 3 {
        '3'
    } else if d == 4 {
        '4'
    } else if d == 5 {
        '5'
    } else if d == 6 {
        '6'
    } else if d == 7 {
        '7'
    } else if d == 8 {
        '8'
    } else {
        '9'
    }
}

/// The decimal digit string of a non-negative value, most significant digit
/// first, with no leading zeros (except for the value zero itself).
pub open spec fn dec_digits(n: nat) -> Seq<char>
    decreases n,
{
    if n < 10 {
        seq![digit_char(n as int)]
    } else {
        dec_digits(n / 10) + seq![digit_char((n % 10) as int)]
    }
}

/// The decimal string of an integer: a leading `-` when negative, then the
/// digits of its magnitude.
pub open spec fn dec_int(n: int) -> Seq<char> {
    if n < 0 {
        seq!['-'] + dec_digits((-n) as nat)
    } else {
        dec_digits(n as nat)
    }
}

/// The wire text announcing that a user joined a room.
pub open spec fn join_line_text(user: int, room: int) -> Seq<char> {
    "User "@ + dec_int(user) + " joined room "@ + dec_int(room) + " and is online"@
}

/// The wire text of a relayed chat message.
pub open spec fn chat_line_text(user: int, message: Seq<char>) -> Seq<char> {
    "User "@ + dec_int(user) + ": "@ + message
}

/// The one-character string of a decimal digit.
fn digit_str(d: u32) -> (r: &'static str)
    requires
        d < 10,
    ensures
        r@ == seq![digit_char(d as int)],
{
    let r: &'static str = if d == 0 {
        "0"
    } else if d == 1 {
        "1"
    } else if d == 2 {
        "2"
    } else if d == 3 {
        "3"
    } else if d == 4 {
        "4"
    } else if d == 5 {
        "5"
    } else if d == 6 {
        "6"
    } else if d == 7 {
        "7"
    } else if d == 8 {
        "8"
    } else {
        "9"
    };
    proof {
        reveal_strlit("0");
        reveal_strlit("1");
        reveal_strlit("2");
        reveal_strlit("3");
        reveal_strlit("4");
        reveal_strlit("5");
        reveal_strlit("6");
        reveal_strlit("7");
        reveal_strlit("8");
        reveal_strlit("9");
        assert(r@ =~= seq![digit_char(d as int)]);
    }
    r
}

/// The decimal digit string of `n`, most significant digit first.
pub fn decimal_u32(n: u32) -> (r: String)
    ensures
        r@ == dec_digits(n as nat),
    decreases n,
{
    if n < 10 {
        digit_str(n).to_owned()
    } else {
        proof {
            assert(n / 10 < n);
        }
        let mut r = decimal_u32(n / 10);
        r.append(digit_str(n % 10));
        r
    }
}

/// The decimal string of `n`, with a leading `-` when `n` is negative.
pub fn decimal_i32(n: i32) -> (r: String)
    ensures
        r@ == dec_int(n as int),
{
    if n >= 0 {
        decimal_u32(n as u32)
    } else {
        let magnitude: u32 = (-(n as i64)) as u32;
        proof {
            assert(magnitude as int == -(n as int));
        }
        let mut r = "-".to_owned();
        let digits = decimal_u32(magnitude);
        r.append(digits.as_str());
        proof {
            reveal_strlit("-");
            assert(r@ =~= dec_int(n as int));
        }
        r
    }
}

/// Builds the join announcement `User <user_id> joined room <room_id> and is
/// online`.
pub fn join_line(user_id: i32, room_id: i32) -> (r: String)
    ensures
        r@ == join_line_text(user_id as int, room_id as int),
{
    let mut r = "User ".to_owned();
    let user_digits = decimal_i32(user_id);
    r.append(user_digits.as_str());
    r.append(" joined room ");
    let room_digits = decimal_i32(room_id);
    r.append(room_digits.as_str());
    r.append(" and is online");
    proof {
        assert(r@ =~= join_line_text(user_id as int, room_id as int));
    }
    r
}

/// Builds the relayed chat line `User <user_id>: <message>`.
pub fn chat_line(user_id: i32, message: &str) -> (r: String)
    ensures
        r@ == chat_line_text(user_id as int, message@),
{
    let mut r = "User ".to_owned();
    let user_digits = decimal_i32(user_id);
    r.append(user_digits.as_str());
    r.append(": ");
    r.append(message);
    proof {
        assert(r@ =~= chat_line_text(user_id as int, message@));
    }
    r
}

} // verus!
