//! The name of the output file, made from the parameters of the animation
//! so that runs with different parameters write different files.

use vstd::prelude::*;
use vstd::string::*;

verus! {

/// The character that writes the decimal digit `d`.
pub open spec fn digit_char(d: int) -> char {
    if d == 0 {
        '0'
    } else if d == 1 {
        '1'
    } else if d == 2 {
        '2'
    } else if d == 3 {
        '3'
    } else if d == 4 {
        '4'
    } else if d == 5 {
        '5'
    } else if d == 6 {
        '6'
    } else if d == 7 {
        '7'
    } else if d == 8 {
        '8'
    } else {
        '9'
    }
}

/// `n` in decimal, without leading zeros.
pub open spec fn decimal_text(n: nat) -> Seq<char>
    decreases n,
{
    if n < 10 {
        seq![digit_char(n as int)]
    } else {
        decimal_text(n / 10).push(digit_char((n % 10) as int))
    }
}

/// The name of the file for an animation of the given width, height and
/// duration: `gradient_`, width, `x`, height, `_`, duration, `s.gif`.
pub open spec fn output_name_spec(width: nat, height: nat, duration: nat) -> Seq<char> {
    "gradient_"@ + decimal_text(width) + "x"@ + decimal_text(height) + "_"@ + decimal_text(duration)
        + "s.gif"@
}

fn digit_str(d: u32) -> (s: &'static str)
    requires
        d < 10,
    ensures
        s@ == seq![digit_char(d as int)],
{
    proof {
        reveal_strlit("0");
        reveal_strlit("1");
        reveal_strlit("2");
        reveal_strlit("3");
        reveal_strlit("4");
        reveal_strlit("5");
        reveal_strlit("6");
        reveal_strlit("7");
        reveal_strlit("8");
        reveal_strlit("9");
    }
    let s: &'static str = match d {
        0 => "0",
        1 => "1",
        2 => "2",
        3 => "3",
        4 => "4",
        5 => "5",
        6 => "6",
        7 => "7",
        8 => "8",
        _ => "9",
    };
    assert(s@ =~= seq![digit_char(d as int)]);
    s
}

/// `n` written in decimal.
pub fn decimal_string(n: u32) -> (text: String)
    ensures
        text@ == decimal_text(n as nat),
    decreases n,
{
    if n < 10 {
        String::from_str(digit_str(n))
    } else {
        let head: String = decimal_string(n / 10);
        let text: String = head.concat(digit_str(n % 10));
        assert(text@ =~= decimal_text(n as nat));
        text
    }
}

/// The name of the output file for the given parameters.
pub fn output_name(width: u32, height: u32, duration: u32) -> (name: String)
    ensures
        name@ == output_name_spec(width as nat, height as nat, duration as nat),
{
    let mut name: String = String::from_str("gradient_");
    name.append(decimal_string(width).as_str());
    name.append("x");
    name.append(decimal_string(height).as_str());
    name.append("_");
    name.append(decimal_string(duration).as_str());
    name.append("s.gif");
    name
}

} // verus!
