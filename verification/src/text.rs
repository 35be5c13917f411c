//! Characters and names.
use vstd::prelude::*;

verus! {

/// Two dots in a row somewhere in `s`.
pub open spec fn has_double_dot(s: Seq<char>) -> bool {
    exists|i: int| 0 <= i < s.len() - 1 && #[trigger] s[i] == '.' && s[i + 1] == '.'
}

/// A plain name: no two dots in a row, and neither kind of path separator.
pub open spec fn is_plain_name_spec(s: Seq<char>) -> bool {
    &&& !has_double_dot(s)
    &&& !s.contains('/')
    &&& !s.contains('\\')
}

/// Tells whether `name` is plain: it has no two dots in a row and no path
/// separator.
pub fn is_plain_name(name: &str) -> (plain: bool)
    ensures
        plain == is_plain_name_spec(name@),
{
    let mut after_dot = false;
    for c in it: name.chars()
        invariant
            it.seq() == name@,
            after_dot == (it.index() > 0 && name@[it.index() - 1] == '.'),
            forall|i: int| 0 <= i < it.index() ==> name@[i] != '/' && name@[i] != '\\',
            forall|i: int| 0 <= i < it.index() - 1 ==> !(#[trigger] name@[i] == '.' && name@[i + 1] == '.'),
    {
        let dot = c == '.';
        if c == '/' || c == '\\' || (after_dot && dot) {
            proof {
                let k = it.index();
                assert(name@[k] == c);
                if after_dot && dot {
                    assert(name@[k - 1] == '.' && name@[k - 1 + 1] == '.');
                }
            }
            return false;
        }
        after_dot = dot;
    }
    true
}

/// The character of a decimal digit.
pub open spec fn digit(d: nat) -> char {
    (48 + d) as char
}

/// A number in decimal, without leading zeros.
pub open spec fn decimal_spec(n: nat) -> Seq<char>
    decreases n,
{
    if n < 10 {
        seq![digit(n)]
    } else {
        decimal_spec(n / 10).push(digit(n % 10))
    }
}

fn digit_text(d: u8) -> (text: &'static str)
    requires
        d < 10,
    ensures
        text@ == seq![digit(d as nat)],
{
    proof {
        reveal_strlit("0");
        reveal_strlit("1");
        reveal_strlit("2");
        reveal_strlit("3");
        reveal_strlit("4");
        reveal_strlit("5");
        reveal_strlit("6");
        reveal_strlit("7");
        reveal_strlit("8");
        reveal_strlit("9");
    }
    match d {
        0 => "0",
        1 => "1",
        2 => "2",
        3 => "3",
        4 => "4",
        5 => "5",
        6 => "6",
        7 => "7",
        8 => "8",
        _ => "9",
    }
}

/// Writes a number in decimal.
pub fn decimal(n: u128) -> (text: String)
    ensures
        text@ == decimal_spec(n as nat),
    decreases n,
{
    let mut text = if n < 10 {
        String::new()
    } else {
        decimal(n / 10)
    };
    text.append(digit_text((n % 10) as u8));
    proof {
        if n < 10 {
            assert(text@ =~= seq![digit(n as nat)]);
        } else {
            assert(text@ =~= decimal_spec((n / 10) as nat).push(digit((n % 10) as nat)));
        }
    }
    text
}

} // verus!
