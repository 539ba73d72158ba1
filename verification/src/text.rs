//! Small text-building blocks shared by the trampoline generator: decimal
//! rendering of argument positions, the synthetic argument identifiers, and
//! comma-joined argument lists.

use vstd::prelude::*;
use vstd::string::*;

verus! {

/// The decimal digit character for a value below ten.
pub open spec fn digit_char(d: nat) -> char {
    if d == 0 {
        '0'
    } else if d == 1 {
        '1'
    } else if d == 2 {
        '2'
    } else if d == 3 {
        '3'
    } else if d == 4 {
        '4'
    } else if d == 5 {
        '5'
    } else if d == 6 {
        '6'
    } else if d == 7 {
        '7'
    } else if d == 8 {
        '8'
    } else {
        '9'
    }
}

/// The usual decimal rendering of a natural number, most significant digit
/// first, with no leading zeroes.
pub open spec fn dec_rep(n: nat) -> Seq<char>
    decreases n,
{
    if n < 10 {
        seq![digit_char(n)]
    } else {
        dec_rep(n / 10) + seq![digit_char(n % 10)]
    }
}

fn digit_string(d: usize) -> (r: String)
    requires
        d < 10,
    ensures
        r@ == seq![digit_char(d as nat)],
{
    let s: &str = if d == 0 {
        "0"
    } else if d == 1 {
        "1"
    } else if d == 2 {
        "2"
    } else if d == 3 {
        "3"
    } else if d == 4 {
        "4"
    } else if d == 5 {
        "5"
    } else if d == 6 {
        "6"
    } else if d == 7 {
        "7"
    } else if d == 8 {
        "8"
    } else {
        "9"
    };
    proof {
        reveal_strlit("0");
        reveal_strlit("1");
        reveal_strlit("2");
        reveal_strlit("3");
        reveal_strlit("4");
        reveal_strlit("5");
        reveal_strlit("6");
        reveal_strlit("7");
        reveal_strlit("8");
        reveal_strlit("9");
        assert(s@ =~= seq![digit_char(d as nat)]);
    }
    s.to_owned()
}

/// Renders a number in decimal.
pub fn dec_string(n: usize) -> (r: String)
    ensures
        r@ == dec_rep(n as nat),
    decreases n,
{
    if n < 10 {
        digit_string(n)
    } else {
        let mut s = dec_string(n / 10);
        let d = digit_string(n % 10);
        s.append(d.as_str());
        s
    }
}

/// The synthetic identifier that the trampoline binds its argument copy
/// number `i` under.
pub open spec fn input_ident(i: int) -> Seq<char> {
    "__input_"@ + dec_rep(i as nat)
}

pub fn input_ident_string(i: usize) -> (r: String)
    ensures
        r@ == input_ident(i as int),
{
    let mut s = "__input_".to_owned();
    let d = dec_string(i);
    s.append(d.as_str());
    s
}

/// Joins a list of text items with `", "` between them.
pub open spec fn comma_join(items: Seq<Seq<char>>) -> Seq<char>
    decreases items.len(),
{
    if items.len() == 0 {
        Seq::empty()
    } else if items.len() == 1 {
        items.last()
    } else {
        comma_join(items.drop_last()) + ", "@ + items.last()
    }
}

/// The argument list of a forwarded call: one entry per trampoline parameter,
/// in declaration order, each the synthetic argument identifier under the
/// given prefix (`"&mut "` for the before-hook call, empty for the forward).
pub open spec fn arg_names(n: int, prefix: Seq<char>) -> Seq<Seq<char>> {
    Seq::new(n as nat, |i: int| prefix + input_ident(i))
}

/// Renders the comma-joined argument list for `n` parameters.
pub fn joined_input_args(n: usize, prefix: &str) -> (r: String)
    ensures
        r@ == comma_join(arg_names(n as int, prefix@)),
{
    let mut out = String::new();
    let mut i: usize = 0;
    while i < n
        invariant
            i <= n,
            out@ == comma_join(arg_names(i as int, prefix@)),
        decreases n - i,
    {
        if i > 0 {
            out.append(", ");
        }
        out.append(prefix);
        let id = input_ident_string(i);
        out.append(id.as_str());
        proof {
            assert(arg_names(i + 1 as int, prefix@).drop_last() =~= arg_names(i as int, prefix@));
            assert(arg_names(i + 1 as int, prefix@).last() == prefix@ + input_ident(i as int));
            assert(out@ =~= comma_join(arg_names(i + 1 as int, prefix@)));
        }
        i += 1;
    }
    out
}

} // verus!
