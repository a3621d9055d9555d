//! Numbers in decimal.

use crate::number;
use vstd::prelude::*;

verus! {

/// A text is read as a number digit by digit: each digit takes the number of the
/// text before it ten times and adds its own value, as long as the result fits. One
/// `+` may stand in front. Anything else, or nothing, is no number, and more text
/// does not make it one.
pub proof fn law_number_is_read_by_digits(t: Seq<char>, c: char)
    ensures
        number::number(Seq::empty()) is None,
        !('0' <= c <= '9') ==> number::number(t.push(c)) is None,
        '0' <= c <= '9' && (t.len() == 0 || t == seq!['+']) ==> number::number(t.push(c)) == Some(
            (c as int - '0' as int) as nat,
        ),
        '0' <= c <= '9' ==> (number::number(t) matches Some(n) ==> number::number(t.push(c)) == (
        if n * 10 + (c as int - '0' as int) <= u32::MAX {
            Some((n * 10 + (c as int - '0' as int)) as nat)
        } else {
            None
        })),
        t.len() > 0 && t != seq!['+'] && number::number(t) is None ==> number::number(
            t.push(c),
        ) is None,
{
    let u = t.push(c);
    if t.len() == 0 {
        assert(u =~= seq![c]);
        assert(u.drop_last() =~= Seq::empty());
        assert(number::digits_value(u.drop_last()) == 0);
        if c == '+' {
            assert(u.skip(1).len() == 0);
        } else {
            assert(u[0] == c);
        }
    } else {
        let plus = t[0] == '+';
        let d = if plus {
            t.skip(1)
        } else {
            t
        };
        let e = if plus {
            u.skip(1)
        } else {
            u
        };
        assert(u[0] == t[0]);
        assert(e =~= d.push(c));
        assert(e.drop_last() =~= d);
        assert(e.last() == c);
        if plus && d.len() == 0 {
            assert(t =~= seq!['+']);
            assert(number::digits_value(d) == 0);
            assert(e[0] == c);
        }
        if number::all_digits(d) && '0' <= c <= '9' {
            assert forall|i: int| 0 <= i < e.len() implies number::is_digit(#[trigger] e[i]) by {
                if i < d.len() {
                    assert(e[i] == d[i]);
                }
            }
        }
        if !('0' <= c <= '9') {
            assert(!number::is_digit(e[e.len() - 1]));
        }
        if d.len() > 0 && !number::all_digits(d) {
            let i = choose|i: int| 0 <= i < d.len() && !number::is_digit(#[trigger] d[i]);
            assert(e[i] == d[i]);
        }
    }
}

/// A number is written digit by digit, the highest first and without leading zeros.
pub proof fn law_decimal_is_written_by_digits(n: nat, d: nat)
    requires
        d < 10,
    ensures
        number::decimal(d) == seq![(48 + d) as char],
        n > 0 ==> number::decimal(n * 10 + d) == number::decimal(n).push((48 + d) as char),
{
    let m = n * 10 + d;
    assert(m / 10 == n && m % 10 == d);
}

} // verus!
