//! That numbers are written in decimal, and the tensors of different layers have different names.

use crate::tensor_scan::layer_tensor;
use crate::text::{digits, signed};
use vstd::prelude::*;

verus! {

/// The number that a decimal digit stands for.
pub open spec fn digit_value(c: char) -> int {
    (c as u32) as int - ('0' as u32) as int
}

/// The number that a text of decimal digits stands for.
pub open spec fn value_of(text: Seq<char>) -> int
    decreases text.len(),
{
    if text.len() == 0 {
        0
    } else {
        10 * value_of(text.drop_last()) + digit_value(text.last())
    }
}

/// A number is written as the decimal digits that stand for it, without a leading zero.
pub proof fn law_numbers_are_written_in_decimal(n: nat)
    ensures
        digits(n).len() > 0,
        value_of(digits(n)) == n,
        forall|i: int| 0 <= i < digits(n).len() ==> 0 <= digit_value(#[trigger] digits(n)[i]) <= 9,
        n > 0 ==> digit_value(digits(n)[0]) > 0,
    decreases n,
{
    reveal_with_fuel(value_of, 2);
    let text = digits(n);
    if n < 10 {
        assert(text.drop_last() =~= Seq::<char>::empty());
        assert(digit_value(text[0]) == n);
    } else {
        law_numbers_are_written_in_decimal(n / 10);
        let front = digits(n / 10);
        assert(text.drop_last() =~= front);
        assert(digit_value(text.last()) == n % 10);
        assert(text[0] == front[0]);
        assert forall|i: int| 0 <= i < text.len() implies 0 <= digit_value(#[trigger] text[i]) <= 9 by {
            if i < front.len() {
                assert(text[i] == front[i]);
            }
        }
    }
}

/// A number below zero is written with a sign before its digits, and another one without.
pub proof fn law_only_a_negative_number_has_a_sign(n: int)
    ensures
        n < 0 ==> signed(n) == seq!['-'] + digits((-n) as nat),
        n >= 0 ==> signed(n) == digits(n as nat) && digit_value(signed(n)[0]) >= 0,
{
    reveal_strlit("-");
    if n < 0 {
        assert("-"@ =~= seq!['-']);
    } else {
        law_numbers_are_written_in_decimal(n as nat);
    }
}

/// A tensor of a layer is named by the layer's number and what it is; two layers never share a
/// name.
pub proof fn law_layers_have_tensors_of_their_own(a: nat, b: nat, suffix: Seq<char>)
    ensures
        layer_tensor(a, suffix) == seq!['b', 'l', 'k', '.'] + digits(a) + seq!['.'] + suffix,
        layer_tensor(a, suffix) == layer_tensor(b, suffix) ==> a == b,
{
    reveal_strlit("blk.");
    reveal_strlit(".");
    assert("blk."@ =~= seq!['b', 'l', 'k', '.']);
    assert("."@ =~= seq!['.']);
    if layer_tensor(a, suffix) == layer_tensor(b, suffix) {
        let (x, y) = (layer_tensor(a, suffix), layer_tensor(b, suffix));
        let (p, q) = (digits(a), digits(b));
        assert(x.len() == 4 + p.len() + 1 + suffix.len());
        assert(y.len() == 4 + q.len() + 1 + suffix.len());
        assert forall|i: int| 0 <= i < p.len() implies p[i] == q[i] by {
            assert(x[4 + i] == p[i]);
            assert(y[4 + i] == q[i]);
        }
        assert(p =~= q);
        law_numbers_are_written_in_decimal(a);
        law_numbers_are_written_in_decimal(b);
    }
}

} // verus!
