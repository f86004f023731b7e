//! Laws of the KiCad adapter on native identifiers: the `uuid` entry is
//! preferred to the `tstamp` entry, and a UUID written with decimal digits
//! only is read back in the canonical 8-4-4-4-12 shape.

use vstd::prelude::*;

use super::native::{
    child_identifier, digit_char, digits, group_entry_fits, group_fits, group_text, group_width, padded,
    pieces_upto, spec_native_id, uuid_run, zeros,
};
use super::sexpr::{spec_argument, spec_child, spec_integer, spec_text, SpecSExpr};

verus! {

/// `c` is a decimal digit.
pub open spec fn is_decimal_digit(c: char) -> bool {
    '0' <= c && c <= '9'
}

/// `t` is written as a UUID: 36 characters, hyphens at positions 8, 13, 18
/// and 23, decimal digits everywhere else.
pub open spec fn uuid_shaped(t: Seq<char>) -> bool {
    &&& t.len() == 36
    &&& forall|i: int|
        0 <= i < 36 ==> if i == 8 || i == 13 || i == 18 || i == 23 {
            #[trigger] t[i] == '-'
        } else {
            is_decimal_digit(t[i])
        }
}

/// The text of the first argument of an entry, where it is a string or a
/// symbol.
pub open spec fn first_text(node: SpecSExpr) -> Option<Seq<char>> {
    match spec_argument(node, 0) {
        Some(first) => spec_text(first),
        None => None,
    }
}

/// Ten to the power `w`.
pub open spec fn pow10(w: nat) -> nat
    decreases w,
{
    if w == 0 {
        1
    } else {
        10 * pow10((w - 1) as nat)
    }
}

proof fn lemma_digit_char(d: nat)
    ensures
        is_decimal_digit(digit_char(d)),
{
}

proof fn lemma_digits_shape(n: nat, w: nat)
    requires
        1 <= w,
        n < pow10(w),
    ensures
        1 <= digits(n).len() <= w,
        forall|i: int| 0 <= i < digits(n).len() ==> is_decimal_digit(#[trigger] digits(n)[i]),
    decreases n,
{
    if n < 10 {
        lemma_digit_char(n);
    } else {
        if w == 1 {
            assert(pow10(1) == 10 * pow10(0));
            assert(false);
        }
        let p = pow10((w - 1) as nat);
        assert(pow10(w) == 10 * p);
        assert(n / 10 < p) by (nonlinear_arith)
            requires
                n < 10 * p,
        ;
        lemma_digits_shape(n / 10, (w - 1) as nat);
        lemma_digit_char(n % 10);
        let d = digits(n);
        assert(d == digits(n / 10) + seq![digit_char(n % 10)]);
        assert forall|i: int| 0 <= i < d.len() implies is_decimal_digit(#[trigger] d[i]) by {
            if i < digits(n / 10).len() {
                assert(d[i] == digits(n / 10)[i]);
            }
        }
    }
}

proof fn lemma_padded_shape(d: Seq<char>, w: nat)
    requires
        d.len() <= w,
        forall|i: int| 0 <= i < d.len() ==> is_decimal_digit(#[trigger] d[i]),
    ensures
        padded(d, w).len() == w,
        forall|i: int| 0 <= i < w ==> is_decimal_digit(#[trigger] padded(d, w)[i]),
{
    if d.len() < w {
        let z = zeros((w - d.len()) as nat);
        assert(padded(d, w) == z + d);
        assert forall|i: int| 0 <= i < w implies is_decimal_digit(#[trigger] padded(d, w)[i]) by {
            if i < z.len() {
                assert(padded(d, w)[i] == z[i]);
            } else {
                assert(padded(d, w)[i] == d[i - z.len()]);
            }
        }
    }
}

proof fn lemma_group_shape(i: int, k: int)
    requires
        0 <= k < 5,
        group_fits(i, k),
    ensures
        k == 0 ==> group_text(i, k).len() == 8,
        k != 0 ==> group_text(i, k).len() == 1 + group_width(k),
        k != 0 ==> group_text(i, k)[0] == '-',
        forall|x: int|
            (if k == 0 { 0int } else { 1int }) <= x < group_text(i, k).len() ==> is_decimal_digit(
                #[trigger] group_text(i, k)[x],
            ),
{
    reveal_with_fuel(pow10, 13);
    if k == 0 {
        assert(pow10(8) == 100_000_000);
        lemma_digits_shape(i as nat, 8);
        lemma_padded_shape(digits(i as nat), 8);
    } else {
        let w = group_width(k);
        assert(pow10(4) == 10_000);
        assert(pow10(12) == 1_000_000_000_000);
        lemma_digits_shape((-i) as nat, w);
        lemma_padded_shape(digits((-i) as nat), w);
        let pd = padded(digits((-i) as nat), w);
        assert(group_text(i, k) == seq!['-'] + pd);
        assert forall|x: int| 1 <= x < group_text(i, k).len() implies is_decimal_digit(
            #[trigger] group_text(i, k)[x],
        ) by {
            assert(group_text(i, k)[x] == pd[x - 1]);
        }
    }
}

/// A UUID written with decimal digits only, which the reader takes as a run
/// of five integers, is read back as a text in the UUID shape.
pub proof fn lemma_uuid_run_shape(items: Seq<SpecSExpr>)
    requires
        uuid_run(items),
    ensures
        pieces_upto(items, 6) is Some,
        uuid_shaped(pieces_upto(items, 6)->0),
{
    let g = |k: int| group_text(spec_integer(items[k + 1])->0 as int, k);
    assert(group_entry_fits(items[0int + 1], 0));
    assert(group_entry_fits(items[1int + 1], 1));
    assert(group_entry_fits(items[2int + 1], 2));
    assert(group_entry_fits(items[3int + 1], 3));
    assert(group_entry_fits(items[4int + 1], 4));
    lemma_group_shape(spec_integer(items[1])->0 as int, 0);
    lemma_group_shape(spec_integer(items[2])->0 as int, 1);
    lemma_group_shape(spec_integer(items[3])->0 as int, 2);
    lemma_group_shape(spec_integer(items[4])->0 as int, 3);
    lemma_group_shape(spec_integer(items[5])->0 as int, 4);
    assert(pieces_upto(items, 1) == Some(Seq::<char>::empty()));
    assert(pieces_upto(items, 2) == Some(Seq::<char>::empty() + g(0)));
    assert(pieces_upto(items, 3) == Some(Seq::<char>::empty() + g(0) + g(1)));
    assert(pieces_upto(items, 4) == Some(Seq::<char>::empty() + g(0) + g(1) + g(2)));
    assert(pieces_upto(items, 5) == Some(Seq::<char>::empty() + g(0) + g(1) + g(2) + g(3)));
    let t = Seq::<char>::empty() + g(0) + g(1) + g(2) + g(3) + g(4);
    assert(pieces_upto(items, 6) == Some(t));
    assert(t.len() == 36);
    assert forall|i: int|
        0 <= i < 36 implies if i == 8 || i == 13 || i == 18 || i == 23 {
        #[trigger] t[i] == '-'
    } else {
        is_decimal_digit(t[i])
    } by {
        if i < 8 {
            assert(t[i] == g(0)[i]);
        } else if i < 13 {
            assert(t[i] == g(1)[i - 8]);
        } else if i < 18 {
            assert(t[i] == g(2)[i - 13]);
        } else if i < 23 {
            assert(t[i] == g(3)[i - 18]);
        } else {
            assert(t[i] == g(4)[i - 23]);
        }
    }
}

/// The native identifier of an object is the identifier of its `uuid` entry,
/// and only where that gives none the one of its `tstamp` entry. An entry
/// whose first argument is a string or symbol gives that text; one holding
/// a UUID written with decimal digits only gives a text in the UUID shape.
pub proof fn lemma_native_id_read(v: SpecSExpr)
    ensures
        child_identifier(v, "uuid"@) is Some ==> spec_native_id(v) == child_identifier(v, "uuid"@),
        child_identifier(v, "uuid"@) is None ==> spec_native_id(v) == child_identifier(
            v,
            "tstamp"@,
        ),
        forall|name: Seq<char>|
            (#[trigger] spec_child(v, name)) is Some && first_text(spec_child(v, name)->0) is Some
                ==> child_identifier(v, name) == first_text(spec_child(v, name)->0),
        forall|name: Seq<char>|
            (#[trigger] spec_child(v, name)) is Some && spec_child(v, name)->0 is List && uuid_run(
                spec_child(v, name)->0->List_0,
            ) ==> child_identifier(v, name) is Some && uuid_shaped(child_identifier(v, name)->0),
{
    assert forall|name: Seq<char>|
        (#[trigger] spec_child(v, name)) is Some && spec_child(v, name)->0 is List && uuid_run(
            spec_child(v, name)->0->List_0,
        ) implies child_identifier(v, name) is Some && uuid_shaped(child_identifier(v, name)->0) by {
        let items = spec_child(v, name)->0->List_0;
        lemma_uuid_run_shape(items);
        assert(spec_integer(items[1]) is Some) by {
            assert(group_entry_fits(items[0int + 1], 0));
        }
        assert(spec_text(items[1]) is None);
    }
}

} // verus!
