//! The names under which tasks are spawned.

use vstd::prelude::*;
use vstd::string::StringExecFns;

verus! {

/// The decimal digit `d`.
pub open spec fn digit(d: nat) -> char {
    (48 + d) as char
}

/// The decimal digits of `n`, without leading zeros.
pub open spec fn decimal(n: nat) -> Seq<char>
    decreases n,
{
    if n < 10 {
        seq![digit(n)]
    } else {
        decimal(n / 10).push(digit(n % 10))
    }
}

/// The label of task number `t` of a builder.
pub open spec fn label_of(t: nat) -> Seq<char> {
    "VecBuilder task "@ + decimal(t)
}

/// The digit `d` as a string.
fn digit_str(d: usize) -> (s: &'static str)
    requires
        d < 10,
    ensures
        s@ == seq![digit(d as nat)],
{
    proof {
        reveal_strlit("0");
        reveal_strlit("1");
        reveal_strlit("2");
        reveal_strlit("3");
        reveal_strlit("4");
        reveal_strlit("5");
        reveal_strlit("6");
        reveal_strlit("7");
        reveal_strlit("8");
        reveal_strlit("9");
    }
    match d {
        0 => "0",
        1 => "1",
        2 => "2",
        3 => "3",
        4 => "4",
        5 => "5",
        6 => "6",
        7 => "7",
        8 => "8",
        _ => "9",
    }
}

/// Appends the decimal digits of `n`.
fn append_decimal(text: &mut String, n: usize)
    ensures
        final(text)@ == old(text)@ + decimal(n as nat),
    decreases n,
{
    if n < 10 {
        text.append(digit_str(n));
    } else {
        append_decimal(text, n / 10);
        text.append(digit_str(n % 10));
    }
}

/// The label of task number `t` of a builder.
pub fn task_label(t: usize) -> (label: String)
    ensures
        label@ == label_of(t as nat),
{
    let mut label: String = String::new();
    label.append("VecBuilder task ");
    append_decimal(&mut label, t);
    label
}

/// Different numbers have different digits.
proof fn lemma_decimal_injective(m: nat, n: nat)
    requires
        decimal(m) == decimal(n),
    ensures
        m == n,
    decreases m,
{
    if m >= 10 && n >= 10 {
        assert(decimal(m).drop_last() =~= decimal(m / 10));
        assert(decimal(n).drop_last() =~= decimal(n / 10));
        assert(decimal(m).last() == digit(m % 10) && decimal(n).last() == digit(n % 10));
        lemma_decimal_injective(m / 10, n / 10);
    } else if m >= 10 {
        assert(decimal(m / 10).len() > 0);
        assert(decimal(m).len() > 1);
    } else if n >= 10 {
        assert(decimal(n / 10).len() > 0);
        assert(decimal(n).len() > 1);
    } else {
        assert(decimal(m)[0] == digit(m) && decimal(n)[0] == digit(n));
    }
}

/// Law: the tasks of a builder have different labels.
pub proof fn law_labels_differ(m: nat, n: nat)
    requires
        label_of(m) == label_of(n),
    ensures
        m == n,
{
    let prefix = "VecBuilder task "@;
    let at = prefix.len() as int;
    assert(label_of(m).skip(at) =~= decimal(m));
    assert(label_of(n).skip(at) =~= decimal(n));
    lemma_decimal_injective(m, n);
}

/// The number that decimal digits stand for.
pub open spec fn number(digits: Seq<char>) -> nat
    decreases digits.len(),
{
    if digits.len() == 0 {
        0
    } else {
        (number(digits.drop_last()) * 10 + (digits.last() as int - 48)) as nat
    }
}

/// The decimal digits of a number stand for it, and do not start with a zero but for zero itself.
proof fn lemma_decimal_is_read_back(n: nat)
    ensures
        number(decimal(n)) == n,
        decimal(n).len() > 0,
        decimal(n)[0] == '0' <==> n == 0,
    decreases n,
{
    if n < 10 {
        assert(decimal(n).drop_last() =~= Seq::<char>::empty());
        assert(number(Seq::<char>::empty()) == 0);
        assert(decimal(n).last() as int == 48 + n);
    } else {
        lemma_decimal_is_read_back(n / 10);
        assert(decimal(n).drop_last() =~= decimal(n / 10));
        assert(decimal(n).last() as int == 48 + n % 10);
        assert(decimal(n)[0] == decimal(n / 10)[0]);
    }
}

/// Law: a label tells the number of its task. After the name it has the digits of the number, and
/// no zero in front of others.
pub proof fn law_label_is_read_back(t: usize, label: String)
    requires
        call_ensures(task_label, (t,), label),
    ensures
        label@.take("VecBuilder task "@.len() as int) == "VecBuilder task "@,
        number(label@.skip("VecBuilder task "@.len() as int)) == t,
        label@.len() > "VecBuilder task "@.len(),
        label@["VecBuilder task "@.len() as int] == '0' <==> t == 0,
{
    let prefix = "VecBuilder task "@;
    let at = prefix.len() as int;
    lemma_decimal_is_read_back(t as nat);
    assert(label@.take(at) =~= prefix);
    assert(label@.skip(at) =~= decimal(t as nat));
    assert(label@[at] == decimal(t as nat)[0]);
}

} // verus!
