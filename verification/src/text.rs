//! Numbers and lists in messages.

use vstd::prelude::*;
use vstd::string::StringExecFns;

verus! {

/// The character of a decimal digit.
pub open spec fn digit(n: nat) -> char {
    ('0' as nat + n) as char
}

/// A number in decimal.
pub open spec fn decimal(n: nat) -> Seq<char>
    decreases n,
{
    if n < 10 {
        seq![digit(n)]
    } else {
        decimal(n / 10).push(digit(n % 10))
    }
}

/// Numbers in decimal, set off by commas.
pub open spec fn comma_separated(items: Seq<usize>) -> Seq<char>
    decreases items.len(),
{
    if items.len() == 0 {
        Seq::empty()
    } else if items.len() == 1 {
        decimal(items[0] as nat)
    } else {
        comma_separated(items.drop_last()) + ", "@ + decimal(items.last() as nat)
    }
}

/// A list of numbers in square brackets.
pub open spec fn bracketed(items: Seq<usize>) -> Seq<char> {
    "["@ + comma_separated(items) + "]"@
}

fn digit_text(n: usize) -> (r: &'static str)
    requires
        n < 10,
    ensures
        r@ == seq![digit(n as nat)],
{
    proof {
        reveal_strlit("0");
        reveal_strlit("1");
        reveal_strlit("2");
        reveal_strlit("3");
        reveal_strlit("4");
        reveal_strlit("5");
        reveal_strlit("6");
        reveal_strlit("7");
        reveal_strlit("8");
        reveal_strlit("9");
    }
    match n {
        0 => "0",
        1 => "1",
        2 => "2",
        3 => "3",
        4 => "4",
        5 => "5",
        6 => "6",
        7 => "7",
        8 => "8",
        _ => "9",
    }
}

/// Appends a number in decimal.
pub fn push_decimal(text: &mut String, n: usize)
    ensures
        final(text)@ == old(text)@ + decimal(n as nat),
    decreases n,
{
    if n < 10 {
        text.append(digit_text(n));
    } else {
        push_decimal(text, n / 10);
        text.append(digit_text(n % 10));
        assert(text@ =~= old(text)@ + decimal(n as nat));
    }
}

/// Appends a list of numbers in square brackets.
pub fn push_bracketed(text: &mut String, items: &Vec<usize>)
    ensures
        final(text)@ == old(text)@ + bracketed(items@),
{
    text.append("[");
    let mut i: usize = 0;
    while i < items.len()
        invariant
            0 <= i <= items@.len(),
            text@ == old(text)@ + "["@ + comma_separated(items@.take(i as int)),
        decreases items@.len() - i,
    {
        assert(items@.take(i + 1).drop_last() =~= items@.take(i as int));
        if i > 0 {
            text.append(", ");
        }
        push_decimal(text, items[i]);
        i = i + 1;
        assert(text@ =~= old(text)@ + "["@ + comma_separated(items@.take(i as int)));
    }
    assert(items@.take(i as int) =~= items@);
    text.append("]");
    assert(text@ =~= old(text)@ + bracketed(items@));
}

/// The number that a text of decimal digits stands for.
pub open spec fn read(digits: Seq<char>) -> int
    decreases digits.len(),
{
    if digits.len() == 0 {
        0
    } else {
        read(digits.drop_last()) * 10 + (digits.last() as int - '0' as int)
    }
}

proof fn lemma_decimal_reads_back(n: nat)
    ensures
        read(decimal(n)) == n,
        decimal(n).len() > 0,
        forall|i: int| 0 <= i < decimal(n).len() ==> '0' <= #[trigger] decimal(n)[i] <= '9',
        n > 0 ==> decimal(n)[0] != '0',
        n == 0 ==> decimal(n).len() == 1,
    decreases n,
{
    if n < 10 {
        assert(decimal(n).drop_last() =~= Seq::<char>::empty());
        reveal_with_fuel(read, 2);
    } else {
        lemma_decimal_reads_back(n / 10);
        let before = decimal(n / 10);
        assert(decimal(n).drop_last() =~= before);
        assert forall|i: int| 0 <= i < decimal(n).len() implies '0' <= #[trigger] decimal(n)[i]
            <= '9' by {
            if i < before.len() {
                assert(decimal(n)[i] == before[i]);
            }
        }
        assert(decimal(n)[0] == before[0]);
    }
}

/// [`push_decimal`] appends digits that read as the number, without a leading zero.
pub proof fn law_appended_number_reads_back(text: &mut String, n: usize)
    requires
        call_ensures(push_decimal, (text, n), ()),
    ensures
        final(text)@.len() > old(text)@.len(),
        final(text)@.take(old(text)@.len() as int) == old(text)@,
        read(final(text)@.skip(old(text)@.len() as int)) == n,
        forall|i: int|
            old(text)@.len() <= i < final(text)@.len() ==> '0' <= #[trigger] final(text)@[i] <= '9',
        n > 0 ==> final(text)@[old(text)@.len() as int] != '0',
        n == 0 ==> final(text)@.len() == old(text)@.len() + 1,
{
    lemma_decimal_reads_back(n as nat);
    let digits = decimal(n as nat);
    assert(final(text)@.take(old(text)@.len() as int) =~= old(text)@);
    assert(final(text)@.skip(old(text)@.len() as int) =~= digits);
    assert forall|i: int| old(text)@.len() <= i < final(text)@.len() implies '0'
        <= #[trigger] final(text)@[i] <= '9' by {
        assert(final(text)@[i] == digits[i - old(text)@.len()]);
    }
    assert(final(text)@[old(text)@.len() as int] == digits[0]);
}

/// A list stands in square brackets, its numbers in order, a comma and a blank between
/// each two.
pub proof fn law_lists_are_bracketed(items: Seq<usize>, x: usize)
    ensures
        bracketed(Seq::<usize>::empty()) == "["@ + "]"@,
        bracketed(seq![x]) == "["@ + decimal(x as nat) + "]"@,
        items.len() > 0 ==> bracketed(items.push(x)) == bracketed(items).drop_last() + ", "@
            + decimal(x as nat) + "]"@,
{
    reveal_strlit("]");
    reveal_strlit("[");
    assert(bracketed(Seq::<usize>::empty()) =~= "["@ + "]"@);
    assert(bracketed(seq![x]) =~= "["@ + decimal(x as nat) + "]"@);
    if items.len() > 0 {
        assert(items.push(x).drop_last() =~= items);
        assert(bracketed(items).drop_last() =~= "["@ + comma_separated(items));
        assert(bracketed(items.push(x)) =~= bracketed(items).drop_last() + ", "@ + decimal(
            x as nat,
        ) + "]"@);
    }
}

/// [`push_bracketed`] appends the bracketed list.
pub proof fn law_appended_list(text: &mut String, items: Vec<usize>)
    requires
        call_ensures(push_bracketed, (text, &items), ()),
    ensures
        final(text)@ == old(text)@ + bracketed(items@),
{
}

} // verus!
