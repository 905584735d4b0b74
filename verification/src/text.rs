//! Text helpers of the query writer: joined lists and decimal numbers.
use vstd::prelude::*;

verus! {

/// What each string of a list holds.
pub open spec fn texts(strings: Seq<String>) -> Seq<Seq<char>> {
    strings.map_values(|s: String| s@)
}

/// The texts one after the other, with a comma and a space between two of them.
pub open spec fn joined(items: Seq<Seq<char>>) -> Seq<char>
    decreases items.len(),
{
    if items.len() == 0 {
        seq![]
    } else if items.len() == 1 {
        items[0]
    } else {
        joined(items.drop_last()) + ", "@ + items.last()
    }
}

/// The decimal digits of a number.
pub open spec fn decimal(n: nat) -> Seq<char>
    decreases n,
{
    if n < 10 {
        seq![('0' as int + n) as char]
    } else {
        decimal(n / 10) + seq![('0' as int + n % 10) as char]
    }
}

/// Appends one item of a list that is joined by commas; `first` tells whether
/// it is the list's first.
pub(crate) fn write_item(out: &mut String, first: bool, item: &str)
    ensures
        final(out)@ == old(out)@ + (if first { seq![] } else { ", "@ }) + item@,
{
    if !first {
        out.append(", ");
    }
    out.append(item);
}

/// One more item at the end of a joined list.
pub(crate) proof fn lemma_joined_take(items: Seq<Seq<char>>, i: int)
    requires
        0 <= i < items.len(),
    ensures
        joined(items.take(i + 1)) == joined(items.take(i)) + (if i == 0 {
            seq![]
        } else {
            ", "@
        }) + items[i],
{
    let longer = items.take(i + 1);
    assert(longer.drop_last() =~= items.take(i));
    assert(longer.last() == items[i]);
    if i == 0 {
        assert(joined(items.take(0)) =~= Seq::<char>::empty());
        assert(joined(longer) =~= joined(items.take(0)) + Seq::<char>::empty() + items[0]);
    }
}

/// Appends the items, joined by commas.
pub(crate) fn write_joined(out: &mut String, items: &Vec<String>)
    ensures
        final(out)@ == old(out)@ + joined(texts(items@)),
{
    let ghost before = out@;
    let ghost all = texts(items@);
    assert(all.take(0) =~= Seq::<Seq<char>>::empty());
    assert(out@ =~= before + joined(all.take(0)));
    let mut i: usize = 0;
    while i < items.len()
        invariant
            i <= items.len(),
            all == texts(items@),
            out@ == before + joined(all.take(i as int)),
        decreases items.len() - i,
    {
        proof {
            lemma_joined_take(all, i as int);
        }
        write_item(out, i == 0, items[i].as_str());
        i += 1;
        assert(out@ =~= before + joined(all.take(i as int)));
    }
    assert(all.take(all.len() as int) =~= all);
}

/// Appends a digit below ten.
fn write_digit(out: &mut String, digit: u64)
    requires
        digit < 10,
    ensures
        final(out)@ == old(out)@.push(('0' as int + digit) as char),
{
    let text = match digit {
        0 => "0",
        1 => "1",
        2 => "2",
        3 => "3",
        4 => "4",
        5 => "5",
        6 => "6",
        7 => "7",
        8 => "8",
        _ => "9",
    };
    proof {
        reveal_strlit("0");
        reveal_strlit("1");
        reveal_strlit("2");
        reveal_strlit("3");
        reveal_strlit("4");
        reveal_strlit("5");
        reveal_strlit("6");
        reveal_strlit("7");
        reveal_strlit("8");
        reveal_strlit("9");
        assert(text@ =~= seq![('0' as int + digit) as char]);
    }
    out.append(text);
    assert(out@ =~= old(out)@.push(('0' as int + digit) as char));
}

/// Appends the decimal digits of a number.
pub(crate) fn write_decimal(out: &mut String, n: u64)
    ensures
        final(out)@ == old(out)@ + decimal(n as nat),
    decreases n,
{
    if n >= 10 {
        write_decimal(out, n / 10);
    }
    write_digit(out, n % 10);
    assert(out@ =~= old(out)@ + decimal(n as nat));
}

/// A copy of a list of strings.
pub(crate) fn copy_strings(strings: &Vec<String>) -> (copies: Vec<String>)
    ensures
        texts(copies@) == texts(strings@),
{
    let mut copies: Vec<String> = Vec::new();
    let mut i: usize = 0;
    while i < strings.len()
        invariant
            i <= strings.len(),
            copies.len() == i,
            forall|j: int| 0 <= j < i ==> copies@[j]@ == strings@[j]@,
        decreases strings.len() - i,
    {
        copies.push(strings[i].clone());
        i += 1;
    }
    assert(texts(copies@) =~= texts(strings@));
    copies
}

} // verus!
