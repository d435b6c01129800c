//! Numbers and bytes as text.

use crate::payload::topic_views;
use vstd::prelude::*;
use vstd::string::StringExecFns;

verus! {

/// The character for one hexadecimal digit, in lower case.
pub open spec fn digit_char(digit: nat) -> char {
    if digit < 10 {
        ((48 + digit) as u8) as char
    } else {
        ((87 + digit) as u8) as char
    }
}

/// A number in decimal, without sign or leading zero.
pub open spec fn decimal_text(number: nat) -> Seq<char>
    decreases number,
{
    if number < 10 {
        seq![digit_char(number)]
    } else {
        decimal_text(number / 10).push(digit_char(number % 10))
    }
}

/// Bytes in hexadecimal, two lower-case digits for each, in order.
pub open spec fn hex_text(bytes: Seq<u8>) -> Seq<char>
    decreases bytes.len(),
{
    if bytes.len() == 0 {
        Seq::empty()
    } else {
        hex_text(bytes.drop_last()).push(digit_char(bytes.last() as nat / 16)).push(
            digit_char(bytes.last() as nat % 16),
        )
    }
}

/// The text of one digit.
pub fn digit_text(digit: u8) -> (text: &'static str)
    requires
        digit < 16,
    ensures
        text@ == seq![digit_char(digit as nat)],
{
    proof {
        reveal_strlit("0");
        reveal_strlit("1");
        reveal_strlit("2");
        reveal_strlit("3");
        reveal_strlit("4");
        reveal_strlit("5");
        reveal_strlit("6");
        reveal_strlit("7");
        reveal_strlit("8");
        reveal_strlit("9");
        reveal_strlit("a");
        reveal_strlit("b");
        reveal_strlit("c");
        reveal_strlit("d");
        reveal_strlit("e");
        reveal_strlit("f");
    }
    let text = match digit {
        0 => "0",
        1 => "1",
        2 => "2",
        3 => "3",
        4 => "4",
        5 => "5",
        6 => "6",
        7 => "7",
        8 => "8",
        9 => "9",
        10 => "a",
        11 => "b",
        12 => "c",
        13 => "d",
        14 => "e",
        _ => "f",
    };
    assert(text@ =~= seq![digit_char(digit as nat)]);
    text
}

/// Renders a number in decimal.
pub fn decimal(number: u64) -> (text: String)
    ensures
        text@ == decimal_text(number as nat),
    decreases number,
{
    if number < 10 {
        String::from_str(digit_text(number as u8))
    } else {
        let mut text = decimal(number / 10);
        text.append(digit_text((number % 10) as u8));
        assert(text@ =~= decimal_text(number as nat));
        text
    }
}

/// Renders bytes in hexadecimal.
pub fn hex(bytes: &[u8]) -> (text: String)
    ensures
        text@ == hex_text(bytes@),
{
    let mut text = String::new();
    let mut done: usize = 0;
    assert(bytes@.subrange(0, 0) =~= Seq::empty());
    while done < bytes.len()
        invariant
            done <= bytes@.len(),
            text@ == hex_text(bytes@.subrange(0, done as int)),
        decreases bytes@.len() - done,
    {
        let byte = bytes[done];
        let ghost before = bytes@.subrange(0, done as int);
        let ghost after = bytes@.subrange(0, done + 1);
        text.append(digit_text(byte / 16));
        text.append(digit_text(byte % 16));
        assert(after.drop_last() =~= before);
        assert(after.last() == byte);
        assert(text@ =~= hex_text(after));
        done += 1;
    }
    assert(bytes@.subrange(0, done as int) =~= bytes@);
    text
}

/// Numbers in decimal, in order, with a comma and a space between neighbours.
pub open spec fn joined_text(bytes: Seq<u8>) -> Seq<char>
    decreases bytes.len(),
{
    if bytes.len() == 0 {
        Seq::empty()
    } else if bytes.len() == 1 {
        decimal_text(bytes[0] as nat)
    } else {
        joined_text(bytes.drop_last()) + ", "@ + decimal_text(bytes.last() as nat)
    }
}

/// A byte string as a list of decimal numbers in square brackets.
pub open spec fn list_text(bytes: Seq<u8>) -> Seq<char> {
    "["@ + joined_text(bytes) + "]"@
}

/// Lists in order, with a comma and a space between neighbours.
pub open spec fn joined_lists_text(lists: Seq<Seq<u8>>) -> Seq<char>
    decreases lists.len(),
{
    if lists.len() == 0 {
        Seq::empty()
    } else if lists.len() == 1 {
        list_text(lists[0])
    } else {
        joined_lists_text(lists.drop_last()) + ", "@ + list_text(lists.last())
    }
}

/// A sequence of byte strings as a list of lists.
pub open spec fn nested_list_text(lists: Seq<Seq<u8>>) -> Seq<char> {
    "["@ + joined_lists_text(lists) + "]"@
}

/// Renders a byte string as a list of decimal numbers.
pub fn list(bytes: &[u8]) -> (text: String)
    ensures
        text@ == list_text(bytes@),
{
    let mut text = String::from_str("[");
    let mut done: usize = 0;
    assert(bytes@.subrange(0, 0) =~= Seq::empty());
    assert(text@ =~= "["@ + joined_text(bytes@.subrange(0, 0)));
    while done < bytes.len()
        invariant
            done <= bytes@.len(),
            text@ == "["@ + joined_text(bytes@.subrange(0, done as int)),
        decreases bytes@.len() - done,
    {
        let ghost before = bytes@.subrange(0, done as int);
        let ghost after = bytes@.subrange(0, done + 1);
        if done > 0 {
            text.append(", ");
        }
        let number = decimal(bytes[done] as u64);
        text.append(number.as_str());
        assert(after.drop_last() =~= before);
        assert(after.last() == bytes@[done as int]);
        assert(text@ =~= "["@ + joined_text(after));
        done += 1;
    }
    assert(bytes@.subrange(0, done as int) =~= bytes@);
    text.append("]");
    text
}

/// Renders a sequence of byte strings as a list of lists.
pub fn nested_list(lists: &Vec<Vec<u8>>) -> (text: String)
    ensures
        text@ == nested_list_text(topic_views(lists@)),
{
    let mut text = String::from_str("[");
    let mut done: usize = 0;
    let ghost all = topic_views(lists@);
    assert(all.subrange(0, 0) =~= Seq::empty());
    assert(text@ =~= "["@ + joined_lists_text(all.subrange(0, 0)));
    while done < lists.len()
        invariant
            done <= lists@.len(),
            all == topic_views(lists@),
            text@ == "["@ + joined_lists_text(all.subrange(0, done as int)),
        decreases lists@.len() - done,
    {
        let ghost before = all.subrange(0, done as int);
        let ghost after = all.subrange(0, done + 1);
        if done > 0 {
            text.append(", ");
        }
        let item = list(lists[done].as_slice());
        text.append(item.as_str());
        assert(after.drop_last() =~= before);
        assert(after.last() == lists@[done as int]@);
        assert(text@ =~= "["@ + joined_lists_text(after));
        done += 1;
    }
    assert(all.subrange(0, done as int) =~= all);
    text.append("]");
    text
}

} // verus!
