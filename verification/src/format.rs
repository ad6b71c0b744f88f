//! Shard words written out for people: lowercase hexadecimal without leading
//! zeros, and lists of them.

use vstd::prelude::*;
use vstd::string::StringExecFns;

verus! {

/// The sixteen lowercase hexadecimal digits, in their order.
pub open spec fn hex_digits() -> Seq<char> {
    seq!['0', '1', '2', '3', '4', '5', '6', '7', '8', '9', 'a', 'b', 'c', 'd', 'e', 'f']
}

/// The lowercase hexadecimal digit for `value`, which is below 16.
pub open spec fn hex_char(value: nat) -> char
    recommends
        value < 16,
{
    hex_digits()[value as int]
}

/// `value` in lowercase hexadecimal: no leading zeros, and `0` for zero.
pub open spec fn lower_hex(value: nat) -> Seq<char>
    decreases value,
{
    if value < 16 {
        seq![hex_char(value)]
    } else {
        lower_hex(value / 16).push(hex_char(value % 16))
    }
}

/// The shards of `shards` in lowercase hexadecimal, in their order, with a
/// comma and a space between neighbours.
pub open spec fn hex_list(shards: Seq<u64>) -> Seq<char>
    decreases shards.len(),
{
    if shards.len() == 0 {
        Seq::empty()
    } else if shards.len() == 1 {
        lower_hex(shards[0] as nat)
    } else {
        hex_list(shards.drop_last()) + seq![',', ' '] + lower_hex(shards.last() as nat)
    }
}

/// The one-digit text for `value`.
fn digit_text(value: u64) -> (r: &'static str)
    requires
        value < 16,
    ensures
        r@ == seq![hex_char(value as nat)],
{
    proof {
        reveal_strlit("0");
        reveal_strlit("1");
        reveal_strlit("2");
        reveal_strlit("3");
        reveal_strlit("4");
        reveal_strlit("5");
        reveal_strlit("6");
        reveal_strlit("7");
        reveal_strlit("8");
        reveal_strlit("9");
        reveal_strlit("a");
        reveal_strlit("b");
        reveal_strlit("c");
        reveal_strlit("d");
        reveal_strlit("e");
        reveal_strlit("f");
    }
    let r = match value {
        0 => "0",
        1 => "1",
        2 => "2",
        3 => "3",
        4 => "4",
        5 => "5",
        6 => "6",
        7 => "7",
        8 => "8",
        9 => "9",
        10 => "a",
        11 => "b",
        12 => "c",
        13 => "d",
        14 => "e",
        _ => "f",
    };
    assert(r@ =~= seq![hex_char(value as nat)]);
    r
}

/// Appends `value` in lowercase hexadecimal to `out`.
fn push_hex(out: &mut String, value: u64)
    ensures
        final(out)@ == old(out)@ + lower_hex(value as nat),
    decreases value,
{
    if value >= 16 {
        push_hex(out, value / 16);
    }
    out.append(digit_text(value % 16));
}

/// `value` in lowercase hexadecimal, as a shard is shown to the operator.
pub fn to_hex(value: u64) -> (r: String)
    ensures
        r@ == lower_hex(value as nat),
{
    let mut out = String::new();
    push_hex(&mut out, value);
    out
}

/// Appends the hexadecimal list of `shards` to `out`.
pub(crate) fn push_hex_list(out: &mut String, shards: &Vec<u64>)
    ensures
        final(out)@ == old(out)@ + hex_list(shards@),
{
    let mut i: usize = 0;
    assert(shards@.take(0) =~= Seq::<u64>::empty());
    while i < shards.len()
        invariant
            i <= shards.len(),
            out@ == old(out)@ + hex_list(shards@.take(i as int)),
        decreases shards.len() - i,
    {
        if i > 0 {
            out.append(", ");
        }
        push_hex(out, shards[i]);
        proof {
            let next = shards@.take(i + 1);
            assert(next.drop_last() =~= shards@.take(i as int));
            assert(next.last() == shards@[i as int]);
            reveal_strlit(", ");
            assert(", "@ =~= seq![',', ' ']);
        }
        i += 1;
    }
    assert(shards@.take(shards.len() as int) =~= shards@);
}

} // verus!
