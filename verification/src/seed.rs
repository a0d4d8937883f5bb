//! Values derived from a call's random seed: fresh record ids and the random
//! share of a red packet.
use vstd::prelude::*;

verus! {

/// The lowercase hexadecimal digit for `d`, which is below 16.
pub open spec fn hex_digit(d: u8) -> char
    recommends
        d < 16,
{
    if d < 10 {
        (d + 48) as char
    } else {
        (d + 87) as char
    }
}

/// A byte in lowercase hexadecimal, without leading zeros and without a
/// prefix: one digit below 16, two digits otherwise.
pub open spec fn byte_hex(b: u8) -> Seq<char> {
    if b < 16 {
        seq![hex_digit(b)]
    } else {
        seq![hex_digit(b / 16), hex_digit(b % 16)]
    }
}

/// The id made from a seed: the hexadecimal forms of its bytes, one after
/// the other.
pub open spec fn id_from_seed(seed: Seq<u8>) -> Seq<char>
    decreases seed.len(),
{
    if seed.len() == 0 {
        Seq::empty()
    } else {
        id_from_seed(seed.drop_last()) + byte_hex(seed.last())
    }
}

/// The sum of the bytes, as a mathematical integer.
pub open spec fn byte_total(seed: Seq<u8>) -> int
    decreases seed.len(),
{
    if seed.len() == 0 {
        0
    } else {
        byte_total(seed.drop_last()) + seed.last()
    }
}

/// The sum of the seed's bytes modulo 256, as a byte adds them with wrap-around.
pub open spec fn seed_sum_spec(seed: Seq<u8>) -> u8 {
    (byte_total(seed) % 256) as u8
}

/// The multiplier of a random share: the seed sum, moved into 1..=254
/// (0 becomes 1; 254 and 255 go down by one).
pub open spec fn share_factor(sum: u8) -> u64 {
    if sum < 1 {
        1
    } else if sum > 253 {
        (sum - 1) as u64
    } else {
        sum as u64
    }
}

/// The random share of a red packet of `total`: the total in 255 blocks,
/// times the factor the seed gives.
pub open spec fn random_amount_spec(total: u64, seed: Seq<u8>) -> u64 {
    ((total / 255) * share_factor(seed_sum_spec(seed))) as u64
}

pub(crate) fn hex_digit_str(d: u8) -> (s: &'static str)
    requires
        d < 16,
    ensures
        s@ == seq![hex_digit(d)],
{
    if d == 0 {
        proof { reveal_strlit("0"); }
        "0"
    } else if d == 1 {
        proof { reveal_strlit("1"); }
        "1"
    } else if d == 2 {
        proof { reveal_strlit("2"); }
        "2"
    } else if d == 3 {
        proof { reveal_strlit("3"); }
        "3"
    } else if d == 4 {
        proof { reveal_strlit("4"); }
        "4"
    } else if d == 5 {
        proof { reveal_strlit("5"); }
        "5"
    } else if d == 6 {
        proof { reveal_strlit("6"); }
        "6"
    } else if d == 7 {
        proof { reveal_strlit("7"); }
        "7"
    } else if d == 8 {
        proof { reveal_strlit("8"); }
        "8"
    } else if d == 9 {
        proof { reveal_strlit("9"); }
        "9"
    } else if d == 10 {
        proof { reveal_strlit("a"); }
        "a"
    } else if d == 11 {
        proof { reveal_strlit("b"); }
        "b"
    } else if d == 12 {
        proof { reveal_strlit("c"); }
        "c"
    } else if d == 13 {
        proof { reveal_strlit("d"); }
        "d"
    } else if d == 14 {
        proof { reveal_strlit("e"); }
        "e"
    } else {
        proof { reveal_strlit("f"); }
        "f"
    }
}

/// Appends the hexadecimal form of `b` to `out`.
fn push_byte_hex(out: &mut String, b: u8)
    ensures
        final(out)@ == old(out)@ + byte_hex(b),
{
    if b < 16 {
        out.append(hex_digit_str(b));
    } else {
        out.append(hex_digit_str(b / 16));
        out.append(hex_digit_str(b % 16));
        assert(final(out)@ =~= old(out)@ + byte_hex(b));
    }
}

/// A fresh id from the random seed: each byte in lowercase hexadecimal
/// without padding, concatenated.
pub fn gen_id(random_seed: &Vec<u8>) -> (id: String)
    ensures
        id@ == id_from_seed(random_seed@),
{
    let mut id = String::new();
    let mut i: usize = 0;
    while i < random_seed.len()
        invariant
            i <= random_seed@.len(),
            id@ == id_from_seed(random_seed@.take(i as int)),
        decreases random_seed@.len() - i,
    {
        assert(random_seed@.take(i + 1).drop_last() =~= random_seed@.take(i as int));
        push_byte_hex(&mut id, random_seed[i]);
        i = i + 1;
    }
    assert(random_seed@.take(i as int) =~= random_seed@);
    id
}

/// The sum of the seed's bytes with wrap-around at 256.
pub fn seed_sum(random_seed: &Vec<u8>) -> (s: u8)
    ensures
        s == seed_sum_spec(random_seed@),
{
    let mut acc: u8 = 0;
    let mut i: usize = 0;
    while i < random_seed.len()
        invariant
            i <= random_seed@.len(),
            acc == seed_sum_spec(random_seed@.take(i as int)),
        decreases random_seed@.len() - i,
    {
        let ghost before = random_seed@.take(i as int);
        assert(random_seed@.take(i + 1).drop_last() =~= before);
        let b = random_seed[i];
        acc = acc.wrapping_add(b);
        proof {
            let t = byte_total(before);
            assert(byte_total(random_seed@.take(i + 1)) == t + b);
            assert((t % 256 + b) % 256 == (t + b) % 256) by (nonlinear_arith);
        }
        i = i + 1;
    }
    assert(random_seed@.take(i as int) =~= random_seed@);
    acc
}

proof fn lemma_share_bound(total: u64, f: u64)
    requires
        1 <= f <= 254,
    ensures
        (total / 255) * f <= total,
        (total / 255) * f <= (total / 255) * 254,
{
    assert((total / 255) * f <= (total / 255) * 254) by (nonlinear_arith)
        requires
            f <= 254,
            total / 255 >= 0,
    ;
    assert((total / 255) * 254 <= total) by (nonlinear_arith);
}

/// The random share of a red packet of `total_amount`: `total_amount / 255`
/// times a factor in 1..=254 taken from the seed's wrapped byte sum. The share
/// never exceeds the total.
pub fn random_amount(total_amount: u64, random_seed: &Vec<u8>) -> (amount: u64)
    ensures
        amount == random_amount_spec(total_amount, random_seed@),
        amount <= total_amount,
{
    let u8_max_value: u64 = 255;
    let block_length = total_amount / u8_max_value;
    let mut block_index = seed_sum(random_seed);
    if block_index < 1 {
        block_index += 1;
    } else if block_index > 253 {
        block_index -= 1;
    }
    proof {
        lemma_share_bound(total_amount, block_index as u64);
        assert((total_amount / 255) * 254 < 0x1_0000_0000_0000_0000) by (nonlinear_arith);
    }
    block_length.wrapping_mul(block_index as u64)
}

} // verus!
