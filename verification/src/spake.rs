//! The password-authenticated key exchange of wireless pairing.
//!
//! The arithmetic follows the SPAKE2 variant that Android's pairing service
//! speaks: the private scalar is a multiple of the cofactor, and the password
//! scalar is made one by adding multiples of the group order.

use crate::bytes::{le64, push_bytes, push_le64};
use crate::crypto::{
    add_points, basepoint, basepoint_encoding, decompress, decompressed, digest, expose,
    group_order, identity_encoding, identity_point, is_point, le_value, point_difference,
    point_sum, power256, protect, random_wide, reduce_wide, secret, select_byte, sha512,
    select_point, subtract_points, SecretBytes,
};
use crate::error::{failed, failure, AdbResult};
use vstd::prelude::*;
use vstd::utf8::*;

verus! {

/// The name of the pairing client in the transcript.
pub const CLIENT_NAME: [u8; 16] = [
    0x61, 0x64, 0x62, 0x20, 0x70, 0x61, 0x69, 0x72, 0x20, 0x63, 0x6c, 0x69, 0x65, 0x6e, 0x74, 0x00,
];

/// The name of the pairing server in the transcript.
pub const SERVER_NAME: [u8; 16] = [
    0x61, 0x64, 0x62, 0x20, 0x70, 0x61, 0x69, 0x72, 0x20, 0x73, 0x65, 0x72, 0x76, 0x65, 0x72, 0x00,
];

/// The point that masks the message of the client.
pub const SPAKE_M: [u8; 32] = [
    0x5a, 0xda, 0x7e, 0x4b, 0xf6, 0xdd, 0xd9, 0xad, 0xb6, 0x62, 0x6d, 0x32, 0x13, 0x1c, 0x6b, 0x5c,
    0x51, 0xa1, 0xe3, 0x47, 0xa3, 0x47, 0x8f, 0x53, 0xcf, 0xcf, 0x44, 0x1b, 0x88, 0xee, 0xd1, 0x2e,
];

/// The point that masks the message of the server.
pub const SPAKE_N: [u8; 32] = [
    0x10, 0xe3, 0xdf, 0x0a, 0xe3, 0x7d, 0x8e, 0x7a, 0x99, 0xb5, 0xfe, 0x74, 0xb4, 0x46, 0x72, 0x10,
    0x3d, 0xbd, 0xdc, 0xbd, 0x06, 0xaf, 0x68, 0x0d, 0x71, 0x32, 0x9a, 0x11, 0x69, 0x3b, 0xc7, 0x78,
];

/// The order of the prime-order subgroup, least significant byte first.
pub const GROUP_ORDER: [u8; 32] = [
    0xed, 0xd3, 0xf5, 0x5c, 0x1a, 0x63, 0x12, 0x58, 0xd6, 0x9c, 0xf7, 0xa2, 0xde, 0xf9, 0xde, 0x14,
    0x00, 0x00, 0x00, 0x00, 0x00, 0x00, 0x00, 0x00, 0x00, 0x00, 0x00, 0x00, 0x00, 0x00, 0x00, 0x10,
];

/// The bytes of a number, least significant first.
pub open spec fn le_bytes(value: nat, length: nat) -> Seq<u8>
    decreases length,
{
    if length == 0 {
        seq![]
    } else {
        seq![(value % 256) as u8] + le_bytes(value / 256, (length - 1) as nat)
    }
}

/// A byte string holds a number below the power of 256 of its length.
pub proof fn lemma_le_bound(bytes: Seq<u8>)
    ensures
        le_value(bytes) < power256(bytes.len()),
        power256(bytes.len()) > 0,
    decreases bytes.len(),
{
    if bytes.len() > 0 {
        lemma_le_bound(bytes.drop_last());
        let p = power256((bytes.len() - 1) as nat);
        let last = bytes.last() as nat;
        assert(last * p <= 255 * p) by (nonlinear_arith)
            requires
                last <= 255,
        ;
    }
}

/// The first byte is the lowest digit of the number.
pub proof fn lemma_le_first(bytes: Seq<u8>)
    requires
        bytes.len() > 0,
    ensures
        le_value(bytes) == bytes[0] + 256 * le_value(bytes.drop_first()),
    decreases bytes.len(),
{
    if bytes.len() == 1 {
        assert(bytes.drop_last() =~= seq![]);
        assert(bytes.drop_first() =~= seq![]);
        assert(le_value(bytes.drop_last()) == 0);
        assert(power256(0) == 1);
    } else {
        lemma_le_first(bytes.drop_last());
        assert(bytes.drop_last().drop_first() =~= bytes.drop_first().drop_last());
        let last = bytes.last() as nat;
        let p = power256((bytes.len() - 2) as nat);
        assert(power256((bytes.len() - 1) as nat) == 256 * p);
        assert(last * (256 * p) == 256 * (last * p)) by (nonlinear_arith);
    }
}

/// A byte string is determined by its length and the number it holds.
pub proof fn lemma_le_bytes(bytes: Seq<u8>)
    ensures
        le_bytes(le_value(bytes), bytes.len()) == bytes,
    decreases bytes.len(),
{
    if bytes.len() > 0 {
        lemma_le_first(bytes);
        lemma_le_bytes(bytes.drop_first());
        assert(bytes =~= seq![bytes[0]] + bytes.drop_first());
    } else {
        assert(le_bytes(0, 0) =~= bytes);
    }
}

/// One more byte adds its value at its place.
proof fn lemma_le_take(bytes: Seq<u8>, n: int)
    requires
        0 <= n < bytes.len(),
    ensures
        le_value(bytes.take(n + 1)) == le_value(bytes.take(n)) + bytes[n] as nat * power256(
            n as nat,
        ),
{
    assert(bytes.take(n + 1).drop_last() =~= bytes.take(n));
}

/// The number of the group order's bytes.
proof fn lemma_group_order()
    ensures
        le_value(GROUP_ORDER@) == group_order(),
        8 * group_order() < power256(32),
        group_order() % 8 == 5,
{
    reveal(group_order);
    let s = GROUP_ORDER@;
    assert(s.take(32) =~= s);
    assert(s.take(0) =~= seq![]);
    assert(power256(0) == 1);
    lemma_le_take(s, 0);
    assert(le_value(s.take(1)) == 0xednat);
    assert(power256(1) == 0x100nat);
    lemma_le_take(s, 1);
    assert(le_value(s.take(2)) == 0xd3ednat);
    assert(power256(2) == 0x10000nat);
    lemma_le_take(s, 2);
    assert(le_value(s.take(3)) == 0xf5d3ednat);
    assert(power256(3) == 0x1000000nat);
    lemma_le_take(s, 3);
    assert(le_value(s.take(4)) == 0x5cf5d3ednat);
    assert(power256(4) == 0x100000000nat);
    lemma_le_take(s, 4);
    assert(le_value(s.take(5)) == 0x1a5cf5d3ednat);
    assert(power256(5) == 0x10000000000nat);
    lemma_le_take(s, 5);
    assert(le_value(s.take(6)) == 0x631a5cf5d3ednat);
    assert(power256(6) == 0x1000000000000nat);
    lemma_le_take(s, 6);
    assert(le_value(s.take(7)) == 0x12631a5cf5d3ednat);
    assert(power256(7) == 0x100000000000000nat);
    lemma_le_take(s, 7);
    assert(le_value(s.take(8)) == 0x5812631a5cf5d3ednat);
    assert(power256(8) == 0x10000000000000000nat);
    lemma_le_take(s, 8);
    assert(le_value(s.take(9)) == 0xd65812631a5cf5d3ednat);
    assert(power256(9) == 0x1000000000000000000nat);
    lemma_le_take(s, 9);
    assert(le_value(s.take(10)) == 0x9cd65812631a5cf5d3ednat);
    assert(power256(10) == 0x100000000000000000000nat);
    lemma_le_take(s, 10);
    assert(le_value(s.take(11)) == 0xf79cd65812631a5cf5d3ednat);
    assert(power256(11) == 0x10000000000000000000000nat);
    lemma_le_take(s, 11);
    assert(le_value(s.take(12)) == 0xa2f79cd65812631a5cf5d3ednat);
    assert(power256(12) == 0x1000000000000000000000000nat);
    lemma_le_take(s, 12);
    assert(le_value(s.take(13)) == 0xdea2f79cd65812631a5cf5d3ednat);
    assert(power256(13) == 0x100000000000000000000000000nat);
    lemma_le_take(s, 13);
    assert(le_value(s.take(14)) == 0xf9dea2f79cd65812631a5cf5d3ednat);
    assert(power256(14) == 0x10000000000000000000000000000nat);
    lemma_le_take(s, 14);
    assert(le_value(s.take(15)) == 0xdef9dea2f79cd65812631a5cf5d3ednat);
    assert(power256(15) == 0x1000000000000000000000000000000nat);
    lemma_le_take(s, 15);
    assert(le_value(s.take(16)) == 0x14def9dea2f79cd65812631a5cf5d3ednat);
    assert(power256(16) == 0x100000000000000000000000000000000nat);
    lemma_le_take(s, 16);
    assert(le_value(s.take(17)) == 0x14def9dea2f79cd65812631a5cf5d3ednat);
    assert(power256(17) == 0x10000000000000000000000000000000000nat);
    lemma_le_take(s, 17);
    assert(le_value(s.take(18)) == 0x14def9dea2f79cd65812631a5cf5d3ednat);
    assert(power256(18) == 0x1000000000000000000000000000000000000nat);
    lemma_le_take(s, 18);
    assert(le_value(s.take(19)) == 0x14def9dea2f79cd65812631a5cf5d3ednat);
    assert(power256(19) == 0x100000000000000000000000000000000000000nat);
    lemma_le_take(s, 19);
    assert(le_value(s.take(20)) == 0x14def9dea2f79cd65812631a5cf5d3ednat);
    assert(power256(20) == 0x10000000000000000000000000000000000000000nat);
    lemma_le_take(s, 20);
    assert(le_value(s.take(21)) == 0x14def9dea2f79cd65812631a5cf5d3ednat);
    assert(power256(21) == 0x1000000000000000000000000000000000000000000nat);
    lemma_le_take(s, 21);
    assert(le_value(s.take(22)) == 0x14def9dea2f79cd65812631a5cf5d3ednat);
    assert(power256(22) == 0x100000000000000000000000000000000000000000000nat);
    lemma_le_take(s, 22);
    assert(le_value(s.take(23)) == 0x14def9dea2f79cd65812631a5cf5d3ednat);
    assert(power256(23) == 0x10000000000000000000000000000000000000000000000nat);
    lemma_le_take(s, 23);
    assert(le_value(s.take(24)) == 0x14def9dea2f79cd65812631a5cf5d3ednat);
    assert(power256(24) == 0x1000000000000000000000000000000000000000000000000nat);
    lemma_le_take(s, 24);
    assert(le_value(s.take(25)) == 0x14def9dea2f79cd65812631a5cf5d3ednat);
    assert(power256(25) == 0x100000000000000000000000000000000000000000000000000nat);
    lemma_le_take(s, 25);
    assert(le_value(s.take(26)) == 0x14def9dea2f79cd65812631a5cf5d3ednat);
    assert(power256(26) == 0x10000000000000000000000000000000000000000000000000000nat);
    lemma_le_take(s, 26);
    assert(le_value(s.take(27)) == 0x14def9dea2f79cd65812631a5cf5d3ednat);
    assert(power256(27) == 0x1000000000000000000000000000000000000000000000000000000nat);
    lemma_le_take(s, 27);
    assert(le_value(s.take(28)) == 0x14def9dea2f79cd65812631a5cf5d3ednat);
    assert(power256(28) == 0x100000000000000000000000000000000000000000000000000000000nat);
    lemma_le_take(s, 28);
    assert(le_value(s.take(29)) == 0x14def9dea2f79cd65812631a5cf5d3ednat);
    assert(power256(29) == 0x10000000000000000000000000000000000000000000000000000000000nat);
    lemma_le_take(s, 29);
    assert(le_value(s.take(30)) == 0x14def9dea2f79cd65812631a5cf5d3ednat);
    assert(power256(30) == 0x1000000000000000000000000000000000000000000000000000000000000nat);
    lemma_le_take(s, 30);
    assert(le_value(s.take(31)) == 0x14def9dea2f79cd65812631a5cf5d3ednat);
    assert(power256(31) == 0x100000000000000000000000000000000000000000000000000000000000000nat);
    lemma_le_take(s, 31);
    assert(le_value(s.take(32)) == 0x1000000000000000000000000000000014def9dea2f79cd65812631a5cf5d3ednat);
    assert(power256(32) == 0x10000000000000000000000000000000000000000000000000000000000000000nat);
}

/// Adds two numbers of 256 bits; a carry out of the last byte is dropped.
pub fn add_le(left: &[u8; 32], right: &[u8; 32]) -> (output: [u8; 32])
    ensures
        le_value(output@) == (le_value(left@) + le_value(right@)) % power256(32),
{
    let mut output: [u8; 32] = [0u8; 32];
    let mut carry: u16 = 0;
    let mut index: usize = 0;
    assert(output@.take(0) =~= left@.take(0));
    assert(right@.take(0) =~= left@.take(0));
    assert(left@.take(0).len() == 0);
    assert(le_value(left@.take(0)) == 0);
    assert(0 * power256(0) == 0);
    while index < 32
        invariant
            index <= 32,
            carry <= 1,
            le_value(output@.take(index as int)) + carry * power256(index as nat) == le_value(
                left@.take(index as int),
            ) + le_value(right@.take(index as int)),
        decreases 32 - index,
    {
        let sum: u16 = left[index] as u16 + right[index] as u16 + carry;
        let ghost before = output@;
        let ghost old_carry = carry;
        assert(sum >> 8 == sum / 256) by (bit_vector);
        output[index] = (sum % 256) as u8;
        carry = sum >> 8;
        proof {
            let n = index as int;
            let p = power256(n as nat);
            lemma_le_take(left@, n);
            lemma_le_take(right@, n);
            lemma_le_take(output@, n);
            assert(output@.take(n) =~= before.take(n));
            assert(power256((n + 1) as nat) == 256 * p);
            assert((sum % 256) as int * p + (sum / 256) as int * (256 * p) == left@[n] as int * p
                + right@[n] as int * p + old_carry as int * p) by (nonlinear_arith)
                requires
                    sum as int == left@[n] as int + right@[n] as int + old_carry as int,
                    sum as int == sum % 256 + 256 * (sum / 256),
            ;
        }
        index = index + 1;
    }
    proof {
        assert(output@.take(32) =~= output@);
        assert(left@.take(32) =~= left@);
        assert(right@.take(32) =~= right@);
        lemma_le_bound(output@);
        let p = power256(32) as int;
        let total = (le_value(left@) + le_value(right@)) as int;
        assert(total % p == le_value(output@)) by {
            vstd::arithmetic::div_mod::lemma_fundamental_div_mod_converse(
                total,
                p,
                carry as int,
                le_value(output@) as int,
            );
        }
    }
    output
}

/// Multiplies a number of 256 bits by eight; the bits above are dropped.
pub fn shift_left_three(value: &mut [u8; 32])
    ensures
        le_value(final(value)@) == 8 * le_value(old(value)@) % power256(32),
{
    let ghost input = value@;
    let mut carry: u8 = 0;
    let mut index: usize = 0;
    assert(value@.take(0) =~= seq![]);
    assert(0 * power256(0) == 0);
    while index < 32
        invariant
            index <= 32,
            carry < 8,
            value@.len() == 32,
            input.len() == 32,
            forall|j: int| index <= j < 32 ==> value@[j] == input[j],
            le_value(value@.take(index as int)) + carry * power256(index as nat) == 8 * le_value(
                input.take(index as int),
            ),
        decreases 32 - index,
    {
        let byte: u8 = value[index];
        let next: u8 = byte >> 5;
        let ghost before = value@;
        let ghost old_carry = carry;
        let shifted: u8 = (byte << 3) | carry;
        assert(next as int * 256 + shifted as int == byte as int * 8 + carry as int && next < 8)
            by (bit_vector)
            requires
                next == byte >> 5,
                shifted == (byte << 3) | carry,
                carry < 8,
        ;
        value[index] = shifted;
        carry = next;
        proof {
            let n = index as int;
            let p = power256(n as nat);
            lemma_le_take(input, n);
            lemma_le_take(value@, n);
            assert(value@.take(n) =~= before.take(n));
            assert(power256((n + 1) as nat) == 256 * p);
            assert(shifted as int * p + next as int * (256 * p) == 8 * (byte as int * p)
                + old_carry as int * p) by (nonlinear_arith)
                requires
                    next as int * 256 + shifted as int == byte as int * 8 + old_carry as int,
            ;
        }
        index = index + 1;
    }
    proof {
        assert(value@.take(32) =~= value@);
        assert(input.take(32) =~= input);
        lemma_le_bound(value@);
        vstd::arithmetic::div_mod::lemma_fundamental_div_mod_converse(
            8 * le_value(input) as int,
            power256(32) as int,
            carry as int,
            le_value(value@) as int,
        );
    }
}

/// What is added to a scalar to make it a multiple of eight: the group order is
/// five modulo eight, and three times five is one short of sixteen.
pub open spec fn cleared(value: nat) -> nat {
    value + (3 * value % 8) * group_order()
}

/// Takes the other bytes where the choice is one, in constant time.
fn select_bytes(value: &mut [u8; 32], other: &[u8; 32], choice: u8)
    requires
        choice <= 1,
    ensures
        final(value)@ == if choice == 1 {
            other@
        } else {
            old(value)@
        },
{
    let ghost before = value@;
    let mut index: usize = 0;
    while index < 32
        invariant
            index <= 32,
            value@.len() == 32,
            before.len() == 32,
            choice <= 1,
            forall|j: int|
                0 <= j < index ==> value@[j] == if choice == 1 {
                    other@[j]
                } else {
                    before[j]
                },
            forall|j: int| index <= j < 32 ==> value@[j] == before[j],
        decreases 32 - index,
    {
        let selected: u8 = select_byte(value[index], other[index], choice);
        value[index] = selected;
        index = index + 1;
    }
    assert(value@ =~= if choice == 1 {
        other@
    } else {
        before
    });
}

/// The weight of one of the three low bits.
spec fn low_weight(bit: int) -> int {
    if bit == 0 {
        1
    } else if bit == 1 {
        2
    } else if bit == 2 {
        4
    } else {
        8
    }
}

/// Whether one of the three low bits is set.
spec fn low_bit(value: int, bit: int) -> bool {
    if bit == 0 {
        value % 2 == 1
    } else if bit == 1 {
        (value / 2) % 2 == 1
    } else {
        (value / 4) % 2 == 1
    }
}

/// A low bit of a number is that bit of its lowest byte.
proof fn lemma_low_bit(value: int, low: int, rest: int, bit: int)
    requires
        value == low + 256 * rest,
        0 <= low < 256,
        0 <= bit < 3,
    ensures
        low_bit(value, bit) == low_bit(low, bit),
{
    assert(value / 2 == low / 2 + 128 * rest);
    assert(value / 4 == low / 4 + 64 * rest);
}

/// Adds an order where a low bit of the number is set, in constant time.
#[verifier::spinoff_prover]
fn clear_bit(value: &mut [u8; 32], order: &[u8; 32], bit: u8)
    requires
        bit < 3,
    ensures
        le_value(final(value)@) == if low_bit(le_value(old(value)@) as int, bit as int) {
            (le_value(old(value)@) + le_value(order@)) % power256(32)
        } else {
            le_value(old(value)@)
        },
{
    let sum: [u8; 32] = add_le(value, order);
    let low: u8 = value[0];
    let choice: u8 = (low >> bit) & 1;
    proof {
        lemma_le_first(value@);
        lemma_low_bit(
            le_value(value@) as int,
            low as int,
            le_value(value@.drop_first()) as int,
            bit as int,
        );
        assert(choice <= 1 && (bit == 0 ==> choice == low % 2) && (bit == 1 ==> choice == (low / 2)
            % 2) && (bit == 2 ==> choice == (low / 4) % 2)) by (bit_vector)
            requires
                choice == (low >> bit) & 1,
                bit < 3,
        ;
    }
    select_bytes(value, &sum, choice);
}

/// Adds multiples of the group order until the three low bits are zero, in
/// constant time.
pub fn clear_cofactor_bits(value: &mut [u8; 32])
    ensures
        le_value(final(value)@) == cleared(le_value(old(value)@)) % power256(32),
        le_value(final(value)@) % 8 == 0,
{
    let ghost input = le_value(value@) as int;
    let ghost p = power256(32) as int;
    let ghost l = group_order() as int;
    let ghost mut k: int = 0;
    let mut order: [u8; 32] = GROUP_ORDER;
    proof {
        lemma_group_order();
        lemma_le_bound(value@);
        assert(p == 256 * power256(31));
        lemma_counted_start(input, l, p);
    }
    let mut bit: u8 = 0;
    while bit < 3
        invariant
            bit <= 3,
            p == power256(32),
            step_state(le_value(value@) as int, le_value(order@) as int, input, k, l, p, bit as int),
        decreases 3 - bit,
    {
        let ghost before = le_value(value@) as int;
        let ghost weighted = le_value(order@) as int;
        clear_bit(value, &order, bit);
        order = add_le(&order, &order);
        proof {
            lemma_clear_step(before, weighted, input, k, l, p, bit as int);
            if low_bit(before, bit as int) {
                k = k + low_weight(bit as int);
            }
        }
        bit = bit + 1;
    }
    proof {
        lemma_cleared(le_value(value@) as int, le_value(order@) as int, input, k, l, p);
    }
}

/// What holds before each low bit is cleared: the number is the input plus a
/// count of orders, its lower bits are zero, and the order is weighted.
#[verifier::opaque]
spec fn step_state(value: int, order: int, input: int, k: int, l: int, p: int, bit: int) -> bool {
    &&& p > 0
    &&& p % 8 == 0
    &&& l % 8 == 5
    &&& 0 <= bit <= 3
    &&& 0 <= k < low_weight(bit)
    &&& bit == 1 ==> value % 2 == 0
    &&& bit == 2 ==> value % 4 == 0
    &&& bit == 3 ==> value % 8 == 0
    &&& counted(value, input, k, l, p)
    &&& counted(order, 0, low_weight(bit), l, p)
    &&& order % 8 == low_weight(bit) * 5 % 8
}

proof fn lemma_counted_start(input: int, l: int, p: int)
    requires
        p > 0,
        p % 8 == 0,
        l % 8 == 5,
        0 <= input < p,
        0 <= l < p,
    ensures
        step_state(input, l, input, 0, l, p, 0),
{
    reveal(step_state);
    reveal(counted);
    assert(0 * l == 0);
    assert(1 * l == l);
    vstd::arithmetic::div_mod::lemma_small_mod(input as nat, p as nat);
    vstd::arithmetic::div_mod::lemma_small_mod(l as nat, p as nat);
}

#[verifier::spinoff_prover]
#[verifier::rlimit(60)]
proof fn lemma_clear_step(value: int, order: int, input: int, k: int, l: int, p: int, bit: int)
    requires
        0 <= bit < 3,
        step_state(value, order, input, k, l, p, bit),
    ensures
        ({
            let weight = low_weight(bit);
            let set = low_bit(value, bit);
            let next = if set {
                (value + order) % p
            } else {
                value
            };
            let count = if set {
                k + weight
            } else {
                k
            };
            step_state(next, (order + order) % p, input, count, l, p, bit + 1)
        }),
{
    reveal(step_state);
    let weight = low_weight(bit);
    lemma_counted_sum(value, order, input, k, weight, l, p);
    lemma_counted_sum(order, order, 0, weight, weight, l, p);
    if bit == 0 {
        assert(weight == 1);
    } else if bit == 1 {
        assert(weight == 2);
    } else {
        assert(bit == 2 && weight == 4);
    }
}

proof fn lemma_cleared(value: int, order: int, input: int, k: int, l: int, p: int)
    requires
        step_state(value, order, input, k, l, p, 3),
    ensures
        value == (input + (3 * input % 8) * l) % p,
        value % 8 == 0,
{
    reveal(step_state);
    lemma_mod_eight(input + k * l, p);
    assert(k == 3 * input % 8) by {
        reveal(counted);
        assert(k * l == 8 * (k * (l / 8)) + k * 5) by (nonlinear_arith)
            requires
                l == 8 * (l / 8) + 5,
        ;
        assert((input + k * l) % 8 == (input + 5 * k) % 8);
        assert((input + 5 * k) % 8 == 0);
    }
    reveal(counted);
}

/// A number is another plus a count of group orders, modulo a divisor.
#[verifier::opaque]
spec fn counted(value: int, input: int, count: int, l: int, p: int) -> bool {
    value == (input + count * l) % p
}

/// Adding weighted orders adds the weight to the count.
proof fn lemma_counted_sum(a: int, b: int, input: int, k: int, weight: int, l: int, p: int)
    requires
        p > 0,
        p % 8 == 0,
        counted(a, input, k, l, p),
        counted(b, 0, weight, l, p),
    ensures
        counted((a + b) % p, input, k + weight, l, p),
        ((a + b) % p) % 8 == (a + b) % 8,
{
    reveal(counted);
    let x = input + k * l;
    let y = 0 + weight * l;
    assert(x + y == input + (k + weight) * l) by (nonlinear_arith)
        requires
            x == input + k * l,
            y == weight * l,
    ;
    vstd::arithmetic::div_mod::lemma_add_mod_noop(x, y, p);
    lemma_mod_eight(a + b, p);
}

/// The remainder modulo a multiple of eight keeps the remainder modulo eight.
proof fn lemma_mod_eight(a: int, p: int)
    requires
        p > 0,
        p % 8 == 0,
    ensures
        (a % p) % 8 == a % 8,
{
    vstd::arithmetic::div_mod::lemma_fundamental_div_mod(a, p);
    let q = a / p;
    let m = p / 8;
    assert(p * q == 8 * (m * q)) by (nonlinear_arith)
        requires
            p == 8 * m,
    ;
}

/// A bit of a scalar, counted from the lowest.
pub open spec fn scalar_bit(scalar: Seq<u8>, n: nat) -> bool {
    (scalar[(n / 8) as int] >> ((n % 8) as u8)) & 1 == 1
}

/// A point doubled a number of times.
pub open spec fn doubled(point: Seq<u8>, times: nat) -> Seq<u8>
    decreases times,
{
    if times == 0 {
        point
    } else {
        let half = doubled(point, (times - 1) as nat);
        point_sum(half, half)
    }
}

/// The sum of the doublings of a point at the set bits of a scalar, up to a
/// number of bits.
pub open spec fn multiple(point: Seq<u8>, scalar: Seq<u8>, bits: nat) -> Seq<u8>
    decreases bits,
{
    if bits == 0 {
        identity_encoding()
    } else {
        let lower = multiple(point, scalar, (bits - 1) as nat);
        if scalar_bit(scalar, (bits - 1) as nat) {
            point_sum(lower, doubled(point, (bits - 1) as nat))
        } else {
            lower
        }
    }
}

/// Multiplies a point by a scalar that is not reduced, in constant time.
fn multiply_raw(point: &[u8; 32], scalar: &[u8]) -> (result: [u8; 32])
    requires
        is_point(point@),
        scalar@.len() == 32,
    ensures
        result@ == multiple(point@, scalar@, 256),
        is_point(result@),
{
    let mut result: [u8; 32] = identity_point();
    let mut power: [u8; 32] = *point;
    let mut index: usize = 0;
    while index < 32
        invariant
            index <= 32,
            scalar@.len() == 32,
            is_point(result@),
            is_point(power@),
            result@ == multiple(point@, scalar@, (8 * index) as nat),
            power@ == doubled(point@, (8 * index) as nat),
        decreases 32 - index,
    {
        let byte: u8 = scalar[index];
        let mut bit: u8 = 0;
        while bit < 8
            invariant
                bit <= 8,
                index < 32,
                scalar@.len() == 32,
                byte == scalar@[index as int],
                is_point(result@),
                is_point(power@),
                result@ == multiple(point@, scalar@, (8 * index + bit) as nat),
                power@ == doubled(point@, (8 * index + bit) as nat),
            decreases 8 - bit,
        {
            let candidate: [u8; 32] = add_points(&result, &power);
            let choice: u8 = (byte >> bit) & 1;
            assert(choice <= 1) by (bit_vector)
                requires
                    choice == (byte >> bit) & 1,
            ;
            proof {
                let n = (8 * index + bit) as nat;
                assert(n / 8 == index && n % 8 == bit);
            }
            result = select_point(&result, &candidate, choice);
            power = add_points(&power, &power);
            bit = bit + 1;
        }
        index = index + 1;
    }
    result
}

/// Finds the point of an encoding.
fn decode_point(value: &[u8; 32]) -> (point: AdbResult<[u8; 32]>)
    ensures
        match decompressed(value@) {
            Some(encoding) => point is Ok && point->Ok_0@ == encoding && is_point(encoding),
            None => failed(point, "invalid SPAKE2 point"@),
        },
{
    match decompress(value) {
        Some(point) => Ok(point),
        None => Err(failure("invalid SPAKE2 point")),
    }
}

/// What one side of the exchange keeps between its two steps.
pub struct SpakeState {
    private_scalar: SecretBytes,
    password_scalar: SecretBytes,
    password_hash: SecretBytes,
    message: [u8; 32],
}

/// The contents of the state of an exchange.
pub ghost struct Exchange {
    /// The scalar of this side.
    pub private_scalar: Seq<u8>,
    /// The scalar of the password.
    pub password_scalar: Seq<u8>,
    /// The digest of the password.
    pub password_hash: Seq<u8>,
    /// The message of this side.
    pub message: Seq<u8>,
}

/// The private scalar that random bytes give: a reduced scalar times eight.
pub open spec fn private_scalar(random: Seq<u8>) -> Seq<u8> {
    le_bytes(8 * (le_value(random) % group_order()), 32)
}

/// The password scalar that a digest gives: a reduced scalar made a multiple of
/// eight.
pub open spec fn password_scalar(hash: Seq<u8>) -> Seq<u8> {
    le_bytes(cleared(le_value(hash) % group_order()), 32)
}

/// The state that random bytes and a password give, with the point that masks
/// the message.
pub open spec fn exchange(random: Seq<u8>, password: Seq<u8>, mask: Seq<u8>) -> Exchange {
    let hash = sha512(password);
    Exchange {
        private_scalar: private_scalar(random),
        password_scalar: password_scalar(hash),
        password_hash: hash,
        message: point_sum(
            multiple(basepoint_encoding(), private_scalar(random), 256),
            multiple(mask, password_scalar(hash), 256),
        ),
    }
}

/// A value in the transcript: its length and its bytes.
pub open spec fn transcript_part(value: Seq<u8>) -> Seq<u8> {
    le64(value.len() as u64) + value
}

/// The transcript of an exchange.
pub open spec fn transcript(state: Exchange, peer: Seq<u8>, shared: Seq<u8>) -> Seq<u8> {
    transcript_part(CLIENT_NAME@) + transcript_part(SERVER_NAME@) + transcript_part(state.message)
        + transcript_part(peer) + transcript_part(shared) + transcript_part(state.password_hash)
}

/// The point that both sides share, from the masked point of the peer and the
/// point that masks it.
pub open spec fn shared_point(state: Exchange, peer: Seq<u8>, mask: Seq<u8>) -> Seq<u8> {
    multiple(
        point_difference(peer, multiple(mask, state.password_scalar, 256)),
        state.private_scalar,
        256,
    )
}

/// The scalar that holds a number below 2^256.
proof fn lemma_scalar(bytes: Seq<u8>, value: nat)
    requires
        bytes.len() == 32,
        le_value(bytes) == value % power256(32),
        value < power256(32),
    ensures
        bytes == le_bytes(value, 32),
{
    vstd::arithmetic::div_mod::lemma_small_mod(value, power256(32));
    lemma_le_bytes(bytes);
}

/// Copies 32 bytes.
fn array_of(bytes: &[u8]) -> (array: [u8; 32])
    requires
        bytes@.len() == 32,
    ensures
        array@ == bytes@,
{
    let mut array: [u8; 32] = [0u8; 32];
    let mut index: usize = 0;
    while index < 32
        invariant
            index <= 32,
            bytes@.len() == 32,
            forall|j: int| 0 <= j < index ==> array@[j] == bytes@[j],
        decreases 32 - index,
    {
        array[index] = bytes[index];
        index = index + 1;
    }
    assert(array@ =~= bytes@);
    array
}

/// Copies bytes into a buffer that erases itself.
fn kept(bytes: &[u8]) -> (buffer: SecretBytes)
    ensures
        secret(buffer) == bytes@,
{
    let mut copy: Vec<u8> = Vec::new();
    push_bytes(&mut copy, bytes);
    assert(copy@ =~= bytes@);
    protect(copy)
}

/// Appends a value to the transcript.
fn push_part(transcript: &mut Vec<u8>, value: &[u8])
    ensures
        final(transcript)@ == old(transcript)@ + transcript_part(value@),
{
    let ghost before = transcript@;
    push_le64(transcript, value.len() as u64);
    push_bytes(transcript, value);
    assert(transcript@ =~= before + transcript_part(value@));
}

impl SpakeState {
    /// The contents of the state.
    pub closed spec fn view(&self) -> Exchange {
        Exchange {
            private_scalar: secret(self.private_scalar),
            password_scalar: secret(self.password_scalar),
            password_hash: secret(self.password_hash),
            message: self.message@,
        }
    }

    #[verifier::type_invariant]
    spec fn sized(&self) -> bool {
        &&& secret(self.private_scalar).len() == 32
        &&& secret(self.password_scalar).len() == 32
        &&& secret(self.password_hash).len() == 64
    }

    /// Starts the exchange with fresh random bytes. Nothing is said of which
    /// bytes were drawn.
    pub fn start(password: &[u8]) -> (started: AdbResult<(SpakeState, [u8; 32])>)
        ensures
            match decompressed(SPAKE_M@) {
                Some(mask) => started is Ok && exists|random: Seq<u8>|
                    random.len() == 64 && started->Ok_0.0@ == #[trigger] exchange(
                        random,
                        password@,
                        mask,
                    ) && started->Ok_0.1@ == exchange(random, password@, mask).message,
                None => failed(started, "invalid SPAKE2 point"@),
            },
    {
        let random: [u8; 64] = random_wide();
        Self::start_with(&random, password)
    }

    /// Starts the exchange: the state, and the message for the peer.
    pub fn start_with(random: &[u8; 64], password: &[u8]) -> (started: AdbResult<
        (SpakeState, [u8; 32]),
    >)
        ensures
            match decompressed(SPAKE_M@) {
                Some(mask) => started is Ok && started->Ok_0.0@ == exchange(
                    random@,
                    password@,
                    mask,
                ) && started->Ok_0.1@ == exchange(random@, password@, mask).message,
                None => failed(started, "invalid SPAKE2 point"@),
            },
    {
        let mut private_scalar: [u8; 32] = reduce_wide(random);
        shift_left_three(&mut private_scalar);
        let password_hash: [u8; 64] = digest(password);
        let mut password_scalar: [u8; 32] = reduce_wide(&password_hash);
        clear_cofactor_bits(&mut password_scalar);
        proof {
            lemma_group_order();
            let l = group_order();
            let r = le_value(random@) % l;
            let v = le_value(password_hash@) % l;
            assert(l > 0);
            vstd::arithmetic::div_mod::lemma_mod_bound(le_value(random@) as int, l as int);
            vstd::arithmetic::div_mod::lemma_mod_bound(le_value(password_hash@) as int, l as int);
            assert((3 * v % 8) * l <= 7 * l) by (nonlinear_arith);
            lemma_scalar(private_scalar@, 8 * r);
            lemma_scalar(password_scalar@, cleared(v));
        }
        let mask: [u8; 32] = match decode_point(&SPAKE_M) {
            Ok(point) => point,
            Err(error) => return Err(error),
        };
        let public: [u8; 32] = multiply_raw(&basepoint(), &private_scalar);
        let masked: [u8; 32] = multiply_raw(&mask, &password_scalar);
        let message: [u8; 32] = add_points(&public, &masked);
        Ok(
            (
                SpakeState {
                    private_scalar: kept(&private_scalar),
                    password_scalar: kept(&password_scalar),
                    password_hash: kept(&password_hash),
                    message,
                },
                message,
            ),
        )
    }

    /// Ends the exchange: the key material that the message of the peer gives.
    pub fn finish(self, peer_message: &[u8]) -> (material: AdbResult<SecretBytes>)
        ensures
            if peer_message@.len() != 32 {
                failed(material, "invalid SPAKE2 message length"@)
            } else {
                match (decompressed(peer_message@), decompressed(SPAKE_N@)) {
                    (Some(peer), Some(mask)) => material is Ok && secret(material->Ok_0)
                        == sha512(
                        transcript(self@, peer_message@, shared_point(self@, peer, mask)),
                    ),
                    _ => failed(material, "invalid SPAKE2 point"@),
                }
            },
    {
        proof {
            use_type_invariant(&self);
        }
        if peer_message.len() != 32 {
            return Err(failure("invalid SPAKE2 message length"));
        }
        let peer: [u8; 32] = array_of(peer_message);
        let peer_masked: [u8; 32] = match decode_point(&peer) {
            Ok(point) => point,
            Err(error) => return Err(error),
        };
        let mask: [u8; 32] = match decode_point(&SPAKE_N) {
            Ok(point) => point,
            Err(error) => return Err(error),
        };
        let masked: [u8; 32] = multiply_raw(&mask, expose(&self.password_scalar));
        let peer_public: [u8; 32] = subtract_points(&peer_masked, &masked);
        let shared: [u8; 32] = multiply_raw(&peer_public, expose(&self.private_scalar));
        let mut transcript: Vec<u8> = Vec::new();
        push_part(&mut transcript, &CLIENT_NAME);
        push_part(&mut transcript, &SERVER_NAME);
        push_part(&mut transcript, &self.message);
        push_part(&mut transcript, peer_message);
        push_part(&mut transcript, &shared);
        push_part(&mut transcript, expose(&self.password_hash));
        assert(transcript@ =~= self::transcript(
            self@,
            peer_message@,
            shared_point(self@, peer_masked@, mask@),
        ));
        let hash: [u8; 64] = digest(&transcript);
        Ok(kept(&hash))
    }
}

/// The bytes of a number that fits hold that number.
pub proof fn lemma_le_value(value: nat, length: nat)
    requires
        value < power256(length),
    ensures
        le_bytes(value, length).len() == length,
        le_value(le_bytes(value, length)) == value,
    decreases length,
{
    if length > 0 {
        let rest = le_bytes(value / 256, (length - 1) as nat);
        lemma_le_value(value / 256, (length - 1) as nat);
        let all = le_bytes(value, length);
        assert(all =~= seq![(value % 256) as u8] + rest);
        lemma_le_first(all);
        assert(all.drop_first() =~= rest);
    }
}

/// The scalars of the exchange are multiples of the cofactor, and clearing the
/// low bits of the password scalar keeps it the same modulo the group order.
pub proof fn scalars_clear_the_cofactor(random: Seq<u8>, hash: Seq<u8>)
    ensures
        private_scalar(random).len() == 32,
        password_scalar(hash).len() == 32,
        le_value(private_scalar(random)) == 8 * (le_value(random) % group_order()),
        le_value(private_scalar(random)) % 8 == 0,
        le_value(password_scalar(hash)) % 8 == 0,
        le_value(password_scalar(hash)) % group_order() == le_value(hash) % group_order(),
{
    lemma_group_order();
    let l = group_order() as int;
    let r = le_value(random) % group_order();
    let v = (le_value(hash) % group_order()) as int;
    let k = 3 * v % 8;
    vstd::arithmetic::div_mod::lemma_mod_bound(le_value(random) as int, l);
    vstd::arithmetic::div_mod::lemma_mod_bound(le_value(hash) as int, l);
    assert(0 <= k * l <= 7 * l) by (nonlinear_arith)
        requires
            0 <= k <= 7,
            l >= 0,
    ;
    lemma_le_value(8 * r, 32);
    lemma_le_value(cleared(v as nat), 32);
    assert(k * l == 8 * (k * (l / 8)) + k * 5) by (nonlinear_arith)
        requires
            l == 8 * (l / 8) + 5,
    ;
    assert((v + k * l) % 8 == (v + 5 * k) % 8);
    assert((v + k * l) % l == v) by {
        vstd::arithmetic::div_mod::lemma_fundamental_div_mod_converse(v + k * l, l, k, v);
    }
}

/// Both sides hash the same transcript: the names of the client and of the server,
/// what each sent, the point they share and the hash of the password, each behind its
/// length.
pub proof fn transcripts_hold_six_parts(state: Exchange, peer: Seq<u8>, shared: Seq<u8>)
    ensures
        transcript(state, peer, shared) == le64(16) + encode_utf8("adb pair client\0"@) + le64(16)
            + encode_utf8("adb pair server\0"@) + le64(state.message.len() as u64) + state.message
            + le64(peer.len() as u64) + peer + le64(shared.len() as u64) + shared + le64(
            state.password_hash.len() as u64,
        ) + state.password_hash,
{
    reveal_strlit("adb pair client\0");
    reveal_strlit("adb pair server\0");
    is_ascii_chars_encode_utf8("adb pair client\0"@);
    is_ascii_chars_encode_utf8("adb pair server\0"@);
    assert(CLIENT_NAME@ =~= encode_utf8("adb pair client\0"@));
    assert(SERVER_NAME@ =~= encode_utf8("adb pair server\0"@));
    assert(CLIENT_NAME@.len() == 16);
    assert(SERVER_NAME@.len() == 16);
    assert(transcript(state, peer, shared) =~= le64(16) + CLIENT_NAME@ + le64(16) + SERVER_NAME@
        + le64(state.message.len() as u64) + state.message + le64(peer.len() as u64) + peer + le64(
        shared.len() as u64,
    ) + shared + le64(state.password_hash.len() as u64) + state.password_hash);
}

/// What a side sends is the multiple of the base point by its secret, hidden under the
/// multiple of the mask by the password; the point that it shares is the multiple by
/// its secret of what the other sent, unhidden.
pub proof fn points_are_hidden_under_the_password(
    random: Seq<u8>,
    password: Seq<u8>,
    mask: Seq<u8>,
    peer: Seq<u8>,
)
    ensures
        ({
            let state = exchange(random, password, mask);
            &&& state.password_hash == sha512(password)
            &&& le_value(state.private_scalar) == 8 * (le_value(random) % group_order())
            &&& le_value(state.password_scalar) % group_order() == le_value(sha512(password))
                % group_order()
            &&& le_value(state.password_scalar) % 8 == 0
            &&& state.message == point_sum(
                multiple(basepoint_encoding(), state.private_scalar, 256),
                multiple(mask, state.password_scalar, 256),
            )
            &&& shared_point(state, peer, mask) == multiple(
                point_difference(peer, multiple(mask, state.password_scalar, 256)),
                state.private_scalar,
                256,
            )
        }),
{
    scalars_clear_the_cofactor(random, sha512(password));
}

/// The weight of a bit that is set.
pub open spec fn bit_weight(set: bool, weight: int) -> int {
    if set {
        weight
    } else {
        0
    }
}

/// A byte of a scalar is the sum of the weights of its bits, lowest first.
pub proof fn bits_of_a_scalar_weigh_by_their_place(scalar: Seq<u8>, i: nat)
    requires
        i < scalar.len(),
    ensures
        scalar[i as int] == bit_weight(scalar_bit(scalar, 8 * i), 1) + bit_weight(
            scalar_bit(scalar, 8 * i + 1),
            2,
        ) + bit_weight(scalar_bit(scalar, 8 * i + 2), 4) + bit_weight(
            scalar_bit(scalar, 8 * i + 3),
            8,
        ) + bit_weight(scalar_bit(scalar, 8 * i + 4), 16) + bit_weight(
            scalar_bit(scalar, 8 * i + 5),
            32,
        ) + bit_weight(scalar_bit(scalar, 8 * i + 6), 64) + bit_weight(
            scalar_bit(scalar, 8 * i + 7),
            128,
        ),
{
    let byte = scalar[i as int];
    assert(byte == (if (byte >> 0u8) & 1 == 1 { 1int } else { 0 }) + (if (byte >> 1u8) & 1 == 1 {
        2int
    } else {
        0
    }) + (if (byte >> 2u8) & 1 == 1 { 4int } else { 0 }) + (if (byte >> 3u8) & 1 == 1 {
        8int
    } else {
        0
    }) + (if (byte >> 4u8) & 1 == 1 { 16int } else { 0 }) + (if (byte >> 5u8) & 1 == 1 {
        32int
    } else {
        0
    }) + (if (byte >> 6u8) & 1 == 1 { 64int } else { 0 }) + (if (byte >> 7u8) & 1 == 1 {
        128int
    } else {
        0
    })) by (bit_vector);
    assert((8 * i + 1) / 8 == i && (8 * i + 1) % 8 == 1);
    assert((8 * i + 2) / 8 == i && (8 * i + 2) % 8 == 2);
    assert((8 * i + 3) / 8 == i && (8 * i + 3) % 8 == 3);
    assert((8 * i + 4) / 8 == i && (8 * i + 4) % 8 == 4);
    assert((8 * i + 5) / 8 == i && (8 * i + 5) % 8 == 5);
    assert((8 * i + 6) / 8 == i && (8 * i + 6) % 8 == 6);
    assert((8 * i + 7) / 8 == i && (8 * i + 7) % 8 == 7);
}

/// A multiple is gathered from the lowest bit on: each bit that is set adds the point
/// doubled as often as there are bits below it.
pub proof fn multiples_add_what_each_bit_weighs(point: Seq<u8>, scalar: Seq<u8>, bits: nat)
    ensures
        doubled(point, 0) == point,
        doubled(point, bits + 1) == point_sum(doubled(point, bits), doubled(point, bits)),
        multiple(point, scalar, 0) == identity_encoding(),
        scalar_bit(scalar, bits) ==> multiple(point, scalar, bits + 1) == point_sum(
            multiple(point, scalar, bits),
            doubled(point, bits),
        ),
        !scalar_bit(scalar, bits) ==> multiple(point, scalar, bits + 1) == multiple(
            point,
            scalar,
            bits,
        ),
{
}

} // verus!
