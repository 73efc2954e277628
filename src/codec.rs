//! Conversion between a combination index, its fixed-width validity vector
//! (most significant bit first) and the vector's `0`/`1` label.
use vstd::arithmetic::power2::{lemma_pow2_unfold, pow2};
use vstd::prelude::*;
use vstd::string::StringExecFns;

verus! {

/// `n` halved `k` times, rounding towards negative infinity (`n >> k`).
pub open spec fn halve_times(n: int, k: nat) -> int
    decreases k,
{
    if k == 0 {
        n
    } else {
        halve_times(n / 2, (k - 1) as nat)
    }
}

/// Bit `k` of the two's complement binary expansion of `n`.
pub open spec fn bit_of(n: int, k: nat) -> bool {
    halve_times(n, k) % 2 == 1
}

/// The `width` lowest bits of `n`, most significant first: position `p`
/// holds bit `width - 1 - p`.
pub open spec fn msb_bits(n: int, width: nat) -> Seq<bool> {
    Seq::new(width, |p: int| bit_of(n, (width - 1 - p) as nat))
}

pub open spec fn bit_char(b: bool) -> char {
    if b {
        '1'
    } else {
        '0'
    }
}

/// The label of a validity vector: `'1'` for each true entry, `'0'` for each
/// false one, in order.
pub open spec fn label_of(v: Seq<bool>) -> Seq<char> {
    v.map_values(|b: bool| bit_char(b))
}

/// The number that a string of `'0'` and `'1'` denotes in binary.
pub open spec fn label_value(s: Seq<char>) -> int
    decreases s.len(),
{
    if s.len() == 0 {
        0
    } else {
        2 * label_value(s.drop_last()) + if s.last() == '1' {
            1int
        } else {
            0int
        }
    }
}

/// The number that a validity vector denotes in binary, most significant first.
pub open spec fn bits_value(v: Seq<bool>) -> int
    decreases v.len(),
{
    if v.len() == 0 {
        0
    } else {
        2 * bits_value(v.drop_last()) + if v.last() {
            1int
        } else {
            0int
        }
    }
}

proof fn lemma_halve_step(n: int, k: nat)
    ensures
        halve_times(n, k + 1) == halve_times(n, k) / 2,
    decreases k,
{
    if k > 0 {
        lemma_halve_step(n / 2, (k - 1) as nat);
    } else {
        assert(halve_times(n, 1) == halve_times(n / 2, 0));
    }
}

proof fn lemma_halve_nonneg(n: int, k: nat)
    requires
        n >= 0,
    ensures
        halve_times(n, k) >= 0,
    decreases k,
{
    if k > 0 {
        lemma_halve_nonneg(n / 2, (k - 1) as nat);
    }
}

/// For a negative `n`, halving mirrors halving of its complement `-n - 1`.
proof fn lemma_halve_negative(n: int, k: nat)
    requires
        n < 0,
    ensures
        halve_times(n, k) == -halve_times(-n - 1, k) - 1,
    decreases k,
{
    if k > 0 {
        assert(-(n / 2) - 1 == (-n - 1) / 2);
        lemma_halve_negative(n / 2, (k - 1) as nat);
    }
}

/// Widening by one bit appends the lowest bit to the bits of `n / 2`.
proof fn lemma_msb_bits_push(n: int, w: nat)
    ensures
        msb_bits(n, w + 1) == msb_bits(n / 2, w).push(n % 2 == 1),
{
    assert forall|p: int| 0 <= p < w implies #[trigger] msb_bits(n, w + 1)[p] == msb_bits(
        n / 2,
        w,
    )[p] by {
        assert(halve_times(n, (w - p) as nat) == halve_times(n / 2, (w - 1 - p) as nat));
    }
    assert(msb_bits(n, w + 1) =~= msb_bits(n / 2, w).push(n % 2 == 1));
}

pub(crate) proof fn lemma_bits_value_of_msb_bits(i: int, n: nat)
    requires
        0 <= i < pow2(n),
    ensures
        bits_value(msb_bits(i, n)) == i,
    decreases n,
{
    if n == 0 {
        assert(msb_bits(i, n) =~= Seq::<bool>::empty());
        vstd::arithmetic::power2::lemma_pow2(0);
        reveal(vstd::arithmetic::power::pow);
    } else {
        let m = (n - 1) as nat;
        lemma_pow2_unfold(n);
        lemma_msb_bits_push(i, m);
        lemma_bits_value_of_msb_bits(i / 2, m);
        assert(msb_bits(i, n).drop_last() =~= msb_bits(i / 2, m));
    }
}

proof fn lemma_label_value_of_label(v: Seq<bool>)
    ensures
        label_value(label_of(v)) == bits_value(v),
        label_of(v).len() == v.len(),
    decreases v.len(),
{
    if v.len() > 0 {
        lemma_label_value_of_label(v.drop_last());
        assert(label_of(v).drop_last() =~= label_of(v.drop_last()));
    }
}

/// Every vector of width `w` is the encoding of the number that it denotes,
/// and that number is below `2^w`.
pub proof fn lemma_msb_bits_of_value(v: Seq<bool>)
    ensures
        0 <= bits_value(v) < pow2(v.len()),
        msb_bits(bits_value(v), v.len()) == v,
    decreases v.len(),
{
    if v.len() == 0 {
        vstd::arithmetic::power2::lemma_pow2(0);
        reveal(vstd::arithmetic::power::pow);
        assert(msb_bits(0, 0) =~= v);
    } else {
        let u = v.drop_last();
        lemma_msb_bits_of_value(u);
        lemma_pow2_unfold(v.len());
        let x = bits_value(v);
        assert(x / 2 == bits_value(u));
        assert((x % 2 == 1) == v.last());
        lemma_msb_bits_push(x, u.len());
        assert(v =~= u.push(v.last()));
    }
}

/// Encoding is injective on `[0, 2^w)`: it is undone by reading the vector
/// as a binary number.
pub proof fn lemma_index_round_trip(i: int, n: nat)
    requires
        n <= 30,
        0 <= i < pow2(n),
    ensures
        label_of(msb_bits(i, n)).len() == n,
        label_value(label_of(msb_bits(i, n))) == i,
{
    lemma_bits_value_of_msb_bits(i, n);
    lemma_label_value_of_label(msb_bits(i, n));
}

/// The `bits_num` lowest bits of `number` (in two's complement), most
/// significant first; higher bits are dropped.
pub fn int_to_bool_vec(number: i32, bits_num: usize) -> (r: Vec<bool>)
    ensures
        r@ == msb_bits(number as int, bits_num as nat),
{
    let negative = number < 0;
    // For a negative number, the bits are those of its complement, flipped.
    let mut rest: u32 = if negative {
        (-(number + 1)) as u32
    } else {
        number as u32
    };
    let ghost base = rest as int;
    let mut bits: Vec<bool> = Vec::new();
    let mut k: usize = 0;
    while k < bits_num
        invariant
            k <= bits_num,
            bits@.len() == k,
        decreases bits_num - k,
    {
        bits.push(false);
        k = k + 1;
    }
    let mut i: usize = 0;
    while i < bits_num
        invariant
            i <= bits_num,
            bits@.len() == bits_num,
            rest as int == halve_times(base, i as nat),
            base >= 0,
            negative == (number < 0),
            negative ==> base == -(number as int) - 1,
            !negative ==> base == number as int,
            forall|j: int|
                bits_num - i <= j < bits_num ==> #[trigger] bits@[j] == bit_of(
                    number as int,
                    (bits_num - 1 - j) as nat,
                ),
        decreases bits_num - i,
    {
        proof {
            lemma_halve_step(base, i as nat);
            lemma_halve_nonneg(base, i as nat);
            if negative {
                lemma_halve_negative(number as int, i as nat);
            }
        }
        let msb_index = bits_num - i - 1;
        bits.set(msb_index, (rest % 2 == 1) != negative);
        rest = rest / 2;
        i = i + 1;
    }
    assert(bits@ =~= msb_bits(number as int, bits_num as nat));
    bits
}

/// The label of a validity vector.
pub fn bool_vec_to_string(bool_data: &[bool]) -> (r: String)
    ensures
        r@ == label_of(bool_data@),
{
    let mut label = String::new();
    let mut i: usize = 0;
    while i < bool_data.len()
        invariant
            i <= bool_data@.len(),
            label@ == label_of(bool_data@.subrange(0, i as int)),
        decreases bool_data@.len() - i,
    {
        proof {
            reveal_strlit("1");
            reveal_strlit("0");
        }
        if bool_data[i] {
            label.append("1");
        } else {
            label.append("0");
        }
        assert(label_of(bool_data@.subrange(0, i + 1)) =~= label_of(
            bool_data@.subrange(0, i as int),
        ).push(bit_char(bool_data@[i as int])));
        i = i + 1;
    }
    assert(bool_data@.subrange(0, i as int) =~= bool_data@);
    label
}

} // verus!
