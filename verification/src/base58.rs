use vstd::prelude::*;

use crate::bignum::BigNum;

verus! {

/// The value of `c` as a base58 digit: its position in the alphabet
/// `123456789ABCDEFGHJKLMNPQRSTUVWXYZabcdefghijkmnopqrstuvwxyz`,
/// or -1 when `c` is not in the alphabet.
pub open spec fn b58_digit_of(c: char) -> int {
    let u = c as int;
    if ('1' as int) <= u && u <= ('9' as int) {
        u - ('1' as int)
    } else if ('A' as int) <= u && u <= ('H' as int) {
        u - ('A' as int) + 9
    } else if ('J' as int) <= u && u <= ('N' as int) {
        u - ('J' as int) + 17
    } else if ('P' as int) <= u && u <= ('Z' as int) {
        u - ('P' as int) + 22
    } else if ('a' as int) <= u && u <= ('k' as int) {
        u - ('a' as int) + 33
    } else if ('m' as int) <= u && u <= ('z' as int) {
        u - ('m' as int) + 44
    } else {
        -1
    }
}

pub open spec fn is_b58_char(c: char) -> bool {
    b58_digit_of(c) >= 0
}

pub open spec fn all_b58(s: Seq<char>) -> bool {
    forall|i: int| 0 <= i < s.len() ==> is_b58_char(s[i])
}

/// The digit value of a character, zero outside the alphabet.
pub open spec fn digit_val(c: char) -> nat {
    if is_b58_char(c) {
        b58_digit_of(c) as nat
    } else {
        0
    }
}

/// The base58 numeric value of a character sequence, most significant first.
pub open spec fn b58_value(s: Seq<char>) -> nat
    decreases s.len(),
{
    if s.len() == 0 {
        0
    } else {
        b58_value(s.drop_last()) * 58 + digit_val(s.last())
    }
}

/// 58 raised to the power `k`.
pub open spec fn pow58(k: nat) -> nat
    decreases k,
{
    if k == 0 {
        1
    } else {
        58 * pow58((k - 1) as nat)
    }
}

proof fn lemma_pow58_pos(k: nat)
    ensures
        pow58(k) >= 1,
    decreases k,
{
    if k > 0 {
        lemma_pow58_pos((k - 1) as nat);
    }
}

/// A string whose leading digit is not zero-valued decodes to at least
/// the weight of its leading position.
proof fn lemma_b58_value_lower(s: Seq<char>)
    requires
        s.len() > 0,
        b58_digit_of(s[0]) >= 1,
    ensures
        b58_value(s) >= pow58((s.len() - 1) as nat),
    decreases s.len(),
{
    if s.len() == 1 {
        assert(s.last() == s[0]);
    } else {
        assert(s.drop_last()[0] == s[0]);
        lemma_b58_value_lower(s.drop_last());
    }
}

/// Decoding is injective on minimal representations: two alphabet-only
/// strings without a leading zero-valued digit that decode to the same
/// numeric value are the same string.
pub proof fn lemma_b58_value_injective(a: Seq<char>, b: Seq<char>)
    requires
        all_b58(a),
        all_b58(b),
        a.len() > 0 ==> b58_digit_of(a[0]) != 0,
        b.len() > 0 ==> b58_digit_of(b[0]) != 0,
        b58_value(a) == b58_value(b),
    ensures
        a == b,
    decreases a.len(),
{
    if a.len() == 0 {
        if b.len() > 0 {
            assert(is_b58_char(b[0]));
            lemma_b58_value_lower(b);
            lemma_pow58_pos((b.len() - 1) as nat);
            assert(false);
        }
        assert(a =~= b);
    } else if b.len() == 0 {
        assert(is_b58_char(a[0]));
        lemma_b58_value_lower(a);
        lemma_pow58_pos((a.len() - 1) as nat);
        assert(false);
    } else {
        let va = b58_value(a.drop_last());
        let vb = b58_value(b.drop_last());
        let da = digit_val(a.last());
        let db = digit_val(b.last());
        assert(is_b58_char(a.last()) && is_b58_char(b.last()));
        assert(da < 58 && db < 58);
        vstd::arithmetic::div_mod::lemma_fundamental_div_mod_converse(
            (va * 58 + da) as int,
            58,
            va as int,
            da as int,
        );
        vstd::arithmetic::div_mod::lemma_fundamental_div_mod_converse(
            (vb * 58 + db) as int,
            58,
            vb as int,
            db as int,
        );
        assert(va == vb && da == db);
        assert(b58_digit_of(a.last()) == b58_digit_of(b.last()));
        assert((a.last() as int) == (b.last() as int));
        assert(a.last() == b.last());
        assert(all_b58(a.drop_last())) by {
            assert(forall|j: int|
                0 <= j < a.len() - 1 ==> a.drop_last()[j] == a[j] && is_b58_char(a[j]));
        }
        assert(all_b58(b.drop_last())) by {
            assert(forall|j: int|
                0 <= j < b.len() - 1 ==> b.drop_last()[j] == b[j] && is_b58_char(b[j]));
        }
        if a.len() > 1 {
            assert(a.drop_last()[0] == a[0]);
        }
        if b.len() > 1 {
            assert(b.drop_last()[0] == b[0]);
        }
        lemma_b58_value_injective(a.drop_last(), b.drop_last());
        assert(a.len() == b.len());
        assert forall|i: int| 0 <= i < a.len() implies a[i] == b[i] by {
            if i < a.len() - 1 {
                assert(a[i] == a.drop_last()[i]);
                assert(b[i] == b.drop_last()[i]);
            } else {
                assert(a[i] == a.last());
                assert(b[i] == b.last());
            }
        }
        assert(a =~= b);
    }
}

fn b58_digit(c: char) -> (r: Option<u8>)
    ensures
        r is Some <==> is_b58_char(c),
        r matches Some(d) ==> d == b58_digit_of(c),
{
    let u = c as u32;
    if ('1' as u32) <= u && u <= ('9' as u32) {
        Some((u - ('1' as u32)) as u8)
    } else if ('A' as u32) <= u && u <= ('H' as u32) {
        Some((u - ('A' as u32) + 9) as u8)
    } else if ('J' as u32) <= u && u <= ('N' as u32) {
        Some((u - ('J' as u32) + 17) as u8)
    } else if ('P' as u32) <= u && u <= ('Z' as u32) {
        Some((u - ('P' as u32) + 22) as u8)
    } else if ('a' as u32) <= u && u <= ('k' as u32) {
        Some((u - ('a' as u32) + 33) as u8)
    } else if ('m' as u32) <= u && u <= ('z' as u32) {
        Some((u - ('m' as u32) + 44) as u8)
    } else {
        None
    }
}

/// Decodes a base58 string into its numeric value, read left to right with
/// an accumulator. Fails exactly when some character is outside the alphabet.
pub fn decode_base58(bc: &str) -> (r: Option<BigNum>)
    ensures
        r is Some <==> all_b58(bc@),
        r matches Some(b) ==> b.wf() && b@ == b58_value(bc@),
{
    let n = bc.unicode_len();
    let mut res = BigNum::from_u64(0);
    let mut i: usize = 0;
    while i < n
        invariant
            i <= n,
            n == bc@.len(),
            forall|j: int| 0 <= j < i ==> is_b58_char(bc@[j]),
            res.wf(),
            res@ == b58_value(bc@.take(i as int)),
        decreases n - i,
    {
        let c = bc.get_char(i);
        match b58_digit(c) {
            None => {
                assert(!is_b58_char(bc@[i as int]));
                return None;
            },
            Some(d) => {
                res = res.times58_plus(d);
                proof {
                    assert(bc@.take(i + 1).drop_last() =~= bc@.take(i as int));
                    assert(bc@.take(i + 1).last() == bc@[i as int]);
                }
            },
        }
        i = i + 1;
    }
    proof {
        assert(bc@.take(n as int) =~= bc@);
    }
    Some(res)
}

} // verus!
