use vstd::prelude::*;

verus! {

/// The numeric value of a big-endian byte sequence.
pub open spec fn be_value(s: Seq<u8>) -> nat
    decreases s.len(),
{
    if s.len() == 0 {
        0
    } else {
        be_value(s.drop_last()) * 256 + (s.last() as nat)
    }
}

/// The minimal big-endian byte sequence of a value: empty exactly for zero.
pub open spec fn pos_be_bytes(n: nat) -> Seq<u8>
    decreases n,
{
    if n == 0 {
        Seq::empty()
    } else {
        pos_be_bytes(n / 256).push((n % 256) as u8)
    }
}

/// The canonical byte encoding of a natural number: minimal big-endian,
/// with zero written as the single byte `[0]`.
pub open spec fn be_bytes_of(n: nat) -> Seq<u8> {
    if n == 0 {
        seq![0u8]
    } else {
        pos_be_bytes(n)
    }
}

pub proof fn lemma_pos_be_bytes_props(n: nat)
    ensures
        be_value(pos_be_bytes(n)) == n,
        n > 0 ==> pos_be_bytes(n).len() >= 1 && pos_be_bytes(n)[0] != 0,
    decreases n,
{
    if n > 0 {
        lemma_pos_be_bytes_props(n / 256);
        let p = pos_be_bytes(n / 256);
        let q = pos_be_bytes(n);
        assert(q == p.push((n % 256) as u8));
        assert(q.drop_last() =~= p);
        if n < 256 {
            assert(n / 256 == 0);
            assert(n % 256 == n);
        } else {
            assert(n / 256 >= 1);
            assert(q[0] == p[0]);
        }
    }
}

pub proof fn lemma_be_bytes_of_value(n: nat)
    ensures
        be_value(be_bytes_of(n)) == n,
        be_bytes_of(n).len() >= 1,
        be_bytes_of(n).len() > 1 ==> be_bytes_of(n)[0] != 0,
{
    lemma_pos_be_bytes_props(n);
    if n == 0 {
        assert(seq![0u8].drop_last() =~= Seq::<u8>::empty());
    }
}

/// An unbounded unsigned integer, stored as its canonical big-endian bytes.
pub struct BigNum {
    bytes: Vec<u8>,
}

impl View for BigNum {
    type V = nat;

    closed spec fn view(&self) -> nat {
        be_value(self.bytes@)
    }
}

impl BigNum {
    /// The stored bytes are exactly the canonical encoding of the value.
    pub closed spec fn wf(&self) -> bool {
        self.bytes@ == be_bytes_of(be_value(self.bytes@))
    }

    pub fn from_u64(v: u64) -> (r: BigNum)
        ensures
            r@ == v,
            r.wf(),
    {
        let mut bytes: Vec<u8> = Vec::new();
        let mut tmp: u64 = v;
        while tmp > 0
            invariant
                pos_be_bytes(v as nat) == pos_be_bytes(tmp as nat) + bytes@,
            decreases tmp,
        {
            let b: u8 = (tmp % 256) as u8;
            proof {
                let t = tmp as nat;
                assert(pos_be_bytes(t) == pos_be_bytes(t / 256).push(b));
                assert(pos_be_bytes(t / 256).push(b) + bytes@
                    =~= pos_be_bytes(t / 256) + (seq![b] + bytes@));
                assert(bytes@.insert(0, b) =~= seq![b] + bytes@);
            }
            bytes.insert(0, b);
            tmp = tmp / 256;
        }
        proof {
            assert(pos_be_bytes(0) + bytes@ =~= bytes@);
            lemma_be_bytes_of_value(v as nat);
            if v == 0 {
                assert(pos_be_bytes(0).len() == 0);
            }
        }
        if bytes.len() == 0 {
            bytes.push(0);
            proof {
                assert(bytes@ =~= seq![0u8]);
            }
        }
        proof {
            lemma_be_bytes_of_value(be_value(bytes@));
        }
        BigNum { bytes }
    }

    /// Relies on num's `BigUint`: `from_bytes_be` reads big-endian bytes,
    /// `Mul<u32>` and `Add<u32>` compute `self * 58 + d`, and `to_bytes_be`
    /// returns the minimal big-endian bytes of the result (`[0]` for zero).
    #[verifier::external_body]
    pub(crate) fn times58_plus(&self, d: u8) -> (r: BigNum)
        ensures
            r@ == self@ * 58 + d,
            r.wf(),
    {
        let n = num::bigint::BigUint::from_bytes_be(&self.bytes) * 58u32 + (d as u32);
        BigNum { bytes: n.to_bytes_be() }
    }

    /// The minimal big-endian bytes of the value; zero is the single byte `[0]`.
    pub fn to_bytes(self) -> (r: Vec<u8>)
        requires
            self.wf(),
        ensures
            r@ == be_bytes_of(self@),
    {
        proof {
            lemma_be_bytes_of_value(be_value(self.bytes@));
        }
        self.bytes
    }
}

/// Zero bytes prepended until the length reaches `len`; longer input unchanged.
pub open spec fn pad_left(s: Seq<u8>, len: int) -> Seq<u8> {
    if s.len() >= len {
        s
    } else {
        Seq::new((len - s.len()) as nat, |i: int| 0u8) + s
    }
}

pub fn pad_to(v: Vec<u8>, len: usize) -> (r: Vec<u8>)
    ensures
        r@ == pad_left(v@, len as int),
{
    let mut tmp: Vec<u8> = v;
    let ghost orig = tmp@;
    while tmp.len() < len
        invariant
            pad_left(tmp@, len as int) == pad_left(orig, len as int),
        decreases len - tmp.len(),
    {
        proof {
            let s = tmp@;
            assert(s.insert(0, 0u8) =~= seq![0u8] + s);
            if s.len() + 1 < len {
                assert(Seq::new((len - (s.len() + 1)) as nat, |i: int| 0u8) + (seq![0u8] + s)
                    =~= Seq::new((len - s.len()) as nat, |i: int| 0u8) + s);
            } else {
                assert(seq![0u8] + s =~= Seq::new((len - s.len()) as nat, |i: int| 0u8) + s);
            }
        }
        tmp.insert(0, 0);
    }
    tmp
}

} // verus!
