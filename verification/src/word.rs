//! The 256-bit machine word of the VM, held as 32 big-endian bytes.

use vstd::arithmetic::div_mod::lemma_fundamental_div_mod_converse;
use vstd::prelude::*;

verus! {

/// `256^k`.
pub open spec fn pow256(k: nat) -> nat
    decreases k,
{
    if k == 0 {
        1
    } else {
        256 * pow256((k - 1) as nat)
    }
}

/// The unsigned integer that `bytes` spell in big-endian order.
pub open spec fn be_value(bytes: Seq<u8>) -> nat
    decreases bytes.len(),
{
    if bytes.len() == 0 {
        0
    } else {
        be_value(bytes.drop_last()) * 256 + bytes.last() as nat
    }
}

/// A big-endian number of `n` bytes is below `256^n`.
pub proof fn lemma_be_value_bound(bytes: Seq<u8>)
    ensures
        be_value(bytes) < pow256(bytes.len()),
    decreases bytes.len(),
{
    if bytes.len() > 0 {
        lemma_be_value_bound(bytes.drop_last());
    }
}

/// Cutting a big-endian number `k` bytes before its end splits its value
/// into a high part, scaled by `256^k`, and a low part.
pub proof fn lemma_be_value_split(bytes: Seq<u8>, k: nat)
    requires
        k <= bytes.len(),
    ensures
        be_value(bytes) == be_value(bytes.take(bytes.len() - k)) * pow256(k) + be_value(
            bytes.skip(bytes.len() - k),
        ),
    decreases k,
{
    let n = bytes.len() as int;
    if k == 0 {
        assert(bytes.take(n) =~= bytes);
        assert(bytes.skip(n).len() == 0);
        assert(be_value(bytes.skip(n)) == 0);
        assert(pow256(0) == 1);
    } else {
        let front = bytes.drop_last();
        lemma_be_value_split(front, (k - 1) as nat);
        assert(front.take(n - k) =~= bytes.take(n - k));
        let low = bytes.skip(n - k);
        assert(low.drop_last() =~= front.skip(n - k));
        assert(low.last() == bytes.last());
        let high_value = be_value(bytes.take(n - k));
        let low_front = be_value(front.skip(n - k));
        let p = pow256((k - 1) as nat);
        assert(be_value(front) == high_value * p + low_front);
        assert(be_value(low) == low_front * 256 + bytes.last() as nat);
        assert(be_value(bytes) == be_value(front) * 256 + bytes.last() as nat);
        assert(pow256(k) == 256 * p);
        assert((high_value * p + low_front) * 256 == high_value * (256 * p) + low_front * 256)
            by (nonlinear_arith);
    }
}

/// A big-endian number is zero exactly when all its bytes are.
pub proof fn lemma_be_value_zero(bytes: Seq<u8>)
    ensures
        be_value(bytes) == 0 <==> forall|i: int| 0 <= i < bytes.len() ==> bytes[i] == 0,
    decreases bytes.len(),
{
    if bytes.len() > 0 {
        let front = bytes.drop_last();
        lemma_be_value_zero(front);
        if be_value(bytes) == 0 {
            assert forall|i: int| 0 <= i < bytes.len() implies bytes[i] == 0 by {
                if i < front.len() {
                    assert(front[i] == bytes[i]);
                }
            }
        }
        if forall|i: int| 0 <= i < bytes.len() ==> bytes[i] == 0 {
            assert forall|i: int| 0 <= i < front.len() implies front[i] == 0 by {
                assert(front[i] == bytes[i]);
            }
        }
    }
}

/// One machine word: 32 bytes, most significant first.
#[derive(Clone, Copy, Debug, PartialEq, Eq)]
pub struct Word {
    pub bytes: [u8; 32],
}

impl View for Word {
    type V = Seq<u8>;

    open spec fn view(&self) -> Seq<u8> {
        self.bytes@
    }
}

impl Word {
    /// The unsigned integer that the word holds.
    pub open spec fn value(&self) -> nat {
        be_value(self.bytes@)
    }

    /// The word whose bytes are all zero.
    pub fn zero() -> (word: Word)
        ensures
            word.value() == 0,
            forall|i: int| 0 <= i < 32 ==> word@[i] == 0,
    {
        let word = Word { bytes: [0u8; 32] };
        proof {
            lemma_be_value_zero(word.bytes@);
        }
        word
    }

    /// The word that holds `bytes`, most significant byte first.
    pub fn from_be_bytes(bytes: [u8; 32]) -> (word: Word)
        ensures
            word@ == bytes@,
    {
        Word { bytes }
    }

    /// The word that holds the number `value`.
    pub fn from_u64(value: u64) -> (word: Word)
        ensures
            word.value() == value,
    {
        let mut bytes = [0u8; 32];
        let mut rest: u64 = value;
        let mut i: usize = 32;
        proof {
            assert(be_value(bytes@.skip(32)) == 0);
            assert(pow256(0) == 1);
            assert(rest * pow256(0) == rest);
        }
        while i > 24
            invariant
                24 <= i <= 32,
                forall|j: int| 0 <= j < i ==> bytes@[j] == 0,
                value == rest * pow256((32 - i) as nat) + be_value(bytes@.skip(i as int)),
            decreases i,
        {
            let ghost before = bytes@;
            i = i - 1;
            bytes[i] = (rest % 256) as u8;
            proof {
                let low = bytes@.skip(i as int);
                lemma_be_value_split(low, (31 - i) as nat);
                assert(low.skip(1) =~= before.skip(i + 1));
                assert(low.take(1).drop_last().len() == 0);
                assert(be_value(low.take(1)) == (rest % 256) as nat) by {
                    reveal_with_fuel(be_value, 2);
                }
                let p = pow256((31 - i) as nat);
                assert(pow256((32 - i) as nat) == 256 * p);
                assert(rest * p == (rest / 256) * (256 * p) + (rest % 256) * p)
                    by (nonlinear_arith)
                    requires
                        rest == (rest / 256) * 256 + rest % 256,
                ;
            }
            rest = rest / 256;
        }
        proof {
            reveal_with_fuel(pow256, 9);
            assert(pow256(8) == 0x1_0000_0000_0000_0000);
            assert(rest == 0) by (nonlinear_arith)
                requires
                    rest * 0x1_0000_0000_0000_0000 <= value,
                    value < 0x1_0000_0000_0000_0000,
            ;
            lemma_be_value_split(bytes@, 8);
            lemma_be_value_zero(bytes@.take(24));
        }
        Word { bytes }
    }

    /// The low 32 bits of the word.
    pub fn low_u32(&self) -> (low: u32)
        ensures
            low == self.value() % 0x1_0000_0000,
    {
        let b0: u32 = self.bytes[28] as u32;
        let b1: u32 = self.bytes[29] as u32;
        let b2: u32 = self.bytes[30] as u32;
        let b3: u32 = self.bytes[31] as u32;
        let low: u32 = ((b0 * 256 + b1) * 256 + b2) * 256 + b3;
        proof {
            let tail = self.bytes@.skip(28);
            lemma_be_value_split(self.bytes@, 4);
            lemma_be_value_tail4(tail);
            reveal_with_fuel(pow256, 5);
            lemma_fundamental_div_mod_converse(
                self.value() as int,
                0x1_0000_0000,
                be_value(self.bytes@.take(28)) as int,
                low as int,
            );
        }
        low
    }

    /// The word as a 32-bit number, where it is one.
    pub fn to_u32(&self) -> (narrow: Option<u32>)
        ensures
            narrow == if self.value() <= u32::MAX {
                Some(self.value() as u32)
            } else {
                None::<u32>
            },
    {
        let clear = self.leading_zeros(28);
        let low: u32 = self.low_u32();
        proof {
            lemma_be_value_split(self.bytes@, 4);
            lemma_be_value_bound(self.bytes@.skip(28));
            lemma_be_value_zero(self.bytes@.take(28));
            reveal_with_fuel(pow256, 5);
            let high = be_value(self.bytes@.take(28));
            if high > 0 {
                assert(high * 0x1_0000_0000 >= 0x1_0000_0000) by (nonlinear_arith)
                    requires
                        high >= 1,
                ;
            }
        }
        if clear {
            Some(low)
        } else {
            None
        }
    }

    /// Whether the number that the word holds fits in 64 bits.
    pub fn fits_u64(&self) -> (fits: bool)
        ensures
            fits == (self.value() <= u64::MAX),
    {
        let clear = self.leading_zeros(24);
        proof {
            lemma_be_value_split(self.bytes@, 8);
            lemma_be_value_bound(self.bytes@.skip(24));
            lemma_be_value_zero(self.bytes@.take(24));
            reveal_with_fuel(pow256, 9);
            let high = be_value(self.bytes@.take(24));
            if high > 0 {
                assert(high * 0x1_0000_0000_0000_0000 >= 0x1_0000_0000_0000_0000)
                    by (nonlinear_arith)
                    requires
                        high >= 1,
                ;
            }
        }
        clear
    }

    /// Whether the first `count` bytes of the word are all zero.
    fn leading_zeros(&self, count: usize) -> (clear: bool)
        requires
            count <= 32,
        ensures
            clear == forall|i: int| 0 <= i < count ==> self.bytes@.take(count as int)[i] == 0,
    {
        let mut i: usize = 0;
        while i < count
            invariant
                i <= count <= 32,
                forall|j: int| 0 <= j < i ==> self.bytes@[j] == 0,
            decreases count - i,
        {
            if self.bytes[i] != 0 {
                assert(self.bytes@.take(count as int)[i as int] != 0);
                return false;
            }
            i = i + 1;
        }
        true
    }
}

/// The value of four big-endian bytes, written out.
pub proof fn lemma_be_value_tail4(tail: Seq<u8>)
    requires
        tail.len() == 4,
    ensures
        be_value(tail) == ((tail[0] * 256 + tail[1]) * 256 + tail[2]) * 256 + tail[3],
{
    let t3 = tail.drop_last();
    let t2 = t3.drop_last();
    let t1 = t2.drop_last();
    assert(t1.drop_last().len() == 0);
    assert(be_value(t1) == tail[0] as nat) by {
        reveal_with_fuel(be_value, 2);
    }
    assert(be_value(t2) == be_value(t1) * 256 + tail[1] as nat);
    assert(be_value(t3) == be_value(t2) * 256 + tail[2] as nat);
}

} // verus!
