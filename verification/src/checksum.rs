//! The content checksum: Adler-32 over the packet bytes, in decode order.

use vstd::prelude::*;

verus! {

/// The two running sums of Adler-32: `a` is one plus the sum of the bytes,
/// `b` the sum of every value `a` has had, both modulo 65521.
pub struct Sums {
    pub a: int,
    pub b: int,
}

/// The sums before any byte.
pub open spec fn initial() -> Sums {
    Sums { a: 1, b: 0 }
}

/// Both sums lie below the modulus.
pub open spec fn reduced(sums: Sums) -> bool {
    0 <= sums.a < 65521 && 0 <= sums.b < 65521
}

/// The sums after one more byte.
pub open spec fn step(sums: Sums, byte: u8) -> Sums {
    let a = (sums.a + byte) % 65521;
    Sums { a, b: (sums.b + a) % 65521 }
}

/// The sums after `bytes`, starting from `sums`.
pub open spec fn extend(sums: Sums, bytes: Seq<u8>) -> Sums
    decreases bytes.len(),
{
    if bytes.len() == 0 {
        sums
    } else {
        step(extend(sums, bytes.drop_last()), bytes.last())
    }
}

/// The 32-bit checksum that holds `b` in its high and `a` in its low half.
pub open spec fn pack(sums: Sums) -> int {
    sums.b * 0x1_0000 + sums.a
}

/// The two halves of a 32-bit checksum.
pub open spec fn unpack(sum: int) -> Sums {
    Sums { a: sum % 0x1_0000, b: sum / 0x1_0000 }
}

/// Adler-32 of a byte sequence.
pub open spec fn adler32(bytes: Seq<u8>) -> int {
    pack(extend(initial(), bytes))
}

/// Packing reduced sums loses nothing, and the result fits in 32 bits.
pub proof fn lemma_pack_unpack(sums: Sums)
    requires
        reduced(sums),
    ensures
        unpack(pack(sums)) == sums,
        0 <= pack(sums) <= u32::MAX,
{
}

/// Every number of steps keeps the sums reduced.
pub proof fn lemma_extend_reduced(sums: Sums, bytes: Seq<u8>)
    requires
        reduced(sums),
    ensures
        reduced(extend(sums, bytes)),
    decreases bytes.len(),
{
    if bytes.len() > 0 {
        lemma_extend_reduced(sums, bytes.drop_last());
    }
}

/// Feeding two chunks one after the other is feeding their concatenation.
pub proof fn lemma_extend_concat(sums: Sums, first: Seq<u8>, second: Seq<u8>)
    ensures
        extend(sums, first + second) == extend(extend(sums, first), second),
    decreases second.len(),
{
    if second.len() > 0 {
        assert((first + second).drop_last() =~= first + second.drop_last());
        lemma_extend_concat(sums, first, second.drop_last());
    }
}

/// The checksum of a stream does not depend on where it was cut into chunks.
pub proof fn lemma_chunking_is_invisible(first: Seq<u8>, second: Seq<u8>)
    ensures
        adler32(first + second) == pack(extend(extend(initial(), first), second)),
{
    lemma_extend_concat(initial(), first, second);
}

/// Adding the same amount to two different residues keeps them different.
proof fn lemma_shift_keeps_apart(left: int, right: int, shift: int)
    requires
        0 <= left < 65521,
        0 <= right < 65521,
        0 <= shift < 65521,
        left != right,
    ensures
        (left + shift) % 65521 != (right + shift) % 65521,
{
}

/// Reduced sums that agree after the same byte agreed before it.
pub proof fn lemma_step_injective(left: Sums, right: Sums, byte: u8)
    requires
        reduced(left),
        reduced(right),
        step(left, byte) == step(right, byte),
    ensures
        left == right,
{
    if left.a != right.a {
        lemma_shift_keeps_apart(left.a, right.a, byte as int);
    }
    if left.b != right.b {
        lemma_shift_keeps_apart(left.b, right.b, step(left, byte).a);
    }
}

/// Reduced sums that agree after the same bytes agreed before them.
pub proof fn lemma_extend_injective(left: Sums, right: Sums, bytes: Seq<u8>)
    requires
        reduced(left),
        reduced(right),
        extend(left, bytes) == extend(right, bytes),
    ensures
        left == right,
    decreases bytes.len(),
{
    if bytes.len() > 0 {
        lemma_extend_reduced(left, bytes.drop_last());
        lemma_extend_reduced(right, bytes.drop_last());
        lemma_step_injective(
            extend(left, bytes.drop_last()),
            extend(right, bytes.drop_last()),
            bytes.last(),
        );
        lemma_extend_injective(left, right, bytes.drop_last());
    }
}

/// Two streams that differ after a common prefix and then go on alike have
/// different checksums as soon as their sums differ where they part.
proof fn lemma_difference_survives(prefix: Seq<u8>, one: Seq<u8>, other: Seq<u8>, suffix: Seq<u8>)
    requires
        extend(extend(initial(), prefix), one) != extend(extend(initial(), prefix), other),
    ensures
        adler32(prefix + one + suffix) != adler32(prefix + other + suffix),
{
    let before = extend(initial(), prefix);
    lemma_extend_reduced(initial(), prefix);
    lemma_extend_reduced(before, one);
    lemma_extend_reduced(before, other);
    lemma_extend_concat(initial(), prefix, one);
    lemma_extend_concat(initial(), prefix, other);
    lemma_extend_concat(initial(), prefix + one, suffix);
    lemma_extend_concat(initial(), prefix + other, suffix);
    let left = extend(extend(before, one), suffix);
    let right = extend(extend(before, other), suffix);
    lemma_extend_reduced(extend(before, one), suffix);
    lemma_extend_reduced(extend(before, other), suffix);
    if left == right {
        lemma_extend_injective(extend(before, one), extend(before, other), suffix);
    }
    lemma_pack_unpack(left);
    lemma_pack_unpack(right);
}

/// Replacing one byte by a different one always changes the checksum.
pub proof fn lemma_substitution_detected(
    prefix: Seq<u8>,
    old_byte: u8,
    new_byte: u8,
    suffix: Seq<u8>,
)
    requires
        old_byte != new_byte,
    ensures
        adler32(prefix + seq![old_byte] + suffix) != adler32(prefix + seq![new_byte] + suffix),
{
    let before = extend(initial(), prefix);
    lemma_extend_reduced(initial(), prefix);
    lemma_single(before, old_byte);
    lemma_single(before, new_byte);
    lemma_shift_keeps_apart(old_byte as int, new_byte as int, before.a);
    lemma_difference_survives(prefix, seq![old_byte], seq![new_byte], suffix);
}

/// Exchanging two unequal neighbouring bytes always changes the checksum.
pub proof fn lemma_transposition_detected(
    prefix: Seq<u8>,
    first: u8,
    second: u8,
    suffix: Seq<u8>,
)
    requires
        first != second,
    ensures
        adler32(prefix + seq![first, second] + suffix) != adler32(
            prefix + seq![second, first] + suffix,
        ),
{
    let before = extend(initial(), prefix);
    lemma_extend_reduced(initial(), prefix);
    lemma_pair(before, first, second);
    lemma_pair(before, second, first);
    let one = step(before, first);
    let other = step(before, second);
    lemma_shift_keeps_apart(first as int, second as int, before.a);
    lemma_shift_keeps_apart(one.a, other.a, before.b);
    if step(one, second) == step(other, first) {
        lemma_shift_keeps_apart(one.b, other.b, step(one, second).a);
    }
    lemma_difference_survives(prefix, seq![first, second], seq![second, first], suffix);
}

/// Cutting off the last byte always changes the checksum, unless that byte
/// is zero.
pub proof fn lemma_truncation_detected(bytes: Seq<u8>, last: u8)
    requires
        last != 0,
    ensures
        adler32(bytes.push(last)) != adler32(bytes),
{
    let before = extend(initial(), bytes);
    lemma_extend_reduced(initial(), bytes);
    lemma_extend_reduced(initial(), bytes.push(last));
    assert(bytes.push(last).drop_last() =~= bytes);
    lemma_shift_keeps_apart(last as int, 0, before.a);
    lemma_pack_unpack(before);
    lemma_pack_unpack(step(before, last));
}

proof fn lemma_single(sums: Sums, byte: u8)
    ensures
        extend(sums, seq![byte]) == step(sums, byte),
{
    assert(extend(sums, seq![byte].drop_last()) == sums);
}

proof fn lemma_pair(sums: Sums, first: u8, second: u8)
    ensures
        extend(sums, seq![first, second]) == step(step(sums, first), second),
{
    assert(seq![first, second].drop_last() =~= seq![first]);
    lemma_single(sums, first);
}

/// `adler::Adler32::from_checksum`, `Adler32::write_slice` and
/// `Adler32::checksum`, in that order: a calculation is resumed from the
/// 32-bit checksum `sum`, fed `bytes`, and read back. The crate folds each
/// byte into its two sums modulo 65521, which `extend` writes out. The two
/// halves must come in reduced, as they do from the crate itself.
#[verifier::external_body]
fn resume(sum: u32, bytes: &[u8]) -> (next: u32)
    requires
        reduced(unpack(sum as int)),
    ensures
        next == pack(extend(unpack(sum as int), bytes@)),
{
    let mut hasher = adler::Adler32::from_checksum(sum);
    hasher.write_slice(bytes);
    hasher.checksum()
}

/// A running Adler-32 checksum over everything written so far.
pub struct Checksum {
    sum: u32,
    written: Ghost<Seq<u8>>,
}

impl View for Checksum {
    type V = Seq<u8>;

    /// The bytes written so far, in order.
    closed spec fn view(&self) -> Seq<u8> {
        self.written@
    }
}

impl Checksum {
    #[verifier::type_invariant]
    spec fn consistent(self) -> bool {
        self.sum == adler32(self.written@)
    }

    /// A checksum that has seen no byte yet.
    pub fn new() -> (fresh: Self)
        ensures
            fresh@ == Seq::<u8>::empty(),
    {
        Checksum { sum: 1, written: Ghost(Seq::empty()) }
    }

    /// Appends `bytes` to what the checksum covers.
    pub fn write(&mut self, bytes: &[u8])
        ensures
            final(self)@ == old(self)@ + bytes@,
    {
        proof {
            use_type_invariant(&*self);
            lemma_extend_reduced(initial(), self.written@);
            lemma_pack_unpack(extend(initial(), self.written@));
            lemma_extend_concat(initial(), self.written@, bytes@);
        }
        let next = resume(self.sum, bytes);
        *self = Checksum { sum: next, written: Ghost(self.written@ + bytes@) };
    }

    /// The checksum of everything written, widened to 64 bits.
    pub fn finish(&self) -> (sum: u64)
        ensures
            sum == adler32(self@),
    {
        proof {
            use_type_invariant(self);
        }
        self.sum as u64
    }
}

} // verus!
