//! Fixed-width integers as byte sequences, least or most significant byte first.

use vstd::prelude::*;

verus! {

/// `256` to the power `n`: the number of values that `n` bytes can hold.
pub open spec fn pow256(n: nat) -> nat
    decreases n,
{
    if n == 0 {
        1
    } else {
        256 * pow256((n - 1) as nat)
    }
}

/// The `n` low-order bytes of `v`, least significant byte first.
pub open spec fn le_bytes(v: nat, n: nat) -> Seq<u8>
    decreases n,
{
    if n == 0 {
        Seq::<u8>::empty()
    } else {
        seq![(v % 256) as u8] + le_bytes(v / 256, (n - 1) as nat)
    }
}

/// The number that `bytes` spells, least significant byte first.
pub open spec fn le_value(bytes: Seq<u8>) -> nat
    decreases bytes.len(),
{
    if bytes.len() == 0 {
        0
    } else {
        bytes[0] as nat + 256 * le_value(bytes.drop_first())
    }
}

/// The number that `bytes` spells, most significant byte first.
pub open spec fn be_value(bytes: Seq<u8>) -> nat
    decreases bytes.len(),
{
    if bytes.len() == 0 {
        0
    } else {
        256 * be_value(bytes.drop_last()) + bytes.last() as nat
    }
}

pub proof fn lemma_pow256_values()
    ensures
        pow256(0) == 1,
        pow256(1) == 0x100,
        pow256(2) == 0x1_0000,
        pow256(4) == 0x1_0000_0000,
        pow256(8) == 0x1_0000_0000_0000_0000,
{
    reveal_with_fuel(pow256, 9);
}

pub proof fn lemma_pow256_monotonic(a: nat, b: nat)
    requires
        a <= b,
    ensures
        1 <= pow256(a) <= pow256(b),
    decreases b,
{
    if a > 0 {
        lemma_pow256_monotonic((a - 1) as nat, (b - 1) as nat);
    } else if b > 0 {
        lemma_pow256_monotonic(0, (b - 1) as nat);
    }
}

pub proof fn lemma_le_bytes_len(v: nat, n: nat)
    ensures
        le_bytes(v, n).len() == n,
    decreases n,
{
    if n > 0 {
        lemma_le_bytes_len(v / 256, (n - 1) as nat);
    }
}

/// Byte `i` of the little-endian form of `v`.
pub proof fn lemma_le_bytes_index(v: nat, n: nat, i: nat)
    requires
        i < n,
    ensures
        le_bytes(v, n).len() == n,
        i == 0 ==> le_bytes(v, n)[0] == (v % 256) as u8,
        i > 0 ==> le_bytes(v, n)[i as int] == le_bytes(v / 256, (n - 1) as nat)[i - 1],
{
    lemma_le_bytes_len(v, n);
    lemma_le_bytes_len(v / 256, (n - 1) as nat);
}

pub proof fn lemma_le_value_bound(bytes: Seq<u8>)
    ensures
        le_value(bytes) < pow256(bytes.len()),
    decreases bytes.len(),
{
    if bytes.len() > 0 {
        lemma_le_value_bound(bytes.drop_first());
    }
}

pub proof fn lemma_be_value_bound(bytes: Seq<u8>)
    ensures
        be_value(bytes) < pow256(bytes.len()),
    decreases bytes.len(),
{
    if bytes.len() > 0 {
        lemma_be_value_bound(bytes.drop_last());
    }
}

/// A number that fits in `n` bytes is what its `n` bytes spell.
pub proof fn lemma_le_value_of_le_bytes(v: nat, n: nat)
    requires
        v < pow256(n),
    ensures
        le_value(le_bytes(v, n)) == v,
    decreases n,
{
    if n > 0 {
        lemma_le_bytes_len(v, n);
        lemma_le_value_of_le_bytes(v / 256, (n - 1) as nat);
        assert(le_bytes(v, n).drop_first() =~= le_bytes(v / 256, (n - 1) as nat));
    }
}

/// Reads the `n`-byte little-endian number at `at`.
pub fn read_le(bytes: &[u8], at: usize, n: usize) -> (v: u64)
    requires
        n <= 8,
        at + n <= bytes@.len(),
    ensures
        v == le_value(bytes@.subrange(at as int, at + n)),
        v < pow256(n as nat),
{
    let mut v: u64 = 0;
    let mut i: usize = n;
    assert(bytes@.subrange(at as int + i, at + n) =~= Seq::<u8>::empty());
    while i > 0
        invariant
            i <= n <= 8,
            at + n <= bytes.len(),
            v == le_value(bytes@.subrange(at + i, at + n)),
        decreases i,
    {
        let ghost tail = bytes@.subrange(at + i, at + n);
        i = i - 1;
        proof {
            let longer = bytes@.subrange(at + i, at + n);
            assert(longer.drop_first() =~= tail);
            lemma_le_value_bound(longer);
            lemma_pow256_monotonic(longer.len(), 8);
            lemma_pow256_values();
        }
        v = v * 256 + bytes[at + i] as u64;
    }
    proof {
        lemma_le_value_bound(bytes@.subrange(at as int, at + n));
    }
    v
}

/// Whether `bytes` begins with `prefix`.
pub fn starts_with(bytes: &[u8], prefix: &[u8]) -> (r: bool)
    ensures
        r == prefix@.is_prefix_of(bytes@),
{
    if bytes.len() < prefix.len() {
        return false;
    }
    let mut i: usize = 0;
    while i < prefix.len()
        invariant
            i <= prefix.len() <= bytes.len(),
            forall|j: int| 0 <= j < i ==> bytes@[j] == prefix@[j],
        decreases prefix.len() - i,
    {
        if bytes[i] != prefix[i] {
            assert(bytes@.subrange(0, prefix@.len() as int)[i as int] != prefix@[i as int]);
            return false;
        }
        i = i + 1;
    }
    assert(bytes@.subrange(0, prefix@.len() as int) =~= prefix@);
    true
}

/// Reads the `n`-byte big-endian number at `at`.
pub fn read_be(bytes: &[u8], at: usize, n: usize) -> (v: u64)
    requires
        n <= 8,
        at + n <= bytes@.len(),
    ensures
        v == be_value(bytes@.subrange(at as int, at + n)),
        v < pow256(n as nat),
{
    let mut v: u64 = 0;
    let mut i: usize = 0;
    while i < n
        invariant
            i <= n <= 8,
            at + n <= bytes.len(),
            v == be_value(bytes@.subrange(at as int, at + i)),
        decreases n - i,
    {
        proof {
            let longer = bytes@.subrange(at as int, at + i + 1);
            assert(longer.drop_last() =~= bytes@.subrange(at as int, at + i));
            lemma_be_value_bound(longer);
            lemma_pow256_monotonic(longer.len(), 8);
            lemma_pow256_values();
        }
        v = v * 256 + bytes[at + i] as u64;
        i = i + 1;
    }
    proof {
        lemma_be_value_bound(bytes@.subrange(at as int, at + n));
    }
    v
}

/// The `n` low-order bytes of `v`, least significant byte first.
pub fn write_le(v: u64, n: usize) -> (bytes: Vec<u8>)
    ensures
        bytes@ == le_bytes(v as nat, n as nat),
{
    let mut bytes: Vec<u8> = Vec::new();
    let mut rest: u64 = v;
    let mut i: usize = 0;
    while i < n
        invariant
            i <= n,
            bytes@ + le_bytes(rest as nat, (n - i) as nat) == le_bytes(v as nat, n as nat),
        decreases n - i,
    {
        let ghost before = bytes@;
        let low: u8 = (rest % 256) as u8;
        bytes.push(low);
        proof {
            let tail = le_bytes((rest / 256) as nat, (n - i - 1) as nat);
            assert(before.push(low) + tail =~= before + (seq![low] + tail));
        }
        rest = rest / 256;
        i = i + 1;
    }
    assert(bytes@ + le_bytes(rest as nat, 0) =~= bytes@);
    bytes
}

/// An unsigned integer as it lies in guest memory: least significant byte first.
pub trait GuestObj: Copy {
    /// How many bytes the integer takes.
    spec fn width() -> nat;

    /// The integer's numeric value.
    spec fn value(self) -> nat;

    proof fn lemma_bounds(self)
        ensures
            1 <= Self::width() <= 8,
            self.value() < pow256(Self::width()),
    ;

    fn size() -> (n: usize)
        ensures
            n == Self::width(),
            1 <= n <= 8,
    ;

    fn to_u64(self) -> (v: u64)
        ensures
            v == self.value(),
    ;

    fn from_u64(v: u64) -> (r: Self)
        requires
            v < pow256(Self::width()),
        ensures
            r.value() == v,
    ;
}

impl GuestObj for u8 {
    open spec fn width() -> nat {
        1
    }

    open spec fn value(self) -> nat {
        self as nat
    }

    proof fn lemma_bounds(self) {
        lemma_pow256_values();
    }

    fn size() -> (n: usize) {
        1
    }

    fn to_u64(self) -> (v: u64) {
        self as u64
    }

    fn from_u64(v: u64) -> (r: Self) {
        proof {
            lemma_pow256_values();
        }
        v as u8
    }
}

impl GuestObj for u16 {
    open spec fn width() -> nat {
        2
    }

    open spec fn value(self) -> nat {
        self as nat
    }

    proof fn lemma_bounds(self) {
        lemma_pow256_values();
    }

    fn size() -> (n: usize) {
        2
    }

    fn to_u64(self) -> (v: u64) {
        self as u64
    }

    fn from_u64(v: u64) -> (r: Self) {
        proof {
            lemma_pow256_values();
        }
        v as u16
    }
}

impl GuestObj for u32 {
    open spec fn width() -> nat {
        4
    }

    open spec fn value(self) -> nat {
        self as nat
    }

    proof fn lemma_bounds(self) {
        lemma_pow256_values();
    }

    fn size() -> (n: usize) {
        4
    }

    fn to_u64(self) -> (v: u64) {
        self as u64
    }

    fn from_u64(v: u64) -> (r: Self) {
        proof {
            lemma_pow256_values();
        }
        v as u32
    }
}

impl GuestObj for u64 {
    open spec fn width() -> nat {
        8
    }

    open spec fn value(self) -> nat {
        self as nat
    }

    proof fn lemma_bounds(self) {
        lemma_pow256_values();
    }

    fn size() -> (n: usize) {
        8
    }

    fn to_u64(self) -> (v: u64) {
        self
    }

    fn from_u64(v: u64) -> (r: Self) {
        v
    }
}

/// The number that the two bytes at `at` spell, the low one first.
pub open spec fn two_bytes(b: Seq<u8>, at: int) -> int {
    b[at] + 0x100 * b[at + 1]
}

/// The number that the four bytes at `at` spell, the lowest one first.
pub open spec fn four_bytes(b: Seq<u8>, at: int) -> int {
    b[at] + 0x100 * b[at + 1] + 0x1_0000 * b[at + 2] + 0x100_0000 * b[at + 3]
}

/// The number that the eight bytes at `at` spell, the lowest one first.
pub open spec fn eight_bytes(b: Seq<u8>, at: int) -> int {
    b[at] + 0x100 * b[at + 1] + 0x1_0000 * b[at + 2] + 0x100_0000 * b[at + 3] + 0x1_0000_0000 * b[at
        + 4] + 0x100_0000_0000 * b[at + 5] + 0x1_0000_0000_0000 * b[at + 6] + 0x100_0000_0000_0000
        * b[at + 7]
}

/// Each byte of a little-endian number weighs 256 times as much as the one before it.
pub proof fn law_little_endian(b: Seq<u8>)
    ensures
        b.len() == 1 ==> le_value(b) == b[0],
        b.len() == 2 ==> le_value(b) == two_bytes(b, 0),
        b.len() == 4 ==> le_value(b) == four_bytes(b, 0),
        b.len() == 8 ==> le_value(b) == eight_bytes(b, 0),
{
    reveal_with_fuel(le_value, 9);
}

/// The same of a part of a longer sequence.
pub proof fn law_little_endian_within(b: Seq<u8>, at: int)
    requires
        0 <= at,
    ensures
        at + 1 <= b.len() ==> le_value(b.subrange(at, at + 1)) == b[at],
        at + 2 <= b.len() ==> le_value(b.subrange(at, at + 2)) == two_bytes(b, at),
        at + 4 <= b.len() ==> le_value(b.subrange(at, at + 4)) == four_bytes(b, at),
        at + 8 <= b.len() ==> le_value(b.subrange(at, at + 8)) == eight_bytes(b, at),
{
    law_little_endian(b.subrange(at, at + 1));
    law_little_endian(b.subrange(at, at + 2));
    law_little_endian(b.subrange(at, at + 4));
    law_little_endian(b.subrange(at, at + 8));
}

/// Each byte of a big-endian number weighs 256 times as much as the one behind it.
pub proof fn law_big_endian(b: Seq<u8>)
    ensures
        b.len() == 4 ==> be_value(b) == b[3] + 0x100 * b[2] + 0x1_0000 * b[1] + 0x100_0000 * b[0],
        b.len() == 8 ==> be_value(b) == b[7] + 0x100 * b[6] + 0x1_0000 * b[5] + 0x100_0000 * b[4]
            + 0x1_0000_0000 * b[3] + 0x100_0000_0000 * b[2] + 0x1_0000_0000_0000 * b[1]
            + 0x100_0000_0000_0000 * b[0],
{
    reveal_with_fuel(be_value, 9);
}

/// Writing a number out, low byte first, gives the bytes that spell it.
pub proof fn law_written_numbers_spell(v: nat)
    ensures
        v < 0x100 ==> le_bytes(v, 1).len() == 1 && le_bytes(v, 1)[0] == v,
        v < 0x1_0000 ==> le_bytes(v, 2).len() == 2 && two_bytes(le_bytes(v, 2), 0) == v,
        v < 0x1_0000_0000 ==> le_bytes(v, 4).len() == 4 && four_bytes(le_bytes(v, 4), 0) == v,
        v < 0x1_0000_0000_0000_0000 ==> le_bytes(v, 8).len() == 8 && eight_bytes(le_bytes(v, 8), 0)
            == v,
{
    lemma_pow256_values();
    lemma_le_bytes_len(v, 1);
    lemma_le_bytes_len(v, 2);
    lemma_le_bytes_len(v, 4);
    lemma_le_bytes_len(v, 8);
    law_little_endian(le_bytes(v, 1));
    law_little_endian(le_bytes(v, 2));
    law_little_endian(le_bytes(v, 4));
    law_little_endian(le_bytes(v, 8));
    if v < 0x100 {
        lemma_le_value_of_le_bytes(v, 1);
    }
    if v < 0x1_0000 {
        lemma_le_value_of_le_bytes(v, 2);
    }
    if v < 0x1_0000_0000 {
        lemma_le_value_of_le_bytes(v, 4);
    }
    if v < 0x1_0000_0000_0000_0000 {
        lemma_le_value_of_le_bytes(v, 8);
    }
}

/// The integers of guest memory take up as many bytes as their types have, and stand for
/// themselves.
pub proof fn law_guest_objects(a: u8, b: u16, c: u32, d: u64)
    ensures
        <u8 as GuestObj>::width() == 1 && a.value() == a,
        <u16 as GuestObj>::width() == 2 && b.value() == b,
        <u32 as GuestObj>::width() == 4 && c.value() == c,
        <u64 as GuestObj>::width() == 8 && d.value() == d,
{
}

} // verus!
