//! The Jolt backend: guest and host share one 32-byte register.  A commit
//! stores a value's image in it, a read rebuilds a value from it.  Byte
//! vectors keep at most 32 bytes, and the register remembers how many.
use vstd::prelude::*;
use crate::frame::{le_bytes, le_value, lemma_le_roundtrip};

verus! {

/// `n` zero bytes.
pub open spec fn zeros(n: nat) -> Seq<u8> {
    Seq::new(n, |i: int| 0u8)
}

/// The shared register and the length of the last byte vector committed.
pub struct JoltState {
    state: [u8; 32],
    vec_len: usize,
}

impl JoltState {
    #[verifier::type_invariant]
    spec fn inv(self) -> bool {
        self.vec_len <= 32
    }

    /// The 32 bytes of the register.
    pub closed spec fn register(self) -> Seq<u8> {
        self.state@
    }

    /// How many bytes of the register a byte vector fills.
    pub closed spec fn vec_len(self) -> usize {
        self.vec_len
    }

    /// A register of zeros, holding no vector bytes.
    pub fn new() -> (s: Self)
        ensures
            s.register() == zeros(32),
            s.vec_len() == 0,
    {
        let s = JoltState { state: [0u8; 32], vec_len: 0 };
        assert(s.state@ =~= zeros(32));
        s
    }
}

/// A value that can pass through the register.
pub trait Handle: Sized {
    /// The 32 bytes that committing the value stores.
    spec fn image(&self) -> Seq<u8>;

    /// The recorded vector length after committing the value, given the
    /// one recorded before.
    spec fn len_after(&self, prev: usize) -> usize;

    /// Whether `value` is what reading the register `bytes`, with recorded
    /// vector length `len`, gives back.
    spec fn reads_as(bytes: Seq<u8>, len: usize, value: Self) -> bool;

    fn into_bytes(&self, vec_len: &mut usize) -> (r: [u8; 32])
        requires
            *old(vec_len) <= 32,
        ensures
            r@ == self.image(),
            *final(vec_len) == self.len_after(*old(vec_len)),
            *final(vec_len) <= 32,
    ;

    fn from_bytes(bytes: &[u8; 32], vec_len: usize) -> (r: Self)
        requires
            vec_len <= 32,
        ensures
            Self::reads_as(bytes@, vec_len, r),
    ;
}

impl Handle for u32 {
    /// The four little-endian bytes, then zeros.
    open spec fn image(&self) -> Seq<u8> {
        le_bytes(*self) + zeros(28)
    }

    open spec fn len_after(&self, prev: usize) -> usize {
        prev
    }

    /// The number in the first four bytes, little-endian.
    open spec fn reads_as(bytes: Seq<u8>, len: usize, value: u32) -> bool {
        value == le_value(bytes.take(4))
    }

    fn into_bytes(&self, vec_len: &mut usize) -> (r: [u8; 32]) {
        let n = *self;
        let mut bytes = [0u8; 32];
        bytes[0] = (n % 256) as u8;
        bytes[1] = ((n / 256) % 256) as u8;
        bytes[2] = ((n / 65536) % 256) as u8;
        bytes[3] = (n / 16777216) as u8;
        assert(bytes@ =~= le_bytes(n) + zeros(28));
        bytes
    }

    fn from_bytes(bytes: &[u8; 32], vec_len: usize) -> (r: u32) {
        let b0 = bytes[0] as u32;
        let b1 = bytes[1] as u32;
        let b2 = bytes[2] as u32;
        let b3 = bytes[3] as u32;
        let r = b0 + 256 * b1 + 65536 * b2 + 16777216 * b3;
        assert(bytes@.take(4)[3] == b3);
        r
    }
}

/// The smaller of `n` and 32.
pub open spec fn capped(n: nat) -> nat {
    if n < 32 {
        n
    } else {
        32
    }
}

impl Handle for Vec<u8> {
    /// The first 32 bytes at most, then zeros.
    open spec fn image(&self) -> Seq<u8> {
        self@.take(capped(self@.len()) as int) + zeros((32 - capped(self@.len())) as nat)
    }

    open spec fn len_after(&self, prev: usize) -> usize {
        capped(self@.len()) as usize
    }

    /// The recorded number of leading bytes.
    open spec fn reads_as(bytes: Seq<u8>, len: usize, value: Vec<u8>) -> bool {
        value@ == bytes.take(len as int)
    }

    fn into_bytes(&self, vec_len: &mut usize) -> (r: [u8; 32]) {
        let mut bytes = [0u8; 32];
        let n = if self.len() < 32 {
            self.len()
        } else {
            32
        };
        *vec_len = n;
        let mut i: usize = 0;
        while i < n
            invariant
                n == capped(self@.len()),
                i <= n,
                forall|k: int| 0 <= k < i ==> bytes@[k] == self@[k],
                forall|k: int| i <= k < 32 ==> bytes@[k] == 0u8,
            decreases n - i,
        {
            bytes[i] = self[i];
            i = i + 1;
        }
        assert(bytes@ =~= self.image());
        bytes
    }

    fn from_bytes(bytes: &[u8; 32], vec_len: usize) -> (r: Vec<u8>) {
        let mut out: Vec<u8> = Vec::new();
        let mut i: usize = 0;
        while i < vec_len
            invariant
                vec_len <= 32,
                i <= vec_len,
                out@ == bytes@.take(i as int),
            decreases vec_len - i,
        {
            out.push(bytes[i]);
            i = i + 1;
            assert(out@ =~= bytes@.take(i as int));
        }
        out
    }
}

impl Handle for [u8; 32] {
    /// The array itself.
    open spec fn image(&self) -> Seq<u8> {
        self@
    }

    open spec fn len_after(&self, prev: usize) -> usize {
        prev
    }

    /// The whole register.
    open spec fn reads_as(bytes: Seq<u8>, len: usize, value: [u8; 32]) -> bool {
        value@ == bytes
    }

    fn into_bytes(&self, vec_len: &mut usize) -> (r: [u8; 32]) {
        *self
    }

    fn from_bytes(bytes: &[u8; 32], vec_len: usize) -> (r: [u8; 32]) {
        *bytes
    }
}

/// Stores the image of `value` in the register.
pub fn commit<T: Handle>(jolt: &mut JoltState, value: &T)
    ensures
        final(jolt).register() == value.image(),
        final(jolt).vec_len() == value.len_after(old(jolt).vec_len()),
{
    proof {
        use_type_invariant(&*jolt);
    }
    let mut vec_len = jolt.vec_len;
    let state = value.into_bytes(&mut vec_len);
    *jolt = JoltState { state, vec_len };
}

/// Rebuilds a value from the register.
pub fn read<T: Handle>(jolt: &JoltState) -> (r: T)
    ensures
        T::reads_as(jolt.register(), jolt.vec_len(), r),
{
    proof {
        use_type_invariant(jolt);
    }
    T::from_bytes(&jolt.state, jolt.vec_len)
}

/// Rebuilds a value from the register; the same as `read`.
pub fn read_vec<T: Handle>(jolt: &JoltState) -> (r: T)
    ensures
        T::reads_as(jolt.register(), jolt.vec_len(), r),
{
    proof {
        use_type_invariant(jolt);
    }
    T::from_bytes(&jolt.state, jolt.vec_len)
}

/// A number committed to the register reads back as itself.
pub proof fn lemma_u32_reads_back(n: u32, prev: usize, r: u32)
    requires
        <u32 as Handle>::reads_as(n.image(), n.len_after(prev), r),
    ensures
        r == n,
{
    lemma_le_roundtrip(n);
    assert(n.image().take(4) =~= le_bytes(n));
}

/// Committing a byte vector fills the register with the vector's first
/// bytes, at most 32, and zeros after them; read as a 32-byte array, the
/// register gives back exactly that.
pub proof fn lemma_vec_image_zero_padded(v: Vec<u8>, prev: usize, r: [u8; 32])
    requires
        <[u8; 32] as Handle>::reads_as(v.image(), prev, r),
    ensures
        v.image().len() == 32,
        v.len_after(prev) == if v@.len() < 32 {
            v@.len()
        } else {
            32
        },
        forall|k: int| 0 <= k < 32 && k < v@.len() ==> #[trigger] v.image()[k] == v@[k],
        forall|k: int| 0 <= k < 32 && k >= v@.len() ==> #[trigger] v.image()[k] == 0u8,
        forall|k: int| 0 <= k < 32 && k < v@.len() ==> #[trigger] r@[k] == v@[k],
        forall|k: int| 0 <= k < 32 && k >= v@.len() ==> #[trigger] r@[k] == 0u8,
{
}

/// Committing a number fills the register with its four bytes in base 256,
/// the lowest first, and zeros after them.
pub proof fn lemma_u32_image(n: u32)
    ensures
        n.image().len() == 32,
        n.image()[0] + 256 * n.image()[1] + 65536 * n.image()[2] + 16777216 * n.image()[3] == n,
        forall|k: int| 4 <= k < 32 ==> #[trigger] n.image()[k] == 0u8,
{
    lemma_le_roundtrip(n);
    let b = le_bytes(n);
    assert(n.image()[0] == b[0] && n.image()[1] == b[1] && n.image()[2] == b[2] && n.image()[3]
        == b[3]);
}

/// A 32-byte array committed to the register reads back as itself.
pub proof fn lemma_array_reads_back(a: [u8; 32], prev: usize, r: [u8; 32])
    requires
        <[u8; 32] as Handle>::reads_as(a.image(), a.len_after(prev), r),
    ensures
        r@ == a@,
{
}

/// A byte vector committed to the register reads back as its first 32
/// bytes at most: the whole vector when it is no longer than 32.
pub proof fn lemma_vec_reads_back(v: Vec<u8>, prev: usize, r: Vec<u8>)
    requires
        <Vec<u8> as Handle>::reads_as(v.image(), v.len_after(prev), r),
    ensures
        r@ == v@.take(capped(v@.len()) as int),
        v@.len() <= 32 ==> r@ == v@,
{
    let m = capped(v@.len()) as int;
    assert(v.image().take(m) =~= v@.take(m));
    if v@.len() <= 32 {
        assert(v@.take(m) =~= v@);
    }
}

} // verus!
