use vstd::prelude::*;

verus! {

// Deterministic, versionless binary layout shared by every persisted record:
// fixed-width integers are little-endian, variable-length fields carry a
// `u32` little-endian length prefix, and nothing is padded.

/// Little-endian bytes of a `u32`, the layout of index keys and length
/// prefixes.
pub open spec fn spec_le32(x: u32) -> Seq<u8> {
    vstd::bytes::spec_u32_to_le_bytes(x)
}

/// Little-endian bytes of a `u64`.
pub open spec fn spec_le64(x: u64) -> Seq<u8> {
    vstd::bytes::spec_u64_to_le_bytes(x)
}

/// Little-endian bytes of a `u128`.
pub open spec fn spec_le128(x: u128) -> Seq<u8> {
    vstd::bytes::spec_u128_to_le_bytes(x)
}

pub fn le32(x: u32) -> (r: Vec<u8>)
    ensures
        r@ == spec_le32(x),
        r@.len() == 4,
{
    proof {
        vstd::bytes::lemma_auto_spec_u32_to_from_le_bytes();
    }
    vstd::bytes::u32_to_le_bytes(x)
}

pub fn le64(x: u64) -> (r: Vec<u8>)
    ensures
        r@ == spec_le64(x),
        r@.len() == 8,
{
    proof {
        vstd::bytes::lemma_auto_spec_u64_to_from_le_bytes();
    }
    vstd::bytes::u64_to_le_bytes(x)
}

pub fn le128(x: u128) -> (r: Vec<u8>)
    ensures
        r@ == spec_le128(x),
        r@.len() == 16,
{
    proof {
        vstd::bytes::lemma_auto_spec_u128_to_from_le_bytes();
    }
    vstd::bytes::u128_to_le_bytes(x)
}

/// Owned copy of a byte slice.
pub fn copy_bytes(src: &[u8]) -> (r: Vec<u8>)
    ensures
        r@ == src@,
{
    let mut out: Vec<u8> = Vec::new();
    let mut i: usize = 0;
    while i < src.len()
        invariant
            i <= src@.len(),
            out@ == src@.take(i as int),
        decreases src@.len() - i,
    {
        out.push(src[i]);
        i = i + 1;
        proof {
            assert(out@ =~= src@.take(i as int));
        }
    }
    proof {
        assert(src@.take(src@.len() as int) =~= src@);
    }
    out
}

/// Byte-wise equality of two slices.
pub fn bytes_eq(a: &[u8], b: &[u8]) -> (r: bool)
    ensures
        r == (a@ == b@),
{
    if a.len() != b.len() {
        return false;
    }
    let mut i: usize = 0;
    while i < a.len()
        invariant
            a@.len() == b@.len(),
            i <= a@.len(),
            forall|j: int| 0 <= j < i ==> a@[j] == b@[j],
        decreases a@.len() - i,
    {
        if a[i] != b[i] {
            return false;
        }
        i = i + 1;
    }
    proof {
        assert(a@ =~= b@);
    }
    true
}

/// `a` followed by `b`.
pub fn concat_bytes(a: &[u8], b: &[u8]) -> (r: Vec<u8>)
    ensures
        r@ == a@ + b@,
{
    let mut out = copy_bytes(a);
    let mut i: usize = 0;
    while i < b.len()
        invariant
            i <= b@.len(),
            out@ == a@ + b@.take(i as int),
        decreases b@.len() - i,
    {
        out.push(b[i]);
        i = i + 1;
        proof {
            assert(out@ =~= a@ + b@.take(i as int));
        }
    }
    proof {
        assert(a@ + b@.take(b@.len() as int) =~= a@ + b@);
    }
    out
}

/// The lowercase hex digit for a value below sixteen, as an ASCII byte.
pub open spec fn spec_hex_digit(n: u8) -> u8
    recommends
        n < 16,
{
    if n < 10 {
        (0x30 + n) as u8
    } else {
        (0x57 + n) as u8
    }
}

/// The lowercase hex spelling of a byte string, as ASCII bytes, two digits
/// per byte.
pub open spec fn spec_hex_bytes(s: Seq<u8>) -> Seq<u8>
    decreases s.len(),
{
    if s.len() == 0 {
        Seq::empty()
    } else {
        spec_hex_bytes(s.drop_last())
            + seq![spec_hex_digit(s.last() / 16), spec_hex_digit(s.last() % 16)]
    }
}

/// Every byte of a hex spelling is printable ASCII.
pub proof fn lemma_hex_bytes_ascii(s: Seq<u8>)
    ensures
        forall|i: int| 0 <= i < spec_hex_bytes(s).len() ==> spec_hex_bytes(s)[i] < 128,
    decreases s.len(),
{
    if s.len() > 0 {
        lemma_hex_bytes_ascii(s.drop_last());
        let h = spec_hex_bytes(s);
        let hp = spec_hex_bytes(s.drop_last());
        assert forall|i: int| 0 <= i < h.len() implies h[i] < 128 by {
            if i < hp.len() {
                assert(h[i] == hp[i]);
            } else {
                assert(h[i] == seq![
                    spec_hex_digit(s.last() / 16),
                    spec_hex_digit(s.last() % 16),
                ][i - hp.len()]);
            }
        }
    }
}

fn hex_digit(n: u8) -> (r: u8)
    requires
        n < 16,
    ensures
        r == spec_hex_digit(n),
{
    if n < 10 {
        0x30 + n
    } else {
        0x57 + n
    }
}

/// Lowercase hex spelling of `data`, as ASCII bytes.
pub fn hex_bytes(data: &[u8]) -> (r: Vec<u8>)
    ensures
        r@ == spec_hex_bytes(data@),
{
    let mut out: Vec<u8> = Vec::new();
    let mut i: usize = 0;
    while i < data.len()
        invariant
            i <= data@.len(),
            out@ == spec_hex_bytes(data@.take(i as int)),
        decreases data@.len() - i,
    {
        let b = data[i];
        out.push(hex_digit(b / 16));
        out.push(hex_digit(b % 16));
        i = i + 1;
        proof {
            let t = data@.take(i as int);
            assert(t.drop_last() =~= data@.take(i as int - 1));
            assert(t.last() == data@[i as int - 1]);
            assert(out@ =~= spec_hex_bytes(t.drop_last())
                + seq![spec_hex_digit(t.last() / 16), spec_hex_digit(t.last() % 16)]);
        }
    }
    proof {
        assert(data@.take(data@.len() as int) =~= data@);
    }
    out
}

/// Whether an ASCII byte is a hex digit, either case.
pub open spec fn spec_is_hex_digit(c: u8) -> bool {
    (0x30 <= c && c <= 0x39) || (0x61 <= c && c <= 0x66) || (0x41 <= c && c <= 0x46)
}

/// The value of a hex digit byte.
pub open spec fn spec_hex_val(c: u8) -> u8
    recommends
        spec_is_hex_digit(c),
{
    if 0x30 <= c && c <= 0x39 {
        (c - 0x30) as u8
    } else if 0x61 <= c && c <= 0x66 {
        (c - 0x61 + 10) as u8
    } else {
        (c - 0x41 + 10) as u8
    }
}

fn is_hex_digit(c: u8) -> (r: bool)
    ensures
        r == spec_is_hex_digit(c),
{
    (0x30 <= c && c <= 0x39) || (0x61 <= c && c <= 0x66) || (0x41 <= c && c <= 0x46)
}

fn hex_val(c: u8) -> (r: u8)
    requires
        spec_is_hex_digit(c),
    ensures
        r == spec_hex_val(c),
        r < 16,
{
    if 0x30 <= c && c <= 0x39 {
        c - 0x30
    } else if 0x61 <= c && c <= 0x66 {
        c - 0x61 + 10
    } else {
        c - 0x41 + 10
    }
}

/// Decodes an ASCII hex spelling, either case, two digits per byte; absent
/// on an odd length or any non-digit byte.
pub fn hex_decode(s: &[u8]) -> (r: Option<Vec<u8>>)
    ensures
        match r {
            Some(b) => {
                &&& s@.len() % 2 == 0
                &&& forall|i: int| 0 <= i < s@.len() ==> spec_is_hex_digit(#[trigger] s@[i])
                &&& b@.len() == s@.len() / 2
                &&& forall|i: int|
                    0 <= i < b@.len() ==> #[trigger] b@[i] == 16 * spec_hex_val(s@[2 * i])
                        + spec_hex_val(s@[2 * i + 1])
            },
            None => s@.len() % 2 != 0 || exists|i: int|
                0 <= i < s@.len() && !spec_is_hex_digit(#[trigger] s@[i]),
        },
{
    if s.len() % 2 != 0 {
        return None;
    }
    let mut out: Vec<u8> = Vec::new();
    let mut i: usize = 0;
    while i < s.len()
        invariant
            s@.len() % 2 == 0,
            i <= s@.len(),
            i % 2 == 0,
            forall|j: int| 0 <= j < i ==> spec_is_hex_digit(#[trigger] s@[j]),
            out@.len() == i / 2,
            forall|j: int|
                0 <= j < out@.len() ==> #[trigger] out@[j] == 16 * spec_hex_val(s@[2 * j])
                    + spec_hex_val(s@[2 * j + 1]),
        decreases s@.len() - i,
    {
        let hi = s[i];
        let lo = s[i + 1];
        if !is_hex_digit(hi) || !is_hex_digit(lo) {
            return None;
        }
        out.push(16 * hex_val(hi) + hex_val(lo));
        i = i + 2;
    }
    Some(out)
}

/// Relies on String::from_utf8: ASCII bytes become the string of those
/// characters.
#[verifier::external_body]
pub(crate) fn ascii_to_string(bytes: &Vec<u8>) -> (r: String)
    requires
        forall|i: int| 0 <= i < bytes@.len() ==> bytes@[i] < 128,
    ensures
        r@.len() == bytes@.len(),
        forall|i: int| 0 <= i < bytes@.len() ==> r@[i] == bytes@[i] as char,
{
    String::from_utf8(bytes.clone()).unwrap_or_default()
}

/// The serialization contract every stored element obeys: a deterministic
/// encoding to bytes, an exec encoder and decoder faithful to it, and
/// injectivity, so that a decoded record pins down the value that was
/// written.
pub trait Storable: Sized {
    /// The bytes this value is persisted as.
    spec fn encoded(&self) -> Seq<u8>;

    /// Two values with the same encoding are the same value.
    proof fn encoded_injective(a: Self, b: Self)
        requires
            a.encoded() == b.encoded(),
        ensures
            a == b,
    ;

    /// Every encoding fits the host's length counter.
    proof fn encoded_fits(&self)
        ensures
            self.encoded().len() < u64::MAX,
    ;

    fn to_bytes(&self) -> (r: Vec<u8>)
        ensures
            r@ == self.encoded(),
    ;

    fn from_bytes(bytes: &[u8]) -> (r: Option<Self>)
        ensures
            match r {
                Some(v) => v.encoded() == bytes@,
                None => forall|v: Self| #[trigger] v.encoded() != bytes@,
            },
    ;
}

/// The unsigned 32-bit image of an `i32`, two's complement.
pub open spec fn spec_i32_bits(x: i32) -> u32 {
    if x >= 0 {
        x as u32
    } else {
        (x + 0x1_0000_0000) as u32
    }
}

impl Storable for u32 {
    open spec fn encoded(&self) -> Seq<u8> {
        spec_le32(*self)
    }

    proof fn encoded_injective(a: Self, b: Self) {
        vstd::bytes::lemma_auto_spec_u32_to_from_le_bytes();
        assert(vstd::bytes::spec_u32_to_le_bytes(a).len() == 4);
        assert(vstd::bytes::spec_u32_to_le_bytes(b).len() == 4);
    }

    proof fn encoded_fits(&self) {
        vstd::bytes::lemma_auto_spec_u32_to_from_le_bytes();
        assert(vstd::bytes::spec_u32_to_le_bytes(*self).len() == 4);
    }

    fn to_bytes(&self) -> (r: Vec<u8>) {
        le32(*self)
    }

    fn from_bytes(bytes: &[u8]) -> (r: Option<Self>) {
        proof {
            vstd::bytes::lemma_auto_spec_u32_to_from_le_bytes();
        }
        if bytes.len() == 4 {
            Some(vstd::bytes::u32_from_le_bytes(bytes))
        } else {
            None
        }
    }
}

impl Storable for u64 {
    open spec fn encoded(&self) -> Seq<u8> {
        spec_le64(*self)
    }

    proof fn encoded_injective(a: Self, b: Self) {
        vstd::bytes::lemma_auto_spec_u64_to_from_le_bytes();
        assert(vstd::bytes::spec_u64_to_le_bytes(a).len() == 8);
        assert(vstd::bytes::spec_u64_to_le_bytes(b).len() == 8);
    }

    proof fn encoded_fits(&self) {
        vstd::bytes::lemma_auto_spec_u64_to_from_le_bytes();
        assert(vstd::bytes::spec_u64_to_le_bytes(*self).len() == 8);
    }

    fn to_bytes(&self) -> (r: Vec<u8>) {
        le64(*self)
    }

    fn from_bytes(bytes: &[u8]) -> (r: Option<Self>) {
        proof {
            vstd::bytes::lemma_auto_spec_u64_to_from_le_bytes();
        }
        if bytes.len() == 8 {
            Some(vstd::bytes::u64_from_le_bytes(bytes))
        } else {
            None
        }
    }
}

impl Storable for i32 {
    open spec fn encoded(&self) -> Seq<u8> {
        spec_le32(spec_i32_bits(*self))
    }

    proof fn encoded_injective(a: Self, b: Self) {
        vstd::bytes::lemma_auto_spec_u32_to_from_le_bytes();
        assert(vstd::bytes::spec_u32_to_le_bytes(spec_i32_bits(a)).len() == 4);
        assert(vstd::bytes::spec_u32_to_le_bytes(spec_i32_bits(b)).len() == 4);
    }

    proof fn encoded_fits(&self) {
        vstd::bytes::lemma_auto_spec_u32_to_from_le_bytes();
        assert(vstd::bytes::spec_u32_to_le_bytes(spec_i32_bits(*self)).len() == 4);
    }

    fn to_bytes(&self) -> (r: Vec<u8>) {
        let bits: u32 = if *self >= 0 {
            *self as u32
        } else {
            ((*self as i64) + 0x1_0000_0000i64) as u32
        };
        le32(bits)
    }

    fn from_bytes(bytes: &[u8]) -> (r: Option<Self>) {
        proof {
            vstd::bytes::lemma_auto_spec_u32_to_from_le_bytes();
        }
        if bytes.len() == 4 {
            let bits = vstd::bytes::u32_from_le_bytes(bytes);
            let v: i32 = if bits < 0x8000_0000u32 {
                bits as i32
            } else {
                ((bits as i64) - 0x1_0000_0000i64) as i32
            };
            proof {
                assert(spec_i32_bits(v) == bits);
            }
            Some(v)
        } else {
            None
        }
    }
}

} // verus!
