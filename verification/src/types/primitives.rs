use vstd::prelude::*;

use vstd::string::StringSliceAdditionalSpecFns;

use crate::codec::{
    ascii_to_string, copy_bytes, hex_bytes, hex_decode, lemma_hex_bytes_ascii,
    spec_hex_bytes,
};

verus! {

broadcast use vstd::array::group_array_axioms;

/// An account balance.
pub type Balance = u128;

/// A per-account transaction counter.
pub type Nonce = u128;

/// A block height.
pub type BlockNumber = u64;

/// A block timestamp.
pub type TimeStamp = u64;

/// A block timestamp, as the environment reports it.
pub type BlockTimeStamp = TimeStamp;

/// A 32-byte block hash.
pub type BlockHash = [u8; 32];

/// A register handle.
pub type RegisterId = u64;

/// A host call status code.
pub type ReturnCode = u64;

/// The hex spelling of a byte string, as characters.
pub open spec fn spec_hex_str(s: Seq<u8>) -> Seq<char> {
    spec_hex_bytes(s).map_values(|b: u8| b as char)
}

/// A 20-byte account address.
#[derive(Clone, Copy, PartialEq, Eq, Hash, Debug)]
pub struct Address([u8; 20]);

impl View for Address {
    type V = Seq<u8>;

    closed spec fn view(&self) -> Seq<u8> {
        self.0@
    }
}

impl Default for Address {
    /// The all-zero address.
    fn default() -> (r: Self)
        ensures
            r@ == Seq::new(20, |i: int| 0u8),
    {
        let r = Address([0u8; 20]);
        proof {
            assert(r@ =~= Seq::new(20, |i: int| 0u8));
        }
        r
    }
}

impl Address {
    /// Every address is exactly twenty bytes.
    pub proof fn lemma_len(&self)
        ensures
            self@.len() == 20,
    {
    }

    /// Two addresses with the same bytes are the same address.
    pub proof fn lemma_view_injective(a: Address, b: Address)
        requires
            a@ == b@,
        ensures
            a == b,
    {
        assert(a.0 =~= b.0);
    }

    /// The address built from twenty raw bytes.
    pub fn from_array(bytes: [u8; 20]) -> (r: Self)
        ensures
            r@ == bytes@,
    {
        Address(bytes)
    }

    /// The lowercase hex spelling of the address, two digits per byte.
    pub fn to_string(&self) -> (r: String)
        ensures
            r@ == spec_hex_str(self@),
    {
        let h = hex_bytes(self.0.as_slice());
        proof {
            lemma_hex_bytes_ascii(self@);
        }
        let r = ascii_to_string(&h);
        proof {
            assert(r@ =~= spec_hex_str(self@));
        }
        r
    }

    /// The address bytes as an owned vector.
    pub fn to_vec(&self) -> (r: Vec<u8>)
        ensures
            r@ == self@,
    {
        copy_bytes(self.0.as_slice())
    }

    /// The address holding the twenty bytes of `address`.
    pub fn test_create_address(address: &Vec<u8>) -> (r: Self)
        requires
            address@.len() == 20,
        ensures
            r@ == address@,
    {
        let mut bytes = [0u8; 20];
        let mut i: usize = 0;
        while i < 20
            invariant
                address@.len() == 20,
                i <= 20,
                bytes@.len() == 20,
                forall|j: int| 0 <= j < i ==> bytes@[j] == address@[j],
            decreases 20 - i,
        {
            bytes[i] = address[i];
            i = i + 1;
        }
        proof {
            assert(bytes@ =~= address@);
        }
        Address(bytes)
    }

    /// The address holding the twenty bytes of `value`; an error on any
    /// other length.
    pub fn from_vec(value: &Vec<u8>) -> (r: Result<Self, String>)
        ensures
            match r {
                Ok(a) => value@.len() == 20 && a@ == value@,
                Err(_) => value@.len() != 20,
            },
    {
        if value.len() == 20 {
            Ok(Self::test_create_address(value))
        } else {
            Err("can't create an address from a vector of this length".to_owned())
        }
    }

    /// The address spelled by a hex string of forty digits; an error on any
    /// other shape.
    pub fn from_hex(value: &str) -> (r: Result<Self, String>)
        ensures
            match r {
                Ok(a) => spec_hex_decodes_to(value.spec_bytes(), a@),
                Err(_) => !(exists|b: Seq<u8>| spec_hex_decodes_to(value.spec_bytes(), b)
                    && b.len() == 20),
            },
    {
        let bytes = value.as_bytes();
        match hex_decode(bytes) {
            Some(decoded) => {
                if decoded.len() == 20 {
                    let a = Self::test_create_address(&decoded);
                    proof {
                        assert(spec_hex_decodes_to(bytes@, a@));
                    }
                    Ok(a)
                } else {
                    proof {
                        assert forall|b: Seq<u8>|
                            spec_hex_decodes_to(bytes@, b) implies b.len() != 20 by {
                            assert(b.len() == bytes@.len() / 2);
                        }
                    }
                    Err("can't create an address from a hex string of this length".to_owned())
                }
            },
            None => {
                proof {
                    assert forall|b: Seq<u8>|
                        !spec_hex_decodes_to(bytes@, b) by {}
                }
                Err("can't create an address from a non-hex string".to_owned())
            },
        }
    }
}

/// Whether the ASCII hex spelling `s` decodes, either case, to exactly the
/// bytes `b`.
pub open spec fn spec_hex_decodes_to(s: Seq<u8>, b: Seq<u8>) -> bool {
    &&& s.len() % 2 == 0
    &&& forall|i: int| 0 <= i < s.len() ==> crate::codec::spec_is_hex_digit(#[trigger] s[i])
    &&& b.len() == s.len() / 2
    &&& forall|i: int|
        0 <= i < b.len() ==> #[trigger] b[i] == 16 * crate::codec::spec_hex_val(s[2 * i])
            + crate::codec::spec_hex_val(s[2 * i + 1])
}

} // verus!
