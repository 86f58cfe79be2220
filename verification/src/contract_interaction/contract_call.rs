use vstd::prelude::*;

use vstd::string::StringSliceAdditionalSpecFns;

use crate::codec::{concat_bytes, le128, le32, spec_le128, spec_le32};
use crate::types::primitives::Address;

verus! {

/// One cross-contract call, ready to be handed to the host.
pub struct ContractCall {
    /// The target contract address.
    pub contract_address: Address,
    /// The method that should be called in the target contract.
    pub method_name: String,
    /// Serialized arguments that will be passed to the method.
    pub args: Vec<u8>,
    /// Whether this call should be read-only.
    pub read_only: bool,
    /// Fee limit for the call, ignored for a read-only call.
    pub fee_limit: u128,
}

impl ContractCall {
    /// The bytes the call crosses the boundary as: the raw address, the
    /// length-prefixed method name, the length-prefixed arguments, one
    /// byte for the read-only flag, and the little-endian fee limit.
    pub open spec fn spec_encoded(&self) -> Seq<u8> {
        self.contract_address@ + spec_le32(vstd::utf8::encode_utf8(self.method_name@).len() as u32)
            + vstd::utf8::encode_utf8(self.method_name@) + spec_le32(self.args@.len() as u32) + self.args@
            + seq![if self.read_only { 1u8 } else { 0u8 }] + spec_le128(self.fee_limit)
    }

    /// Serializes the call. Both variable-length fields must fit the
    /// length prefix.
    pub fn to_bytes(&self) -> (r: Vec<u8>)
        requires
            vstd::utf8::encode_utf8(self.method_name@).len() <= u32::MAX,
            self.args@.len() <= u32::MAX,
        ensures
            r@ == self.spec_encoded(),
    {
        let name_bytes = self.method_name.as_str().as_bytes();
        let mut out = self.contract_address.to_vec();
        let name_len = le32(name_bytes.len() as u32);
        out = concat_bytes(out.as_slice(), name_len.as_slice());
        out = concat_bytes(out.as_slice(), name_bytes);
        let args_len = le32(self.args.len() as u32);
        out = concat_bytes(out.as_slice(), args_len.as_slice());
        out = concat_bytes(out.as_slice(), self.args.as_slice());
        out.push(if self.read_only { 1u8 } else { 0u8 });
        let fee = le128(self.fee_limit);
        out = concat_bytes(out.as_slice(), fee.as_slice());
        proof {
            assert(out@ =~= self.spec_encoded());
        }
        out
    }
}

} // verus!
