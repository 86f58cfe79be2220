pub mod contract_call;

pub use contract_call::ContractCall;
