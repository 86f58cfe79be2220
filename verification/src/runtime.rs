pub mod account;
pub mod account_manager;
pub mod blockchain_env;
pub mod env_manager;
pub mod mock_env;
pub mod registers;
pub mod storage_map;
pub mod vm_api;
pub mod vm_logic;
