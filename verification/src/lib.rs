pub mod compare;
pub mod engine_state;
pub mod gas;
pub mod gas_laws;
pub mod key;
pub mod motes;
pub mod named_keys;
pub mod u512;
