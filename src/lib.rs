pub mod ascii;
pub mod errors;
pub mod events;
pub mod order_key;
pub mod registry;
pub mod lifecycle;
pub mod invocation;
pub mod termination;
pub mod commands;
