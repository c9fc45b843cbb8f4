//! Cross-guild relay core: the pairing store, the relay resolver, and the
//! confirmation state machine that drives a pairing from proposal to
//! activity. Each event handler is a step from the store and an event to the
//! next store and the actions for the gateway to carry out.
pub mod commands;
pub mod confirm;
pub mod errors;
pub mod laws;
pub mod log;
pub mod model;
pub mod relay;
pub mod store;
