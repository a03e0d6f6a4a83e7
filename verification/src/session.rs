//! Sessions: naming rules, file-name handling for the session store,
//! and replaying a persisted history. Reading and writing the store's
//! files stays with the caller.
pub mod naming;
pub mod store;
