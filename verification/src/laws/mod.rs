//! What the parts of the engine promise, said in terms of what goes in and what
//! comes out.

pub mod activities;
pub mod configuration;
pub mod delivery;
pub mod documents;
pub mod messages;
pub mod placeholders;
pub mod routing;
pub mod streams;
pub mod text;
