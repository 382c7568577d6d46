//! Subscription execution for a GraphQL server: compiling a subscription operation
//! into the event types it reacts to, the registry of live subscriber channels that
//! published events fan out to, and the heartbeat state machine of a connection.

pub mod selection;
pub mod stub;
pub mod registry;
pub mod session;
pub mod schema;
