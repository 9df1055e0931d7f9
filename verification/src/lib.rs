//! Redpanda transport: the Kafka wire protocol to a Redpanda broker, with the
//! Admin API — brokers, cluster configuration, maintenance — consulted before
//! a Location takes work.
//!
//! Here stand the decisions: what is asked of whom, what an answer means, and
//! what follows from it. Sockets, HTTP and the Kafka wire protocol are the
//! caller's.

pub mod admin;
pub mod admin_laws;
pub mod fault;
pub mod json;
pub mod laws;
pub mod session;
pub mod session_laws;
pub mod text;
pub mod text_laws;
pub mod transport;
pub mod transport_laws;

pub use admin::{Admin, Broker, Call, ConfigStatus, Reply};
pub use fault::Fault;
pub use session::{AdminRequest, AdminSession, Accepted};
pub use transport::{
    Arrived, Delivery, Dial, Heard, Record, RedpandaTransport, Step,
};
