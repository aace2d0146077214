//! A DNS relay core: per-question routing of queries to upstream resolvers,
//! order-preserving collection of their answers, and assembly of the reply.

pub mod assemble;
pub mod codec;
pub mod dispatch;
pub mod laws;
pub mod message;
pub mod name;
pub mod outcome;
pub mod relay;
pub mod routing;
pub mod size;
