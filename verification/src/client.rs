//! What a client asks of the nodes, and what it reports of their answers.
pub mod request;
