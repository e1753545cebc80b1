//! A concurrent TCP port scanner's decision core: validating ports, fanning a
//! port range out into probes, classifying each probe and collecting the
//! outcomes behind a barrier.

pub mod address;
pub mod port;
pub mod request;
pub mod probe;
pub mod scan;
pub mod laws;
