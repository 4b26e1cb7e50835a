//! The network of a virtual machine: a gateway that answers for itself, and address
//! translation for what goes beyond.

pub mod backend;
pub mod checksum;
pub mod frames;
pub mod gateway;
pub mod link;
pub mod meaning;
