//! The demo format: its data types and its messages.
pub mod data;
pub mod header;
pub mod message;
pub mod packet;
pub mod parser;
pub mod sendprop;
pub mod sendtable;
