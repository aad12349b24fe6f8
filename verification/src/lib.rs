//! OpenCAN: validated descriptions of CAN signals, messages, nodes and networks,
//! their composition from a definition format, and the C code generated for a node.

pub mod error;
pub mod text;
pub mod enum_table;
pub mod signal;
pub mod message;
pub mod node;
pub mod network;
pub mod template;
pub mod ymlfmt;
pub mod compose;
pub mod ctext;
pub mod csignal;
pub mod cmessage;
pub mod codegen;
pub mod status;
pub mod c_rx;
pub mod c_tx;
pub mod cantools;
pub mod proto;
pub mod decode;
pub mod analyze;
pub mod dbc;
