//! Turns a table of appointments into a table of links: each row's date of
//! service is sealed with AES-128-GCM under a caller's key, and the resulting
//! token is put into a URL template.
pub mod batch;
pub mod records;
pub mod table;
pub mod template;
pub mod token;

pub use batch::{link_record, link_records, run_batch, BatchError};
pub use records::{decode, encode, encode_inputs, InputRecord, OutputRecord};
pub use template::expand;
pub use token::{encrypt, seal_token, EncryptError};
