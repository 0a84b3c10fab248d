//! Decoding of FIT activity files, and compilation of the FIT profile.
//!
//! A FIT file is a header, a stream of records and a trailing checksum. Each data
//! record has the layout that an earlier definition record announced for its local
//! message type. What the fields of a record mean is told by the profile: a catalog of
//! types and a catalog of messages, both kept as tables.
//!
//! The run-time side: [`crc`] computes the checksum, [`fit_header`] decodes the file
//! header, [`fit_records`] the record headers and the definition records,
//! [`fit_data`] the data records, [`developer`] keeps what a file says of its
//! developer fields, and [`fit_stream`] decodes a file as a whole.
//!
//! The profile side: [`profile_types`] and [`profile_messages`] load the two tables,
//! [`profile_emit`] writes source text for the types, and [`profile`] answers
//! questions of the decoder from the loaded tables.
//!
//! Every function states what it returns over a mathematical model of its arguments,
//! and is proved to meet that statement. The few calls into other crates are gathered
//! in [`byte_order`], [`csv_table`] and [`casing`]; what is assumed of them is written
//! down there.

pub mod base_type;
pub mod byte_order;
pub mod casing;
pub mod crc;
pub mod csv_table;
pub mod decimal;
pub mod developer;
pub mod error;
pub mod fit_data;
pub mod fit_header;
pub mod fit_records;
pub mod fit_stream;
pub mod profile;
pub mod profile_emit;
pub mod profile_messages;
pub mod profile_types;
pub mod search;
pub mod text;
