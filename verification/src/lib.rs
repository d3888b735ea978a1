//! Decoding of MySQL and MariaDB binary log events.
pub mod bytes;
pub mod column_types;
pub mod consts;
pub mod decode_helper;
pub mod error;
pub mod event;
pub mod event_enum;
pub mod fields;
pub mod gtid;
pub mod json_binary;
pub mod parser;
pub mod rows_event;
pub mod rows_spec;
pub mod table_map;
pub mod table_map_decode;
pub mod text;
pub mod time;
pub mod version;
pub mod utils;
pub mod laws;
pub mod value_laws;
