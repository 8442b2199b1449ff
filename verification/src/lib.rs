//! Deterministic subkey derivation sessions.
//!
//! A [`Session`] owns a master key, a context and a counter. Each successful
//! call of [`Session::generate_next_key`] fills a buffer with the subkey that
//! belongs to the counter's value and moves the counter on by one, so that
//! the same key, context and number always give the same subkey and every
//! number is handed out at most once. A [`SessionBuilder`] puts a session
//! together field by field, and the `codec` module writes a session as a
//! record of three named fields and reads it back.

pub mod builder;
pub mod bytes;
pub mod codec;
pub mod primitive;
pub mod secret;
pub mod session;

pub use crate::builder::SessionBuilder;
pub use crate::codec::{
    decode_record, encode_session, CodecError, Field, FieldValue, RecordEntry, SessionDecoder,
    FIELD_NAMES, RECORD_FIELDS, RECORD_NAME,
};
pub use crate::primitive::{DERIVED_KEY_BYTES_MAX, DERIVED_KEY_BYTES_MIN};
pub use crate::secret::{Context, MasterKey, CONTEXT_BYTES, MASTER_KEY_BYTES};
pub use crate::session::{generate_context, generate_key, KdfError, Session};
