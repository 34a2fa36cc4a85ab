//! Core of a one-time-pad style stream cipher for real-time messaging:
//! byte-for-byte XOR combination of data with single or dual keys, a
//! keystream buffer that hands each key byte out exactly once in order,
//! envelope-producing encryption entry points, and the server-side
//! random-byte generation and chunked delivery logic.

pub mod cipher;
pub mod envelope;
pub mod keystream;
pub mod rng;
pub mod service;

pub use cipher::xor_single;
pub use cipher::xor_vernam;
pub use envelope::decrypt_frame;
pub use envelope::decrypt_to_text;
pub use envelope::decrypt_with_key;
pub use envelope::encrypt_data_return_key;
pub use envelope::encrypt_frame;
pub use envelope::encrypt_frame_local;
pub use envelope::encrypt_text_double_key;
pub use envelope::encrypt_text_return_key;
pub use envelope::encrypt_text_with_buffer;
pub use envelope::encrypt_with_buffer;
pub use envelope::EncryptedDoubleKey;
pub use envelope::EncryptedWithKey;
pub use keystream::KeyStreamBuffer;
pub use rng::random_bytes;
pub use service::completion_message;
pub use service::handle_key_request;
pub use service::parse_chunk_count;
pub use service::parse_stream_size;
pub use service::parse_usize;
pub use service::render_decimal;
pub use service::CompletionRecord;
pub use service::KeyResponse;
pub use service::ServiceError;
pub use service::StreamFrame;
pub use service::StreamSession;
pub use service::CHUNK_SIZE;
pub use service::MAX_CHUNK_COUNT;
pub use service::YIELD_INTERVAL;
