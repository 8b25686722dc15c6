//! Self-describing value encoding: multibase-style textual encodings with a
//! registry of base alphabets, speculative base detection, a canonical
//! variable-length integer codec, and a codec-tagging wrapper for payload
//! bytes.

/// Base registry: the `Base` enum, its sigils and iteration order
pub mod base_util;
pub use base_util::{base_name, Base, BaseIter};

/// Errors produced by the encoding and decoding routines
pub mod error;
pub use error::Error;

/// Codec identifiers and the `CodecInfo` trait
pub mod codec_info;
pub use codec_info::{Codec, CodecInfo};

/// Byte-conversion traits for payload types
pub mod convert;
pub use convert::{DecodeEncodeLaw, EncodeInto, ToBytes, TryDecodeFrom, TryFromBytes};

/// The canonical variable-length integer codec
pub mod varint;

/// Varbytes type for length-prefixed byte buffers
pub mod varbytes;
pub use varbytes::{EncodedVarbytes, Varbytes};

/// Varuint type for varint-encoded numeric values
pub mod varuint;
pub use varuint::{EncodedVaruint, Varuint};

/// Alphabet conversion, performed by the multibase crate
pub mod alphabet;

/// BaseEncoded smart pointer
pub mod base_encoded;
pub use base_encoded::BaseEncoded;

/// BaseEncoder trait and the three encoding strategies
pub mod base_encoder;
pub use base_encoder::{Base58Encoder, BaseEncoder, DetectedEncoder, MultibaseEncoder};

/// Tagged smart pointer for codec-tagged data
pub mod tagged;
pub use tagged::Tagged;

/// EncodingInfo trait
pub mod encoding_info;
pub use encoding_info::EncodingInfo;

/// DefaultEncoding trait
pub mod default_encoding;
pub use default_encoding::DefaultEncoding;
