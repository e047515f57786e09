//! Lossy compression codec for one-dimensional `f32` sample sequences.
//!
//! The codec turns a sequence of samples into a self-describing byte stream:
//! a fixed 52-byte header followed by an entropy-coded payload of quantized
//! wavelet coefficients.  Sample values are handled throughout as their raw
//! IEEE-754 bit patterns, so every step of the wire format — substitution of
//! non-finite values, header layout, quantized-coefficient thresholding,
//! packing, level geometry and strict validation — is specified and verified
//! over plain integers.

pub mod compressor;
pub mod decompressor;
pub mod entropy;
pub mod error;
pub mod header;

pub use compressor::{
    CompressionOptions, CutoffLevel, QuantizationScale, compress_quantized, prepare_samples,
    select_levels, threshold, validate_signal_length,
};
pub use decompressor::{DecodedCoefficients, decode_coefficients, dwt_size, level_sizes};
pub use error::BiolepticError;
pub use header::{BiolepticHeader, CompressionMethod, DataType};
