//! Failure kinds shared by every component of the codec.

use vstd::prelude::*;
use vstd::string::StringExecFns;

verus! {

/// Every error the codec can return.  No recovery is attempted internally;
/// each fallible step surfaces its error immediately and produces no partial
/// output.
#[derive(Debug)]
pub enum BiolepticError {
    /// The four method-tag bytes of a stream name no known transform method.
    InvalidCompressionMethod([u8; 4]),
    /// The stream does not begin with the `BILP` magic bytes.
    InvalidMagic([u8; 4]),
    /// The two data-type tag bytes name no known sample data type.
    InvalidDataType([u8; 2]),
    /// The stream's format version is not the one this codec writes.
    InvalidVersion([u8; 2]),
    /// The transform engine reported a failure, or an impossible zero-level
    /// result.
    UnderlyingDwtError(String),
    /// The entropy codec failed to encode the packed coefficients.
    UnderlyingCompressorError(String),
    /// Growing the packed-coefficient buffer by the given number of entries
    /// failed.
    OutOfMemoryError(usize),
    /// The header is too short, or its stored statistics are not finite.
    InvalidHeader,
    /// The input cannot be compressed: it is empty, or longer than the
    /// maximum supported sample count.
    UnsupportedCompressorConfiguration(String),
    /// The stream cannot be decompressed; the message gives the reason.
    DecompressionError(String),
    /// A quantization scale outside the supported 6..=12 range.
    InvalidQuantizationScale(u8),
}

/// The decimal digit character for a value in 0..=9.
pub open spec fn spec_digit_char(d: int) -> char {
    if d == 0 {
        '0'
    } else if d == 1 {
        '1'
    } else if d == 2 {
        '2'
    } else if d == 3 {
        '3'
    } else if d == 4 {
        '4'
    } else if d == 5 {
        '5'
    } else if d == 6 {
        '6'
    } else if d == 7 {
        '7'
    } else if d == 8 {
        '8'
    } else {
        '9'
    }
}

/// The decimal representation of a non-negative integer, most significant
/// digit first.
pub open spec fn spec_decimal(n: int) -> Seq<char>
    decreases n,
{
    if n < 10 {
        seq![spec_digit_char(n)]
    } else {
        spec_decimal(n / 10) + seq![spec_digit_char(n % 10)]
    }
}

/// Appends one decimal digit to a message.
fn append_digit(s: &mut String, d: u64)
    requires
        d < 10,
    ensures
        final(s)@ == old(s)@ + seq![spec_digit_char(d as int)],
{
    if d == 0 {
        proof {
            reveal_strlit("0");
        }
        s.append("0");
        assert(final(s)@ =~= old(s)@ + seq![spec_digit_char(d as int)]);
    } else if d == 1 {
        proof {
            reveal_strlit("1");
        }
        s.append("1");
        assert(final(s)@ =~= old(s)@ + seq![spec_digit_char(d as int)]);
    } else if d == 2 {
        proof {
            reveal_strlit("2");
        }
        s.append("2");
        assert(final(s)@ =~= old(s)@ + seq![spec_digit_char(d as int)]);
    } else if d == 3 {
        proof {
            reveal_strlit("3");
        }
        s.append("3");
        assert(final(s)@ =~= old(s)@ + seq![spec_digit_char(d as int)]);
    } else if d == 4 {
        proof {
            reveal_strlit("4");
        }
        s.append("4");
        assert(final(s)@ =~= old(s)@ + seq![spec_digit_char(d as int)]);
    } else if d == 5 {
        proof {
            reveal_strlit("5");
        }
        s.append("5");
        assert(final(s)@ =~= old(s)@ + seq![spec_digit_char(d as int)]);
    } else if d == 6 {
        proof {
            reveal_strlit("6");
        }
        s.append("6");
        assert(final(s)@ =~= old(s)@ + seq![spec_digit_char(d as int)]);
    } else if d == 7 {
        proof {
            reveal_strlit("7");
        }
        s.append("7");
        assert(final(s)@ =~= old(s)@ + seq![spec_digit_char(d as int)]);
    } else if d == 8 {
        proof {
            reveal_strlit("8");
        }
        s.append("8");
        assert(final(s)@ =~= old(s)@ + seq![spec_digit_char(d as int)]);
    } else {
        proof {
            reveal_strlit("9");
        }
        s.append("9");
        assert(final(s)@ =~= old(s)@ + seq![spec_digit_char(d as int)]);
    }
}

/// Appends the decimal representation of a number to a message.
fn append_decimal(s: &mut String, n: u64)
    ensures
        final(s)@ == old(s)@ + spec_decimal(n as int),
    decreases n,
{
    if n >= 10 {
        append_decimal(s, n / 10);
        append_digit(s, n % 10);
        proof {
            assert(final(s)@ =~= old(s)@ + spec_decimal(n as int));
        }
    } else {
        append_digit(s, n);
    }
}

/// The human-readable message each error renders to.
pub open spec fn spec_error_message(e: BiolepticError) -> Seq<char> {
    match e {
        BiolepticError::InvalidCompressionMethod(_) => "Invalid compression method"@,
        BiolepticError::InvalidMagic(_) => "Magic should be 'BILP'"@,
        BiolepticError::InvalidDataType(_) => "Invalid data type"@,
        BiolepticError::InvalidVersion(_) => "Invalid header version"@,
        BiolepticError::UnderlyingDwtError(m) => m@,
        BiolepticError::UnderlyingCompressorError(m) => m@,
        BiolepticError::OutOfMemoryError(sz) => "Out of memory, can't allocate additional "@
            + spec_decimal(sz as int),
        BiolepticError::InvalidHeader => "Header is invalid"@,
        BiolepticError::UnsupportedCompressorConfiguration(m) => {
            "Unsupported compression configuration '"@ + m@ + "'"@
        },
        BiolepticError::DecompressionError(m) => "Can't decompress data, reason: "@ + m@,
        BiolepticError::InvalidQuantizationScale(v) => {
            "Only scaled 6..12 is supported, but it was "@ + spec_decimal(v as int)
        },
    }
}

impl BiolepticError {
    /// Renders the error as a human-readable message.
    pub fn message(&self) -> (r: String)
        ensures
            r@ == spec_error_message(*self),
    {
        match self {
            BiolepticError::InvalidCompressionMethod(_) => {
                String::from_str("Invalid compression method")
            },
            BiolepticError::InvalidMagic(_) => String::from_str("Magic should be 'BILP'"),
            BiolepticError::InvalidDataType(_) => String::from_str("Invalid data type"),
            BiolepticError::InvalidVersion(_) => String::from_str("Invalid header version"),
            BiolepticError::UnderlyingDwtError(m) => String::from_str(m.as_str()),
            BiolepticError::UnderlyingCompressorError(m) => String::from_str(m.as_str()),
            BiolepticError::OutOfMemoryError(sz) => {
                let mut s = String::from_str("Out of memory, can't allocate additional ");
                append_decimal(&mut s, *sz as u64);
                s
            },
            BiolepticError::InvalidHeader => String::from_str("Header is invalid"),
            BiolepticError::UnsupportedCompressorConfiguration(m) => {
                let mut s = String::from_str("Unsupported compression configuration '");
                s.append(m.as_str());
                s.append("'");
                s
            },
            BiolepticError::DecompressionError(m) => {
                let mut s = String::from_str("Can't decompress data, reason: ");
                s.append(m.as_str());
                s
            },
            BiolepticError::InvalidQuantizationScale(v) => {
                let mut s = String::from_str("Only scaled 6..12 is supported, but it was ");
                append_decimal(&mut s, *v as u64);
                s
            },
        }
    }
}

} // verus!
