use vstd::prelude::*;
use vstd::string::StringSliceAdditionalSpecFns;
use vstd::utf8::is_char_boundary;

verus! {

/// Why a room's block string was refused.
#[derive(Clone, Copy, Debug, PartialEq, Eq, Structural)]
pub enum BlockDataError {
    /// The string does not split into whole groups of four.
    InvalidLength,
    /// A group of four is not a hexadecimal number.
    InvalidDigit,
}

/// The value of a hexadecimal digit, either case.
pub open spec fn spec_hex_digit(c: u8) -> Option<u16> {
    if 48 <= c <= 57 {
        Some((c - 48) as u16)
    } else if 97 <= c <= 102 {
        Some((c - 87) as u16)
    } else if 65 <= c <= 70 {
        Some((c - 55) as u16)
    } else {
        None
    }
}

/// The number that the four bytes from `at` spell in hexadecimal; a leading
/// `+` is allowed before three digits.
pub open spec fn spec_hex_group(b: Seq<u8>, at: int) -> Option<u16> {
    let (d0, d1, d2, d3) = (
        spec_hex_digit(b[at]),
        spec_hex_digit(b[at + 1]),
        spec_hex_digit(b[at + 2]),
        spec_hex_digit(b[at + 3]),
    );
    if b[at] == 43 {
        match (d1, d2, d3) {
            (Some(x), Some(y), Some(z)) => Some((x * 256 + y * 16 + z) as u16),
            _ => None,
        }
    } else {
        match (d0, d1, d2, d3) {
            (Some(w), Some(x), Some(y), Some(z)) => Some((w * 4096 + x * 256 + y * 16 + z) as u16),
            _ => None,
        }
    }
}

/// The block states that a string of four-digit hexadecimal groups spells,
/// read from byte `at`.
pub open spec fn spec_parse_blocks(b: Seq<u8>, at: int) -> Result<Seq<u16>, BlockDataError>
    decreases b.len() - at,
{
    if at < 0 || at >= b.len() {
        Ok(seq![])
    } else if at + 4 > b.len() || !is_char_boundary(b, at + 4) {
        Err(BlockDataError::InvalidLength)
    } else {
        match spec_hex_group(b, at) {
            None => Err(BlockDataError::InvalidDigit),
            Some(v) => match spec_parse_blocks(b, at + 4) {
                Ok(rest) => Ok(seq![v] + rest),
                Err(e) => Err(e),
            },
        }
    }
}

fn hex_digit(c: u8) -> (r: Option<u16>)
    ensures
        r == spec_hex_digit(c),
{
    if 48 <= c && c <= 57 {
        Some((c - 48) as u16)
    } else if 97 <= c && c <= 102 {
        Some((c - 87) as u16)
    } else if 65 <= c && c <= 70 {
        Some((c - 55) as u16)
    } else {
        None
    }
}

pub(crate) fn hex_group(b: &[u8], at: usize) -> (r: Option<u16>)
    requires
        at + 4 <= b@.len(),
    ensures
        r == spec_hex_group(b@, at as int),
{
    let d0 = hex_digit(b[at]);
    let d1 = hex_digit(b[at + 1]);
    let d2 = hex_digit(b[at + 2]);
    let d3 = hex_digit(b[at + 3]);
    if b[at] == 43 {
        match (d1, d2, d3) {
            (Some(x), Some(y), Some(z)) => Some(x * 256 + y * 16 + z),
            _ => None,
        }
    } else {
        match (d0, d1, d2, d3) {
            (Some(w), Some(x), Some(y), Some(z)) => Some(w * 4096 + x * 256 + y * 16 + z),
            _ => None,
        }
    }
}

pub open spec fn prepend_states(
    done: Seq<u16>,
    rest: Result<Seq<u16>, BlockDataError>,
) -> Result<Seq<u16>, BlockDataError> {
    match rest {
        Ok(r) => Ok(done + r),
        Err(e) => Err(e),
    }
}

/// Reads a room's stored blocks: four hexadecimal digits per block state.
pub fn deserialize_blocks(hex_data: &str) -> (r: Result<Vec<u16>, BlockDataError>)
    ensures
        match spec_parse_blocks(hex_data.spec_bytes(), 0) {
            Ok(states) => r matches Ok(v) && v@ == states,
            Err(e) => r == Err::<Vec<u16>, BlockDataError>(e),
        },
{
    let bytes = hex_data.as_bytes();
    let ghost b = hex_data.spec_bytes();
    let mut block_data: Vec<u16> = Vec::new();
    let mut index: usize = 0;
    assert(seq![] + spec_parse_blocks(b, 0)->Ok_0 =~= spec_parse_blocks(b, 0)->Ok_0);
    while index < bytes.len()
        invariant
            bytes@ == b,
            b == hex_data.spec_bytes(),
            index <= b.len() + 4,
            index % 4 == 0,
            spec_parse_blocks(b, 0) == prepend_states(block_data@, spec_parse_blocks(b, index as int)),
        decreases b.len() + 4 - index,
    {
        if bytes.len() - index < 4 || !hex_data.is_char_boundary(index + 4) {
            return Err(BlockDataError::InvalidLength);
        }
        match hex_group(bytes, index) {
            None => {
                return Err(BlockDataError::InvalidDigit);
            },
            Some(v) => {
                proof {
                    match spec_parse_blocks(b, index + 4) {
                        Ok(rest) => {
                            assert(block_data@.push(v) + rest =~= block_data@ + (seq![v] + rest));
                        },
                        Err(_) => {},
                    }
                }
                block_data.push(v);
            },
        }
        index = index + 4;
    }
    assert(block_data@ + Seq::<u16>::empty() =~= block_data@);
    Ok(block_data)
}

} // verus!
