//! The Modified-Huffman code tables of T.4 and T.6: the two-dimensional mode
//! codes, and the white and black run-length codes (values 0 to 63 are
//! terminating codes, multiples of 64 from 64 to 2560 are makeup codes).
//!
//! Each table is written twice in the same shape: once as a spec function
//! that the contracts speak of, and once as an executable lookup that is
//! proved to agree with it. A lookup takes the exact bit-length of a code and
//! the code's value, and answers only for that exact pair: the code set is
//! prefix-free, so a decoder that probes lengths in increasing order consumes
//! exactly the matched code's true length.
use vstd::prelude::*;

use crate::Color;

verus! {

/// A decoded two-dimensional coding instruction of T.6.
#[derive(Copy, Clone, Debug, PartialEq, Eq, Structural)]
pub enum Mode {
    Pass,
    Horizontal,
    Vertical(i8),
    Extension,
}

/// The longest two-dimensional mode code, in bits.
pub const MAX_MODE_CODE_LEN: u16 = 7;

/// The longest run-length code over both color tables, in bits.
pub const MAX_RUN_CODE_LEN: u16 = 13;

/// The two-dimensional mode code of value `code` and exact bit-length `len`.
pub open spec fn mode_code(len: int, code: nat) -> Option<Mode> {
    if len == 1 {
        if code == 1 {
            Some(Mode::Vertical(0))
        } else {
            None
        }
    } else if len == 3 {
        if code == 1 {
            Some(Mode::Horizontal)
        } else if code == 3 {
            Some(Mode::Vertical(1))
        } else if code == 2 {
            Some(Mode::Vertical(-1i8))
        } else {
            None
        }
    } else if len == 4 {
        if code == 1 {
            Some(Mode::Pass)
        } else {
            None
        }
    } else if len == 6 {
        if code == 3 {
            Some(Mode::Vertical(2))
        } else if code == 2 {
            Some(Mode::Vertical(-2i8))
        } else {
            None
        }
    } else if len == 7 {
        if code == 3 {
            Some(Mode::Vertical(3))
        } else if code == 2 {
            Some(Mode::Vertical(-3i8))
        } else if code == 1 {
            Some(Mode::Extension)
        } else {
            None
        }
    } else {
        None
    }
}

/// Executable lookup of the mode-code table.
pub fn lookup_mode(len: u16, code: u16) -> (r: Option<Mode>)
    ensures
        r == mode_code(len as int, code as nat),
{
    if len == 1 {
        if code == 1 {
            Some(Mode::Vertical(0))
        } else {
            None
        }
    } else if len == 3 {
        if code == 1 {
            Some(Mode::Horizontal)
        } else if code == 3 {
            Some(Mode::Vertical(1))
        } else if code == 2 {
            Some(Mode::Vertical(-1i8))
        } else {
            None
        }
    } else if len == 4 {
        if code == 1 {
            Some(Mode::Pass)
        } else {
            None
        }
    } else if len == 6 {
        if code == 3 {
            Some(Mode::Vertical(2))
        } else if code == 2 {
            Some(Mode::Vertical(-2i8))
        } else {
            None
        }
    } else if len == 7 {
        if code == 3 {
            Some(Mode::Vertical(3))
        } else if code == 2 {
            Some(Mode::Vertical(-3i8))
        } else if code == 1 {
            Some(Mode::Extension)
        } else {
            None
        }
    } else {
        None
    }
}

/// The white run-length code of value `code` and exact bit-length `len`.
pub open spec fn white_code(len: int, code: nat) -> Option<u16> {
    if len == 4 {
        if code == 7 {
            Some(2u16)
        } else if code == 8 {
            Some(3u16)
        } else if code == 11 {
            Some(4u16)
        } else if code == 12 {
            Some(5u16)
        } else if code == 14 {
            Some(6u16)
        } else if code == 15 {
            Some(7u16)
        } else {
            None
        }
    } else if len == 5 {
        if code == 19 {
            Some(8u16)
        } else if code == 20 {
            Some(9u16)
        } else if code == 7 {
            Some(10u16)
        } else if code == 8 {
            Some(11u16)
        } else if code == 27 {
            Some(64u16)
        } else if code == 18 {
            Some(128u16)
        } else {
            None
        }
    } else if len == 6 {
        if code == 7 {
            Some(1u16)
        } else if code == 8 {
            Some(12u16)
        } else if code == 3 {
            Some(13u16)
        } else if code == 52 {
            Some(14u16)
        } else if code == 53 {
            Some(15u16)
        } else if code == 42 {
            Some(16u16)
        } else if code == 43 {
            Some(17u16)
        } else if code == 23 {
            Some(192u16)
        } else if code == 24 {
            Some(1664u16)
        } else {
            None
        }
    } else if len == 7 {
        if code == 39 {
            Some(18u16)
        } else if code == 12 {
            Some(19u16)
        } else if code == 8 {
            Some(20u16)
        } else if code == 23 {
            Some(21u16)
        } else if code == 3 {
            Some(22u16)
        } else if code == 4 {
            Some(23u16)
        } else if code == 40 {
            Some(24u16)
        } else if code == 43 {
            Some(25u16)
        } else if code == 19 {
            Some(26u16)
        } else if code == 36 {
            Some(27u16)
        } else if code == 24 {
            Some(28u16)
        } else if code == 55 {
            Some(256u16)
        } else {
            None
        }
    } else if len == 8 {
        if code == 53 {
            Some(0u16)
        } else if code == 2 {
            Some(29u16)
        } else if code == 3 {
            Some(30u16)
        } else if code == 26 {
            Some(31u16)
        } else if code == 27 {
            Some(32u16)
        } else if code == 18 {
            Some(33u16)
        } else if code == 19 {
            Some(34u16)
        } else if code == 20 {
            Some(35u16)
        } else if code == 21 {
            Some(36u16)
        } else if code == 22 {
            Some(37u16)
        } else if code == 23 {
            Some(38u16)
        } else if code == 40 {
            Some(39u16)
        } else if code == 41 {
            Some(40u16)
        } else if code == 42 {
            Some(41u16)
        } else if code == 43 {
            Some(42u16)
        } else if code == 44 {
            Some(43u16)
        } else if code == 45 {
            Some(44u16)
        } else if code == 4 {
            Some(45u16)
        } else if code == 5 {
            Some(46u16)
        } else if code == 10 {
            Some(47u16)
        } else if code == 11 {
            Some(48u16)
        } else if code == 82 {
            Some(49u16)
        } else if code == 83 {
            Some(50u16)
        } else if code == 84 {
            Some(51u16)
        } else if code == 85 {
            Some(52u16)
        } else if code == 36 {
            Some(53u16)
        } else if code == 37 {
            Some(54u16)
        } else if code == 88 {
            Some(55u16)
        } else if code == 89 {
            Some(56u16)
        } else if code == 90 {
            Some(57u16)
        } else if code == 91 {
            Some(58u16)
        } else if code == 74 {
            Some(59u16)
        } else if code == 75 {
            Some(60u16)
        } else if code == 50 {
            Some(61u16)
        } else if code == 51 {
            Some(62u16)
        } else if code == 52 {
            Some(63u16)
        } else if code == 54 {
            Some(320u16)
        } else if code == 55 {
            Some(384u16)
        } else if code == 100 {
            Some(448u16)
        } else if code == 101 {
            Some(512u16)
        } else if code == 104 {
            Some(576u16)
        } else if code == 103 {
            Some(640u16)
        } else {
            None
        }
    } else if len == 9 {
        if code == 204 {
            Some(704u16)
        } else if code == 205 {
            Some(768u16)
        } else if code == 210 {
            Some(832u16)
        } else if code == 211 {
            Some(896u16)
        } else if code == 212 {
            Some(960u16)
        } else if code == 213 {
            Some(1024u16)
        } else if code == 214 {
            Some(1088u16)
        } else if code == 215 {
            Some(1152u16)
        } else if code == 216 {
            Some(1216u16)
        } else if code == 217 {
            Some(1280u16)
        } else if code == 218 {
            Some(1344u16)
        } else if code == 219 {
            Some(1408u16)
        } else if code == 152 {
            Some(1472u16)
        } else if code == 153 {
            Some(1536u16)
        } else if code == 154 {
            Some(1600u16)
        } else if code == 155 {
            Some(1728u16)
        } else {
            None
        }
    } else if len == 11 {
        if code == 8 {
            Some(1792u16)
        } else if code == 12 {
            Some(1856u16)
        } else if code == 13 {
            Some(1920u16)
        } else {
            None
        }
    } else if len == 12 {
        if code == 18 {
            Some(1984u16)
        } else if code == 19 {
            Some(2048u16)
        } else if code == 20 {
            Some(2112u16)
        } else if code == 21 {
            Some(2176u16)
        } else if code == 22 {
            Some(2240u16)
        } else if code == 23 {
            Some(2304u16)
        } else if code == 28 {
            Some(2368u16)
        } else if code == 29 {
            Some(2432u16)
        } else if code == 30 {
            Some(2496u16)
        } else if code == 31 {
            Some(2560u16)
        } else {
            None
        }
    } else {
        None
    }
}

/// Executable lookup of the white run-length table.
pub fn lookup_white(len: u16, code: u16) -> (r: Option<u16>)
    ensures
        r == white_code(len as int, code as nat),
{
    if len == 4 {
        if code == 7 {
            Some(2u16)
        } else if code == 8 {
            Some(3u16)
        } else if code == 11 {
            Some(4u16)
        } else if code == 12 {
            Some(5u16)
        } else if code == 14 {
            Some(6u16)
        } else if code == 15 {
            Some(7u16)
        } else {
            None
        }
    } else if len == 5 {
        if code == 19 {
            Some(8u16)
        } else if code == 20 {
            Some(9u16)
        } else if code == 7 {
            Some(10u16)
        } else if code == 8 {
            Some(11u16)
        } else if code == 27 {
            Some(64u16)
        } else if code == 18 {
            Some(128u16)
        } else {
            None
        }
    } else if len == 6 {
        if code == 7 {
            Some(1u16)
        } else if code == 8 {
            Some(12u16)
        } else if code == 3 {
            Some(13u16)
        } else if code == 52 {
            Some(14u16)
        } else if code == 53 {
            Some(15u16)
        } else if code == 42 {
            Some(16u16)
        } else if code == 43 {
            Some(17u16)
        } else if code == 23 {
            Some(192u16)
        } else if code == 24 {
            Some(1664u16)
        } else {
            None
        }
    } else if len == 7 {
        if code == 39 {
            Some(18u16)
        } else if code == 12 {
            Some(19u16)
        } else if code == 8 {
            Some(20u16)
        } else if code == 23 {
            Some(21u16)
        } else if code == 3 {
            Some(22u16)
        } else if code == 4 {
            Some(23u16)
        } else if code == 40 {
            Some(24u16)
        } else if code == 43 {
            Some(25u16)
        } else if code == 19 {
            Some(26u16)
        } else if code == 36 {
            Some(27u16)
        } else if code == 24 {
            Some(28u16)
        } else if code == 55 {
            Some(256u16)
        } else {
            None
        }
    } else if len == 8 {
        if code == 53 {
            Some(0u16)
        } else if code == 2 {
            Some(29u16)
        } else if code == 3 {
            Some(30u16)
        } else if code == 26 {
            Some(31u16)
        } else if code == 27 {
            Some(32u16)
        } else if code == 18 {
            Some(33u16)
        } else if code == 19 {
            Some(34u16)
        } else if code == 20 {
            Some(35u16)
        } else if code == 21 {
            Some(36u16)
        } else if code == 22 {
            Some(37u16)
        } else if code == 23 {
            Some(38u16)
        } else if code == 40 {
            Some(39u16)
        } else if code == 41 {
            Some(40u16)
        } else if code == 42 {
            Some(41u16)
        } else if code == 43 {
            Some(42u16)
        } else if code == 44 {
            Some(43u16)
        } else if code == 45 {
            Some(44u16)
        } else if code == 4 {
            Some(45u16)
        } else if code == 5 {
            Some(46u16)
        } else if code == 10 {
            Some(47u16)
        } else if code == 11 {
            Some(48u16)
        } else if code == 82 {
            Some(49u16)
        } else if code == 83 {
            Some(50u16)
        } else if code == 84 {
            Some(51u16)
        } else if code == 85 {
            Some(52u16)
        } else if code == 36 {
            Some(53u16)
        } else if code == 37 {
            Some(54u16)
        } else if code == 88 {
            Some(55u16)
        } else if code == 89 {
            Some(56u16)
        } else if code == 90 {
            Some(57u16)
        } else if code == 91 {
            Some(58u16)
        } else if code == 74 {
            Some(59u16)
        } else if code == 75 {
            Some(60u16)
        } else if code == 50 {
            Some(61u16)
        } else if code == 51 {
            Some(62u16)
        } else if code == 52 {
            Some(63u16)
        } else if code == 54 {
            Some(320u16)
        } else if code == 55 {
            Some(384u16)
        } else if code == 100 {
            Some(448u16)
        } else if code == 101 {
            Some(512u16)
        } else if code == 104 {
            Some(576u16)
        } else if code == 103 {
            Some(640u16)
        } else {
            None
        }
    } else if len == 9 {
        if code == 204 {
            Some(704u16)
        } else if code == 205 {
            Some(768u16)
        } else if code == 210 {
            Some(832u16)
        } else if code == 211 {
            Some(896u16)
        } else if code == 212 {
            Some(960u16)
        } else if code == 213 {
            Some(1024u16)
        } else if code == 214 {
            Some(1088u16)
        } else if code == 215 {
            Some(1152u16)
        } else if code == 216 {
            Some(1216u16)
        } else if code == 217 {
            Some(1280u16)
        } else if code == 218 {
            Some(1344u16)
        } else if code == 219 {
            Some(1408u16)
        } else if code == 152 {
            Some(1472u16)
        } else if code == 153 {
            Some(1536u16)
        } else if code == 154 {
            Some(1600u16)
        } else if code == 155 {
            Some(1728u16)
        } else {
            None
        }
    } else if len == 11 {
        if code == 8 {
            Some(1792u16)
        } else if code == 12 {
            Some(1856u16)
        } else if code == 13 {
            Some(1920u16)
        } else {
            None
        }
    } else if len == 12 {
        if code == 18 {
            Some(1984u16)
        } else if code == 19 {
            Some(2048u16)
        } else if code == 20 {
            Some(2112u16)
        } else if code == 21 {
            Some(2176u16)
        } else if code == 22 {
            Some(2240u16)
        } else if code == 23 {
            Some(2304u16)
        } else if code == 28 {
            Some(2368u16)
        } else if code == 29 {
            Some(2432u16)
        } else if code == 30 {
            Some(2496u16)
        } else if code == 31 {
            Some(2560u16)
        } else {
            None
        }
    } else {
        None
    }
}

/// The black run-length code of value `code` and exact bit-length `len`.
pub open spec fn black_code(len: int, code: nat) -> Option<u16> {
    if len == 2 {
        if code == 3 {
            Some(2u16)
        } else if code == 2 {
            Some(3u16)
        } else {
            None
        }
    } else if len == 3 {
        if code == 2 {
            Some(1u16)
        } else if code == 3 {
            Some(4u16)
        } else {
            None
        }
    } else if len == 4 {
        if code == 3 {
            Some(5u16)
        } else if code == 2 {
            Some(6u16)
        } else {
            None
        }
    } else if len == 5 {
        if code == 3 {
            Some(7u16)
        } else {
            None
        }
    } else if len == 6 {
        if code == 5 {
            Some(8u16)
        } else if code == 4 {
            Some(9u16)
        } else {
            None
        }
    } else if len == 7 {
        if code == 4 {
            Some(10u16)
        } else if code == 5 {
            Some(11u16)
        } else if code == 7 {
            Some(12u16)
        } else {
            None
        }
    } else if len == 8 {
        if code == 4 {
            Some(13u16)
        } else if code == 7 {
            Some(14u16)
        } else {
            None
        }
    } else if len == 9 {
        if code == 24 {
            Some(15u16)
        } else {
            None
        }
    } else if len == 10 {
        if code == 55 {
            Some(0u16)
        } else if code == 23 {
            Some(16u16)
        } else if code == 24 {
            Some(17u16)
        } else if code == 8 {
            Some(18u16)
        } else if code == 15 {
            Some(64u16)
        } else {
            None
        }
    } else if len == 11 {
        if code == 103 {
            Some(19u16)
        } else if code == 104 {
            Some(20u16)
        } else if code == 108 {
            Some(21u16)
        } else if code == 55 {
            Some(22u16)
        } else if code == 40 {
            Some(23u16)
        } else if code == 23 {
            Some(24u16)
        } else if code == 24 {
            Some(25u16)
        } else if code == 8 {
            Some(1792u16)
        } else if code == 12 {
            Some(1856u16)
        } else if code == 13 {
            Some(1920u16)
        } else {
            None
        }
    } else if len == 12 {
        if code == 202 {
            Some(26u16)
        } else if code == 203 {
            Some(27u16)
        } else if code == 204 {
            Some(28u16)
        } else if code == 205 {
            Some(29u16)
        } else if code == 104 {
            Some(30u16)
        } else if code == 105 {
            Some(31u16)
        } else if code == 106 {
            Some(32u16)
        } else if code == 107 {
            Some(33u16)
        } else if code == 210 {
            Some(34u16)
        } else if code == 211 {
            Some(35u16)
        } else if code == 212 {
            Some(36u16)
        } else if code == 213 {
            Some(37u16)
        } else if code == 214 {
            Some(38u16)
        } else if code == 215 {
            Some(39u16)
        } else if code == 108 {
            Some(40u16)
        } else if code == 109 {
            Some(41u16)
        } else if code == 218 {
            Some(42u16)
        } else if code == 219 {
            Some(43u16)
        } else if code == 84 {
            Some(44u16)
        } else if code == 85 {
            Some(45u16)
        } else if code == 86 {
            Some(46u16)
        } else if code == 87 {
            Some(47u16)
        } else if code == 100 {
            Some(48u16)
        } else if code == 101 {
            Some(49u16)
        } else if code == 82 {
            Some(50u16)
        } else if code == 83 {
            Some(51u16)
        } else if code == 36 {
            Some(52u16)
        } else if code == 55 {
            Some(53u16)
        } else if code == 56 {
            Some(54u16)
        } else if code == 39 {
            Some(55u16)
        } else if code == 40 {
            Some(56u16)
        } else if code == 88 {
            Some(57u16)
        } else if code == 89 {
            Some(58u16)
        } else if code == 43 {
            Some(59u16)
        } else if code == 44 {
            Some(60u16)
        } else if code == 90 {
            Some(61u16)
        } else if code == 102 {
            Some(62u16)
        } else if code == 103 {
            Some(63u16)
        } else if code == 200 {
            Some(128u16)
        } else if code == 201 {
            Some(192u16)
        } else if code == 91 {
            Some(256u16)
        } else if code == 51 {
            Some(320u16)
        } else if code == 52 {
            Some(384u16)
        } else if code == 53 {
            Some(448u16)
        } else if code == 18 {
            Some(1984u16)
        } else if code == 19 {
            Some(2048u16)
        } else if code == 20 {
            Some(2112u16)
        } else if code == 21 {
            Some(2176u16)
        } else if code == 22 {
            Some(2240u16)
        } else if code == 23 {
            Some(2304u16)
        } else if code == 28 {
            Some(2368u16)
        } else if code == 29 {
            Some(2432u16)
        } else if code == 30 {
            Some(2496u16)
        } else if code == 31 {
            Some(2560u16)
        } else {
            None
        }
    } else if len == 13 {
        if code == 108 {
            Some(512u16)
        } else if code == 109 {
            Some(576u16)
        } else if code == 74 {
            Some(640u16)
        } else if code == 75 {
            Some(704u16)
        } else if code == 76 {
            Some(768u16)
        } else if code == 77 {
            Some(832u16)
        } else if code == 114 {
            Some(896u16)
        } else if code == 115 {
            Some(960u16)
        } else if code == 116 {
            Some(1024u16)
        } else if code == 117 {
            Some(1088u16)
        } else if code == 118 {
            Some(1152u16)
        } else if code == 119 {
            Some(1216u16)
        } else if code == 82 {
            Some(1280u16)
        } else if code == 83 {
            Some(1344u16)
        } else if code == 84 {
            Some(1408u16)
        } else if code == 85 {
            Some(1472u16)
        } else if code == 90 {
            Some(1536u16)
        } else if code == 91 {
            Some(1600u16)
        } else if code == 100 {
            Some(1664u16)
        } else if code == 101 {
            Some(1728u16)
        } else {
            None
        }
    } else {
        None
    }
}

/// Executable lookup of the black run-length table.
pub fn lookup_black(len: u16, code: u16) -> (r: Option<u16>)
    ensures
        r == black_code(len as int, code as nat),
{
    if len == 2 {
        if code == 3 {
            Some(2u16)
        } else if code == 2 {
            Some(3u16)
        } else {
            None
        }
    } else if len == 3 {
        if code == 2 {
            Some(1u16)
        } else if code == 3 {
            Some(4u16)
        } else {
            None
        }
    } else if len == 4 {
        if code == 3 {
            Some(5u16)
        } else if code == 2 {
            Some(6u16)
        } else {
            None
        }
    } else if len == 5 {
        if code == 3 {
            Some(7u16)
        } else {
            None
        }
    } else if len == 6 {
        if code == 5 {
            Some(8u16)
        } else if code == 4 {
            Some(9u16)
        } else {
            None
        }
    } else if len == 7 {
        if code == 4 {
            Some(10u16)
        } else if code == 5 {
            Some(11u16)
        } else if code == 7 {
            Some(12u16)
        } else {
            None
        }
    } else if len == 8 {
        if code == 4 {
            Some(13u16)
        } else if code == 7 {
            Some(14u16)
        } else {
            None
        }
    } else if len == 9 {
        if code == 24 {
            Some(15u16)
        } else {
            None
        }
    } else if len == 10 {
        if code == 55 {
            Some(0u16)
        } else if code == 23 {
            Some(16u16)
        } else if code == 24 {
            Some(17u16)
        } else if code == 8 {
            Some(18u16)
        } else if code == 15 {
            Some(64u16)
        } else {
            None
        }
    } else if len == 11 {
        if code == 103 {
            Some(19u16)
        } else if code == 104 {
            Some(20u16)
        } else if code == 108 {
            Some(21u16)
        } else if code == 55 {
            Some(22u16)
        } else if code == 40 {
            Some(23u16)
        } else if code == 23 {
            Some(24u16)
        } else if code == 24 {
            Some(25u16)
        } else if code == 8 {
            Some(1792u16)
        } else if code == 12 {
            Some(1856u16)
        } else if code == 13 {
            Some(1920u16)
        } else {
            None
        }
    } else if len == 12 {
        if code == 202 {
            Some(26u16)
        } else if code == 203 {
            Some(27u16)
        } else if code == 204 {
            Some(28u16)
        } else if code == 205 {
            Some(29u16)
        } else if code == 104 {
            Some(30u16)
        } else if code == 105 {
            Some(31u16)
        } else if code == 106 {
            Some(32u16)
        } else if code == 107 {
            Some(33u16)
        } else if code == 210 {
            Some(34u16)
        } else if code == 211 {
            Some(35u16)
        } else if code == 212 {
            Some(36u16)
        } else if code == 213 {
            Some(37u16)
        } else if code == 214 {
            Some(38u16)
        } else if code == 215 {
            Some(39u16)
        } else if code == 108 {
            Some(40u16)
        } else if code == 109 {
            Some(41u16)
        } else if code == 218 {
            Some(42u16)
        } else if code == 219 {
            Some(43u16)
        } else if code == 84 {
            Some(44u16)
        } else if code == 85 {
            Some(45u16)
        } else if code == 86 {
            Some(46u16)
        } else if code == 87 {
            Some(47u16)
        } else if code == 100 {
            Some(48u16)
        } else if code == 101 {
            Some(49u16)
        } else if code == 82 {
            Some(50u16)
        } else if code == 83 {
            Some(51u16)
        } else if code == 36 {
            Some(52u16)
        } else if code == 55 {
            Some(53u16)
        } else if code == 56 {
            Some(54u16)
        } else if code == 39 {
            Some(55u16)
        } else if code == 40 {
            Some(56u16)
        } else if code == 88 {
            Some(57u16)
        } else if code == 89 {
            Some(58u16)
        } else if code == 43 {
            Some(59u16)
        } else if code == 44 {
            Some(60u16)
        } else if code == 90 {
            Some(61u16)
        } else if code == 102 {
            Some(62u16)
        } else if code == 103 {
            Some(63u16)
        } else if code == 200 {
            Some(128u16)
        } else if code == 201 {
            Some(192u16)
        } else if code == 91 {
            Some(256u16)
        } else if code == 51 {
            Some(320u16)
        } else if code == 52 {
            Some(384u16)
        } else if code == 53 {
            Some(448u16)
        } else if code == 18 {
            Some(1984u16)
        } else if code == 19 {
            Some(2048u16)
        } else if code == 20 {
            Some(2112u16)
        } else if code == 21 {
            Some(2176u16)
        } else if code == 22 {
            Some(2240u16)
        } else if code == 23 {
            Some(2304u16)
        } else if code == 28 {
            Some(2368u16)
        } else if code == 29 {
            Some(2432u16)
        } else if code == 30 {
            Some(2496u16)
        } else if code == 31 {
            Some(2560u16)
        } else {
            None
        }
    } else if len == 13 {
        if code == 108 {
            Some(512u16)
        } else if code == 109 {
            Some(576u16)
        } else if code == 74 {
            Some(640u16)
        } else if code == 75 {
            Some(704u16)
        } else if code == 76 {
            Some(768u16)
        } else if code == 77 {
            Some(832u16)
        } else if code == 114 {
            Some(896u16)
        } else if code == 115 {
            Some(960u16)
        } else if code == 116 {
            Some(1024u16)
        } else if code == 117 {
            Some(1088u16)
        } else if code == 118 {
            Some(1152u16)
        } else if code == 119 {
            Some(1216u16)
        } else if code == 82 {
            Some(1280u16)
        } else if code == 83 {
            Some(1344u16)
        } else if code == 84 {
            Some(1408u16)
        } else if code == 85 {
            Some(1472u16)
        } else if code == 90 {
            Some(1536u16)
        } else if code == 91 {
            Some(1600u16)
        } else if code == 100 {
            Some(1664u16)
        } else if code == 101 {
            Some(1728u16)
        } else {
            None
        }
    } else {
        None
    }
}

/// The run-length code table of one color.
pub open spec fn run_code(color: Color, len: int, code: nat) -> Option<u16> {
    match color {
        Color::White => white_code(len, code),
        Color::Black => black_code(len, code),
    }
}

/// Law: every value in the run-length tables is a terminating count below 64
/// or a makeup multiple of 64 between 64 and 2560, so a run accumulation
/// always ends at the first terminating code it meets.
pub proof fn lemma_run_code_values(color: Color, len: int, code: nat)
    ensures
        run_code(color, len, code) matches Some(v) ==> v < 64 || (v % 64 == 0 && 64 <= v <= 2560),
{
}

/// Law: every Vertical mode code carries a delta between -3 and 3.
pub proof fn lemma_mode_vertical_range(len: int, code: nat)
    ensures
        mode_code(len, code) matches Some(m) ==> (m matches Mode::Vertical(d) ==> -3 <= d <= 3),
{
}

/// Executable lookup of the run-length table of one color.
pub fn lookup_run(color: Color, len: u16, code: u16) -> (r: Option<u16>)
    ensures
        r == run_code(color, len as int, code as nat),
{
    match color {
        Color::White => lookup_white(len, code),
        Color::Black => lookup_black(len, code),
    }
}

} // verus!
