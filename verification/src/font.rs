//! The preloaded font table: one five-byte sprite per hexadecimal digit,
//! living at the bottom of memory.

use vstd::prelude::*;

verus! {

/// Bytes each font glyph occupies.
pub const GLYPH_LEN: usize = 5;

/// Bytes the whole font table occupies.
pub const FONT_LEN: usize = 80;

/// Byte `j` of the font table; glyph `d` covers bytes `5*d..5*d+5`.
pub open spec fn font_at(j: int) -> u8 {

    if j == 0 {
        0xF0u8
    } else if j == 1 {
        0x90u8
    } else if j == 2 {
        0x90u8
    } else if j == 3 {
        0x90u8
    } else if j == 4 {
        0xF0u8
    } else if j == 5 {
        0x20u8
    } else if j == 6 {
        0x60u8
    } else if j == 7 {
        0x20u8
    } else if j == 8 {
        0x20u8
    } else if j == 9 {
        0x70u8
    } else if j == 10 {
        0xF0u8
    } else if j == 11 {
        0x10u8
    } else if j == 12 {
        0xF0u8
    } else if j == 13 {
        0x80u8
    } else if j == 14 {
        0xF0u8
    } else if j == 15 {
        0xF0u8
    } else if j == 16 {
        0x10u8
    } else if j == 17 {
        0xF0u8
    } else if j == 18 {
        0x10u8
    } else if j == 19 {
        0xF0u8
    } else if j == 20 {
        0x90u8
    } else if j == 21 {
        0x90u8
    } else if j == 22 {
        0xF0u8
    } else if j == 23 {
        0x10u8
    } else if j == 24 {
        0x10u8
    } else if j == 25 {
        0xF0u8
    } else if j == 26 {
        0x80u8
    } else if j == 27 {
        0xF0u8
    } else if j == 28 {
        0x10u8
    } else if j == 29 {
        0xF0u8
    } else if j == 30 {
        0xF0u8
    } else if j == 31 {
        0x80u8
    } else if j == 32 {
        0xF0u8
    } else if j == 33 {
        0x90u8
    } else if j == 34 {
        0xF0u8
    } else if j == 35 {
        0xF0u8
    } else if j == 36 {
        0x10u8
    } else if j == 37 {
        0x20u8
    } else if j == 38 {
        0x40u8
    } else if j == 39 {
        0x40u8
    } else if j == 40 {
        0xF0u8
    } else if j == 41 {
        0x90u8
    } else if j == 42 {
        0xF0u8
    } else if j == 43 {
        0x90u8
    } else if j == 44 {
        0xF0u8
    } else if j == 45 {
        0xF0u8
    } else if j == 46 {
        0x90u8
    } else if j == 47 {
        0xF0u8
    } else if j == 48 {
        0x10u8
    } else if j == 49 {
        0xF0u8
    } else if j == 50 {
        0xF0u8
    } else if j == 51 {
        0x90u8
    } else if j == 52 {
        0xF0u8
    } else if j == 53 {
        0x90u8
    } else if j == 54 {
        0x90u8
    } else if j == 55 {
        0xE0u8
    } else if j == 56 {
        0x90u8
    } else if j == 57 {
        0xE0u8
    } else if j == 58 {
        0x90u8
    } else if j == 59 {
        0xE0u8
    } else if j == 60 {
        0xF0u8
    } else if j == 61 {
        0x80u8
    } else if j == 62 {
        0x80u8
    } else if j == 63 {
        0x80u8
    } else if j == 64 {
        0xF0u8
    } else if j == 65 {
        0xE0u8
    } else if j == 66 {
        0x90u8
    } else if j == 67 {
        0x90u8
    } else if j == 68 {
        0x90u8
    } else if j == 69 {
        0xE0u8
    } else if j == 70 {
        0xF0u8
    } else if j == 71 {
        0x80u8
    } else if j == 72 {
        0xF0u8
    } else if j == 73 {
        0x80u8
    } else if j == 74 {
        0xF0u8
    } else if j == 75 {
        0xF0u8
    } else if j == 76 {
        0x80u8
    } else if j == 77 {
        0xF0u8
    } else if j == 78 {
        0x80u8
    } else if j == 79 {
        0x80u8
    } else {
        0u8
    }
}

/// Byte `j` of the font table, as executable code.
pub fn font_byte(j: usize) -> (b: u8)
    requires
        j < 80,
    ensures
        b == font_at(j as int),
{
    match j {

        0 => 0xF0,
        1 => 0x90,
        2 => 0x90,
        3 => 0x90,
        4 => 0xF0,
        5 => 0x20,
        6 => 0x60,
        7 => 0x20,
        8 => 0x20,
        9 => 0x70,
        10 => 0xF0,
        11 => 0x10,
        12 => 0xF0,
        13 => 0x80,
        14 => 0xF0,
        15 => 0xF0,
        16 => 0x10,
        17 => 0xF0,
        18 => 0x10,
        19 => 0xF0,
        20 => 0x90,
        21 => 0x90,
        22 => 0xF0,
        23 => 0x10,
        24 => 0x10,
        25 => 0xF0,
        26 => 0x80,
        27 => 0xF0,
        28 => 0x10,
        29 => 0xF0,
        30 => 0xF0,
        31 => 0x80,
        32 => 0xF0,
        33 => 0x90,
        34 => 0xF0,
        35 => 0xF0,
        36 => 0x10,
        37 => 0x20,
        38 => 0x40,
        39 => 0x40,
        40 => 0xF0,
        41 => 0x90,
        42 => 0xF0,
        43 => 0x90,
        44 => 0xF0,
        45 => 0xF0,
        46 => 0x90,
        47 => 0xF0,
        48 => 0x10,
        49 => 0xF0,
        50 => 0xF0,
        51 => 0x90,
        52 => 0xF0,
        53 => 0x90,
        54 => 0x90,
        55 => 0xE0,
        56 => 0x90,
        57 => 0xE0,
        58 => 0x90,
        59 => 0xE0,
        60 => 0xF0,
        61 => 0x80,
        62 => 0x80,
        63 => 0x80,
        64 => 0xF0,
        65 => 0xE0,
        66 => 0x90,
        67 => 0x90,
        68 => 0x90,
        69 => 0xE0,
        70 => 0xF0,
        71 => 0x80,
        72 => 0xF0,
        73 => 0x80,
        74 => 0xF0,
        75 => 0xF0,
        76 => 0x80,
        77 => 0xF0,
        78 => 0x80,
        79 => 0x80,
        _ => 0,
    }
}

} // verus!