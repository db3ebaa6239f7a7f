//! The plain-text `P3` raster format: a header, then one line of three
//! decimal channel levels per pixel.
use vstd::prelude::*;

verus! {

/// The largest channel level the format is written with.
pub const MAX_LEVEL: u8 = 255;

// ASCII codes of the characters the format is made of.
/// `0`; the other digits follow it in order.
pub const DIGIT_ZERO: u8 = 48;
/// `2`
pub const DIGIT_TWO: u8 = 50;
/// `3`
pub const DIGIT_THREE: u8 = 51;
/// `5`
pub const DIGIT_FIVE: u8 = 53;
/// `P`
pub const LETTER_P: u8 = 80;
/// A space, between the fields of a line.
pub const SPACE: u8 = 32;
/// A line feed, at the end of each line.
pub const NEWLINE: u8 = 10;

/// The ASCII decimal digits of `n`, most significant first, without leading zeros.
pub open spec fn decimal(n: nat) -> Seq<u8>
    decreases n,
{
    if n < 10 {
        seq![(DIGIT_ZERO + n) as u8]
    } else {
        decimal(n / 10).push((DIGIT_ZERO + n % 10) as u8)
    }
}

/// The header of an image `width` pixels wide and `height` pixels high:
/// `P3`, the two sizes, and the largest level, each on a line of its own.
pub open spec fn header_text(width: nat, height: nat) -> Seq<u8> {
    seq![LETTER_P, DIGIT_THREE, NEWLINE] + decimal(width) + seq![SPACE] + decimal(height) + seq![
        NEWLINE,
        DIGIT_TWO,
        DIGIT_FIVE,
        DIGIT_FIVE,
        NEWLINE,
    ]
}

/// The line of one pixel: its three levels separated by single spaces.
pub open spec fn pixel_text(r: nat, g: nat, b: nat) -> Seq<u8> {
    decimal(r) + seq![SPACE] + decimal(g) + seq![SPACE] + decimal(b) + seq![NEWLINE]
}

/// A scaled channel value held to the range of levels.
pub open spec fn level_of(scaled: int) -> int {
    if scaled < 0 {
        0
    } else if scaled > MAX_LEVEL {
        MAX_LEVEL as int
    } else {
        scaled
    }
}

/// Appends the decimal digits of `n` to `out`.
fn push_decimal(out: &mut Vec<u8>, n: u32)
    ensures
        final(out)@ == old(out)@ + decimal(n as nat),
    decreases n,
{
    if n >= 10 {
        push_decimal(out, n / 10);
    }
    out.push(DIGIT_ZERO + (n % 10) as u8);
    proof {
        if n >= 10 {
            assert(old(out)@ + decimal(n as nat) =~= old(out)@ + decimal((n / 10) as nat)
                + seq![(DIGIT_ZERO + n % 10) as u8]);
        }
        assert(final(out)@ =~= old(out)@ + decimal(n as nat));
    }
}

/// The header of the raster stream for an image of the given size.
pub fn header(width: u32, height: u32) -> (text: Vec<u8>)
    ensures
        text@ == header_text(width as nat, height as nat),
{
    let mut text: Vec<u8> = Vec::new();
    text.push(LETTER_P);
    text.push(DIGIT_THREE);
    text.push(NEWLINE);
    push_decimal(&mut text, width);
    text.push(SPACE);
    push_decimal(&mut text, height);
    text.push(NEWLINE);
    text.push(DIGIT_TWO);
    text.push(DIGIT_FIVE);
    text.push(DIGIT_FIVE);
    text.push(NEWLINE);
    assert(text@ =~= header_text(width as nat, height as nat));
    text
}

/// The level written for a channel whose value, scaled by 256 and rounded
/// down, is `scaled`: values below the range give 0, values above it 255.
pub fn channel_level(scaled: i64) -> (level: u8)
    ensures
        level as int == level_of(scaled as int),
{
    if scaled < 0 {
        0
    } else if scaled > MAX_LEVEL as i64 {
        MAX_LEVEL
    } else {
        scaled as u8
    }
}

/// The line written for one pixel with the given channel levels.
pub fn pixel_line(r: u8, g: u8, b: u8) -> (line: Vec<u8>)
    ensures
        line@ == pixel_text(r as nat, g as nat, b as nat),
{
    let mut line: Vec<u8> = Vec::new();
    push_decimal(&mut line, r as u32);
    line.push(SPACE);
    push_decimal(&mut line, g as u32);
    line.push(SPACE);
    push_decimal(&mut line, b as u32);
    line.push(NEWLINE);
    assert(line@ =~= pixel_text(r as nat, g as nat, b as nat));
    line
}

} // verus!
