//! The plain-text PPM format: a three-line header, then one line for each
//! pixel, the top row first.

use crate::color::Color;
use crate::image::{lemma_index_in_bounds, Image};
use vstd::arithmetic::div_mod::lemma_fundamental_div_mod_converse;
use vstd::prelude::*;

verus! {

/// ASCII `0`; the other digits follow it.
pub const ZERO: u8 = 48;

/// ASCII space, which parts the numbers of one line.
pub const SPACE: u8 = 32;

/// ASCII line feed, which ends every line.
pub const NEWLINE: u8 = 10;

/// ASCII `P`, the first letter of the format's magic number.
pub const LETTER_P: u8 = 80;

/// The largest value of a channel, announced in the header.
pub const MAX_CHANNEL: u32 = 255;

/// The ASCII digit for `d`, where `d` is below ten.
pub open spec fn digit(d: nat) -> u8 {
    (ZERO + d) as u8
}

/// `n` in decimal notation: its digits from the most significant one on,
/// without leading zeros, and the single digit `0` for zero.
pub open spec fn decimal(n: nat) -> Seq<u8>
    decreases n,
{
    if n < 10 {
        seq![digit(n)]
    } else {
        decimal(n / 10).push(digit(n % 10))
    }
}

/// The header: the magic number `P3`, the width and the height on one line,
/// and the largest channel value.
pub open spec fn header(width: nat, height: nat) -> Seq<u8> {
    seq![LETTER_P, digit(3), NEWLINE] + decimal(width) + seq![SPACE] + decimal(height)
        + seq![NEWLINE] + decimal(MAX_CHANNEL as nat) + seq![NEWLINE]
}

/// The line of one pixel: red, green and blue in decimal, parted by spaces.
pub open spec fn pixel_line(color: Color) -> Seq<u8> {
    decimal(color.red as nat) + seq![SPACE] + decimal(color.green as nat) + seq![SPACE]
        + decimal(color.blue as nat) + seq![NEWLINE]
}

/// The lines of `colors`, one after the other.
pub open spec fn pixel_lines(colors: Seq<Color>) -> Seq<u8>
    decreases colors.len(),
{
    if colors.len() == 0 {
        Seq::empty()
    } else {
        pixel_lines(colors.drop_last()) + pixel_line(colors.last())
    }
}

/// The pixels of `image` in the order in which the format lists them: the top
/// row, which is the one with the highest `y`, comes first and row 0 last, and
/// each row runs from left to right.
pub open spec fn scan_order(image: &Image) -> Seq<Color> {
    Seq::new(
        image@.len(),
        |k: int|
            image.pixel(
                k % (image.spec_width() as int),
                image.spec_height() - 1 - k / (image.spec_width() as int),
            ),
    )
}

/// The whole file for `image`.
pub open spec fn ppm_text(image: &Image) -> Seq<u8> {
    header(image.spec_width() as nat, image.spec_height() as nat) + pixel_lines(scan_order(image))
}

/// Whether `byte` is an ASCII digit.
pub open spec fn is_digit(byte: u8) -> bool {
    ZERO <= byte <= ZERO + 9
}

/// The number that a row of ASCII digits denotes, the most significant digit
/// first.
pub open spec fn decimal_value(digits: Seq<u8>) -> nat
    decreases digits.len(),
{
    if digits.len() == 0 {
        0
    } else {
        decimal_value(digits.drop_last()) * 10 + (digits.last() - ZERO) as nat
    }
}

/// How many lines `text` holds: the number of its line feeds.
pub open spec fn line_count(text: Seq<u8>) -> nat
    decreases text.len(),
{
    if text.len() == 0 {
        0
    } else {
        line_count(text.drop_last()) + if text.last() == NEWLINE {
            1nat
        } else {
            0nat
        }
    }
}

/// Decimal notation is made of digits alone, at least one of them, starts
/// with `0` only for zero itself, and denotes the number it was made from: no
/// two numbers are written alike.
pub proof fn lemma_decimal_denotes(n: nat)
    ensures
        decimal(n).len() >= 1,
        forall|i: int| 0 <= i < decimal(n).len() ==> is_digit(#[trigger] decimal(n)[i]),
        decimal(n)[0] == ZERO <==> n == 0,
        decimal_value(decimal(n)) == n,
    decreases n,
{
    if n < 10 {
        assert(decimal(n).drop_last() =~= Seq::<u8>::empty());
        assert(decimal_value(decimal(n).drop_last()) == 0);
    } else {
        lemma_decimal_denotes(n / 10);
        assert(decimal(n).drop_last() =~= decimal(n / 10));
        assert(decimal(n)[0] == decimal(n / 10)[0]);
    }
}

/// Where the format lists the pixel in column `x` of row `y`: after the
/// `height - 1 - y` rows above it and the `x` pixels to its left.
pub proof fn lemma_scan_order_at(image: &Image, x: int, y: int)
    requires
        image.well_formed(),
        0 <= x < image.spec_width(),
        0 <= y < image.spec_height(),
    ensures
        0 <= (image.spec_height() - 1 - y) * image.spec_width() + x < scan_order(image).len(),
        scan_order(image)[(image.spec_height() - 1 - y) * image.spec_width() + x] == image.pixel(
            x,
            y,
        ),
{
    let width = image.spec_width() as int;
    let height = image.spec_height() as int;
    let row = height - 1 - y;
    lemma_index_in_bounds(x, row, width, height);
    lemma_fundamental_div_mod_converse(row * width + x, width, row, x);
}

/// The lines of a text in two parts are those of the one part and those of
/// the other.
pub proof fn lemma_line_count_concat(first: Seq<u8>, second: Seq<u8>)
    ensures
        line_count(first + second) == line_count(first) + line_count(second),
    decreases second.len(),
{
    if second.len() == 0 {
        assert(first + second =~= first);
    } else {
        lemma_line_count_concat(first, second.drop_last());
        assert((first + second).drop_last() =~= first + second.drop_last());
        assert((first + second).last() == second.last());
    }
}

/// A number in decimal notation holds no line feed.
proof fn lemma_line_count_decimal(n: nat)
    ensures
        line_count(decimal(n)) == 0,
    decreases n,
{
    lemma_decimal_denotes(n);
    assert(is_digit(decimal(n).last()));
    if n < 10 {
        assert(decimal(n).drop_last() =~= Seq::<u8>::empty());
        assert(line_count(decimal(n).drop_last()) == 0);
    } else {
        lemma_line_count_decimal(n / 10);
        assert(decimal(n).drop_last() =~= decimal(n / 10));
    }
}

/// A text that ends in a line feed has one line more than what stands before
/// the line feed; one that ends in a space has as many.
proof fn lemma_line_count_push(text: Seq<u8>, byte: u8)
    ensures
        line_count(text + seq![byte]) == line_count(text) + if byte == NEWLINE {
            1nat
        } else {
            0nat
        },
{
    assert((text + seq![byte]).drop_last() =~= text);
}

/// The line of a pixel is one line.
proof fn lemma_line_count_pixel_line(color: Color)
    ensures
        line_count(pixel_line(color)) == 1,
{
    let red = decimal(color.red as nat);
    let green = decimal(color.green as nat);
    let blue = decimal(color.blue as nat);
    lemma_line_count_decimal(color.red as nat);
    lemma_line_count_decimal(color.green as nat);
    lemma_line_count_decimal(color.blue as nat);
    lemma_line_count_push(red, SPACE);
    lemma_line_count_concat(red + seq![SPACE], green);
    lemma_line_count_push(red + seq![SPACE] + green, SPACE);
    lemma_line_count_concat(red + seq![SPACE] + green + seq![SPACE], blue);
    lemma_line_count_push(red + seq![SPACE] + green + seq![SPACE] + blue, NEWLINE);
}

/// The header is three lines.
proof fn lemma_line_count_header(width: nat, height: nat)
    ensures
        line_count(header(width, height)) == 3,
{
    let magic = seq![LETTER_P, digit(3), NEWLINE];
    assert(line_count(magic) == 1) by {
        reveal_with_fuel(line_count, 4);
        assert(magic.drop_last() =~= seq![LETTER_P, digit(3)]);
        assert(magic.drop_last().drop_last() =~= seq![LETTER_P]);
        assert(magic.drop_last().drop_last().drop_last() =~= Seq::<u8>::empty());
    }
    lemma_line_count_decimal(width);
    lemma_line_count_decimal(height);
    lemma_line_count_decimal(MAX_CHANNEL as nat);
    lemma_line_count_concat(magic, decimal(width));
    lemma_line_count_push(magic + decimal(width), SPACE);
    lemma_line_count_concat(magic + decimal(width) + seq![SPACE], decimal(height));
    let sizes = magic + decimal(width) + seq![SPACE] + decimal(height);
    lemma_line_count_push(sizes, NEWLINE);
    lemma_line_count_concat(sizes + seq![NEWLINE], decimal(MAX_CHANNEL as nat));
    lemma_line_count_push(sizes + seq![NEWLINE] + decimal(MAX_CHANNEL as nat), NEWLINE);
}

/// The lines of a row of pixels are as many as the pixels.
proof fn lemma_line_count_pixel_lines(colors: Seq<Color>)
    ensures
        line_count(pixel_lines(colors)) == colors.len(),
    decreases colors.len(),
{
    if colors.len() > 0 {
        lemma_line_count_pixel_lines(colors.drop_last());
        lemma_line_count_pixel_line(colors.last());
        lemma_line_count_concat(pixel_lines(colors.drop_last()), pixel_line(colors.last()));
    }
}

/// The file of an image is three lines of header and one line for each
/// pixel, and nothing stands after the last line feed.
pub proof fn lemma_one_line_for_each_pixel(image: &Image)
    requires
        image.well_formed(),
    ensures
        line_count(ppm_text(image)) == 3 + image.spec_width() * image.spec_height(),
        ppm_text(image).last() == NEWLINE,
{
    let head = header(image.spec_width() as nat, image.spec_height() as nat);
    let order = scan_order(image);
    lemma_line_count_header(image.spec_width() as nat, image.spec_height() as nat);
    lemma_line_count_pixel_lines(order);
    lemma_line_count_concat(head, pixel_lines(order));
    if order.len() == 0 {
        assert(ppm_text(image) =~= head);
    } else {
        let last = pixel_line(order.last());
        assert(pixel_lines(order).last() == last.last());
        assert(ppm_text(image).last() == pixel_lines(order).last());
    }
}

/// Appends `n` in decimal notation to `output`.
fn push_decimal(output: &mut Vec<u8>, n: u32)
    ensures
        final(output)@ == old(output)@ + decimal(n as nat),
    decreases n,
{
    if n >= 10 {
        push_decimal(output, n / 10);
    }
    let last: u8 = (n % 10) as u8;
    output.push(ZERO + last);
}

/// Appends the line of one pixel to `output`.
fn push_pixel_line(output: &mut Vec<u8>, color: Color)
    ensures
        final(output)@ == old(output)@ + pixel_line(color),
{
    push_decimal(output, color.red() as u32);
    output.push(SPACE);
    push_decimal(output, color.green() as u32);
    output.push(SPACE);
    push_decimal(output, color.blue() as u32);
    output.push(NEWLINE);
}

/// Appends the header for an image of the given size to `output`.
fn push_header(output: &mut Vec<u8>, width: u32, height: u32)
    ensures
        final(output)@ == old(output)@ + header(width as nat, height as nat),
{
    output.push(LETTER_P);
    output.push(ZERO + 3);
    output.push(NEWLINE);
    push_decimal(output, width);
    output.push(SPACE);
    push_decimal(output, height);
    output.push(NEWLINE);
    push_decimal(output, MAX_CHANNEL);
    output.push(NEWLINE);
}

/// The lines of the first `k + 1` pixels are the lines of the first `k` and
/// the line of the pixel after them.
proof fn lemma_pixel_lines_step(colors: Seq<Color>, k: int)
    requires
        0 <= k < colors.len(),
    ensures
        pixel_lines(colors.take(k + 1)) == pixel_lines(colors.take(k)) + pixel_line(colors[k]),
{
    assert(colors.take(k + 1).drop_last() =~= colors.take(k));
}

/// Appends `image` in the plain-text PPM format to `output`: the header, then
/// the pixels line by line, from the top row down to row 0 and from left to
/// right within a row.
pub fn write_ppm(image: Image, output: &mut Vec<u8>)
    ensures
        final(output)@ == old(output)@ + ppm_text(&image),
{
    let width = image.width();
    let height = image.height();
    let ghost order = scan_order(&image);
    proof {
        use_type_invariant(&image);
    }
    push_header(output, width, height);
    let ghost head = output@;
    let mut y = height;
    while y > 0
        invariant
            image.well_formed(),
            width == image.spec_width(),
            height == image.spec_height(),
            order == scan_order(&image),
            y <= height,
            output@ == head + pixel_lines(order.take((height - y) * width)),
        decreases y,
    {
        y -= 1;
        let mut x: u32 = 0;
        while x < width
            invariant
                image.well_formed(),
                width == image.spec_width(),
                height == image.spec_height(),
                order == scan_order(&image),
                y < height,
                x <= width,
                output@ == head + pixel_lines(order.take((height - 1 - y) * width + x)),
            decreases width - x,
        {
            let color = image[(x, y)];
            proof {
                lemma_scan_order_at(&image, x as int, y as int);
                lemma_pixel_lines_step(order, (height - 1 - y) * width + x);
            }
            push_pixel_line(output, color);
            x += 1;
        }
        assert((height - 1 - y) * width + width == (height - y) * width) by (nonlinear_arith);
    }
    assert(height * width == width * height) by (nonlinear_arith);
    assert(order.take(height * width) =~= order);
}

} // verus!
