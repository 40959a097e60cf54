//! The frame buffer: a grid of pixels that is read and written by position.

use crate::color::Color;
use std::ops::{Index, IndexMut};
use vstd::arithmetic::div_mod::{lemma_fundamental_div_mod, lemma_fundamental_div_mod_converse};
use vstd::prelude::*;

verus! {

/// A pixel position: the column `x`, then the row `y`.
pub type Point = (u32, u32);

/// A frame buffer: `width * height` pixels, stored row by row.
pub struct Image {
    buffer: Vec<Color>,
    width: u32,
    height: u32,
}

impl View for Image {
    type V = Seq<Color>;

    /// The pixels in storage order: row 0 first, each row from left to right.
    closed spec fn view(&self) -> Seq<Color> {
        self.buffer@
    }
}

impl Image {
    pub closed spec fn spec_width(&self) -> u32 {
        self.width
    }

    pub closed spec fn spec_height(&self) -> u32 {
        self.height
    }

    /// What holds of every image: it has as many pixels as its size says,
    /// and their number fits in 32 bits.
    #[verifier::type_invariant]
    pub open spec fn well_formed(&self) -> bool {
        &&& self@.len() == self.spec_width() * self.spec_height()
        &&& self.spec_width() * self.spec_height() <= u32::MAX
    }

    /// Whether `point` lies inside the image.
    pub open spec fn contains(&self, point: Point) -> bool {
        point.0 < self.spec_width() && point.1 < self.spec_height()
    }

    /// Where the pixel at `point` stands in storage order: rows follow one
    /// another, each `width` pixels long.
    pub open spec fn spec_point_to_index(&self, point: Point) -> int {
        point.1 * self.spec_width() + point.0
    }

    /// The pixel in column `x` of row `y`.
    pub open spec fn pixel(&self, x: int, y: int) -> Color {
        self@[y * self.spec_width() + x]
    }

    /// An image of the given size, every pixel black.
    pub fn new(width: u32, height: u32) -> (image: Self)
        requires
            width * height <= u32::MAX,
        ensures
            image.spec_width() == width,
            image.spec_height() == height,
            image@ == Seq::new(
                (width * height) as nat,
                |i: int| Color { red: 0, green: 0, blue: 0 },
            ),
    {
        Self::with_background(width, height, Color::default())
    }

    /// An image of the given size, every pixel `background`.
    pub fn with_background(width: u32, height: u32, background: Color) -> (image: Self)
        requires
            width * height <= u32::MAX,
        ensures
            image.spec_width() == width,
            image.spec_height() == height,
            image@ == Seq::new((width * height) as nat, |i: int| background),
    {
        let count: u32 = width * height;
        let buffer: Vec<Color> = vec![background; count as usize];
        assert(buffer@ =~= Seq::new((width * height) as nat, |i: int| background));
        Self::with_data(width, height, buffer)
    }

    /// An image of the given size over pixels that are already in storage
    /// order.
    pub fn with_data(width: u32, height: u32, buffer: Vec<Color>) -> (image: Self)
        requires
            width * height <= u32::MAX,
            buffer@.len() == width * height,
        ensures
            image.spec_width() == width,
            image.spec_height() == height,
            image@ == buffer@,
    {
        Image { buffer, width, height }
    }

    #[verifier::when_used_as_spec(spec_width)]
    pub fn width(&self) -> (width: u32)
        ensures
            width == self.spec_width(),
    {
        self.width
    }

    #[verifier::when_used_as_spec(spec_height)]
    pub fn height(&self) -> (height: u32)
        ensures
            height == self.spec_height(),
    {
        self.height
    }

    /// The storage index of the pixel at `point`.
    pub fn point_to_index(&self, point: Point) -> (index: usize)
        requires
            self.contains(point),
        ensures
            index == self.spec_point_to_index(point),
            index < self@.len(),
    {
        let (x, y) = point;
        proof {
            use_type_invariant(self);
            lemma_index_in_bounds(x as int, y as int, self.width as int, self.height as int);
        }
        (y * self.width + x) as usize
    }

    /// The position of the pixel that stands at `index` in storage order: the
    /// inverse of [`Image::point_to_index`].
    pub fn index_to_point(&self, index: usize) -> (point: Point)
        requires
            index < self@.len(),
        ensures
            self.contains(point),
            self.spec_point_to_index(point) == index,
            point.0 == index % (self.spec_width() as usize),
            point.1 == index / (self.spec_width() as usize),
    {
        proof {
            use_type_invariant(self);
            lemma_point_in_bounds(index as int, self.width as int, self.height as int);
        }
        let index: u32 = index as u32;
        (index % self.width, index / self.width)
    }
}

/// A position inside a `width` by `height` grid has a storage index below
/// `width * height`.
pub proof fn lemma_index_in_bounds(x: int, y: int, width: int, height: int)
    requires
        0 <= x < width,
        0 <= y < height,
    ensures
        0 <= y * width <= y * width + x < width * height,
{
    assert(0 <= y * width && (y + 1) * width <= height * width) by (nonlinear_arith)
        requires
            0 <= y < height,
            0 < width,
    ;
    assert((y + 1) * width == y * width + width) by (nonlinear_arith);
    assert(height * width == width * height) by (nonlinear_arith);
}

/// A storage index below `width * height` splits into a column below `width`
/// and a row below `height`, and is put together again from the two.
pub proof fn lemma_point_in_bounds(index: int, width: int, height: int)
    requires
        0 <= width,
        0 <= height,
        0 <= index < width * height,
    ensures
        0 < width,
        0 <= index % width < width,
        0 <= index / width < height,
        (index / width) * width + index % width == index,
{
    assert(width != 0) by (nonlinear_arith)
        requires
            0 <= index < width * height,
    ;
    lemma_fundamental_div_mod(index, width);
    assert(width * (index / width) == (index / width) * width) by (nonlinear_arith);
    assert(0 <= index / width < height) by (nonlinear_arith)
        requires
            0 < width,
            0 <= height,
            0 <= index < width * height,
            0 <= index % width < width,
            (index / width) * width + index % width == index,
    ;
}

/// Positions and storage indices correspond one to one: two positions inside
/// a grid with the same storage index are the same position.
pub proof fn lemma_index_is_injective(x1: int, y1: int, x2: int, y2: int, width: int)
    requires
        0 <= x1 < width,
        0 <= x2 < width,
        y1 * width + x1 == y2 * width + x2,
    ensures
        x1 == x2,
        y1 == y2,
{
    lemma_fundamental_div_mod_converse(y1 * width + x1, width, y1, x1);
    lemma_fundamental_div_mod_converse(y2 * width + x2, width, y2, x2);
}

/// A write changes the pixel at its position and no other: if `after` is
/// `before` with `color` written at `point`, then `after` shows `color` there
/// and, at every other position, what `before` shows.
pub proof fn lemma_write_changes_one_pixel(
    before: &Image,
    after: &Image,
    point: Point,
    color: Color,
    other: Point,
)
    requires
        before.well_formed(),
        before.contains(point),
        before.contains(other),
        after.spec_width() == before.spec_width(),
        after.spec_height() == before.spec_height(),
        after@ == before@.update(before.spec_point_to_index(point), color),
    ensures
        after.well_formed(),
        after.pixel(point.0 as int, point.1 as int) == color,
        other != point ==> after.pixel(other.0 as int, other.1 as int) == before.pixel(
            other.0 as int,
            other.1 as int,
        ),
{
    let width = before.spec_width() as int;
    let height = before.spec_height() as int;
    lemma_index_in_bounds(point.0 as int, point.1 as int, width, height);
    lemma_index_in_bounds(other.0 as int, other.1 as int, width, height);
    if other != point {
        if before.spec_point_to_index(other) == before.spec_point_to_index(point) {
            lemma_index_is_injective(
                other.0 as int,
                other.1 as int,
                point.0 as int,
                point.1 as int,
                width,
            );
        }
    }
}

impl Index<Point> for Image {
    type Output = Color;

    /// Reads the pixel at `point`.
    fn index(&self, point: Point) -> (color: &Color)
        ensures
            *color == self.pixel(point.0 as int, point.1 as int),
    {
        let index = self.point_to_index(point);
        &self.buffer[index]
    }
}

impl vstd::std_specs::core::IndexSpecImpl<Point> for Image {
    /// Indexing asks for a position inside the image.
    open spec fn index_req(&self, point: &Point) -> bool {
        self.contains(*point)
    }
}

impl IndexMut<Point> for Image {
    /// Hands out the pixel at `point` for writing; every other pixel, and the
    /// size, stay as they are.
    fn index_mut(&mut self, point: Point) -> (color: &mut Color)
        requires
            old(self).contains(point),
        ensures
            *color == old(self).pixel(point.0 as int, point.1 as int),
            final(self)@ == old(self)@.update(
                old(self).spec_point_to_index(point),
                *final(color),
            ),
            final(self).spec_width() == old(self).spec_width(),
            final(self).spec_height() == old(self).spec_height(),
    {
        let index = self.point_to_index(point);
        proof {
            use_type_invariant(&*self);
        }
        &mut self.buffer[index]
    }
}

} // verus!
