//! Fixed-point coordinates: whole pixels and the finer subpixels used by
//! the game logic, points and axis-aligned rectangles over them.
use vstd::prelude::*;
use vstd::std_specs::ops::{AddSpecImpl, DivSpecImpl, MulSpecImpl, SubSpecImpl};
use vstd::std_specs::convert::FromSpecImpl;

verus! {

/// How many subpixels make up one pixel.
pub const SUBPIXELS: i32 = 32;

/// Whether a mathematical integer fits in an `i32`.
pub open spec fn fits_i32(v: int) -> bool {
    i32::MIN <= v <= i32::MAX
}

/// Rust's `/` on integers: the quotient rounded toward zero.
pub open spec fn trunc_div(a: int, b: int) -> int
    recommends
        b > 0,
{
    if a >= 0 {
        a / b
    } else {
        -((-a) / b)
    }
}

/// A length or position in whole pixels.
#[derive(Debug, Clone, Copy, PartialEq, Eq, Structural, PartialOrd, Ord, Hash)]
pub struct Pixels(pub i32);

/// A length or position in subpixels, `SUBPIXELS` to a pixel.
#[derive(Debug, Clone, Copy, PartialEq, Eq, Structural, PartialOrd, Ord, Hash)]
pub struct Subpixels(pub i32);

impl Pixels {
    #[inline]
    pub fn new(n: i32) -> (r: Self)
        ensures
            r.0 == n,
    {
        Pixels(n)
    }

    #[inline]
    pub fn zero() -> (r: Self)
        ensures
            r.0 == 0,
    {
        Pixels(0)
    }

    #[inline]
    pub fn is_zero(&self) -> (r: bool)
        ensures
            r == (self.0 == 0),
    {
        self.0 == 0
    }

    #[inline]
    pub fn as_subpixels(&self) -> (r: Subpixels)
        requires
            fits_i32(self.0 * SUBPIXELS),
        ensures
            r.0 == self.0 * SUBPIXELS,
    {
        Subpixels(self.0 * SUBPIXELS)
    }
}

impl Subpixels {
    #[inline]
    pub fn new(n: i32) -> (r: Self)
        ensures
            r.0 == n,
    {
        Subpixels(n)
    }

    #[inline]
    pub fn zero() -> (r: Self)
        ensures
            r.0 == 0,
    {
        Subpixels(0)
    }

    #[inline]
    pub fn is_zero(&self) -> (r: bool)
        ensures
            r == (self.0 == 0),
    {
        self.0 == 0
    }

    #[inline]
    pub fn from_pixels(n: i32) -> (r: Subpixels)
        requires
            fits_i32(n * SUBPIXELS),
        ensures
            r.0 == n * SUBPIXELS,
    {
        Pixels(n).as_subpixels()
    }

    /// Returns self scaled and truncated (toward zero) to the pixel domain.
    #[inline]
    pub fn as_pixels(&self) -> (r: Pixels)
        ensures
            r.0 == trunc_div(self.0 as int, SUBPIXELS as int),
    {
        Pixels(self.0 / SUBPIXELS)
    }

    #[inline]
    pub fn sign(self) -> (r: i32)
        ensures
            r == (if self.0 < 0 {
                -1int
            } else if self.0 > 0 {
                1int
            } else {
                0int
            }),
    {
        if self.0 < 0 {
            -1
        } else if self.0 > 0 {
            1
        } else {
            0
        }
    }

    #[inline]
    pub fn abs(self) -> (r: Self)
        requires
            self.0 != i32::MIN,
        ensures
            r.0 == (if self.0 < 0 {
                -self.0
            } else {
                self.0 as int
            }),
    {
        if self.0 < 0 {
            Subpixels(-self.0)
        } else {
            self
        }
    }
}


/// A coordinate type: an `i32` quantity that rectangles and points are built from.
pub trait Coord: Copy + Sized {
    /// The quantity as a mathematical integer.
    spec fn val(self) -> int;

    /// The coordinate holding the integer `v` (meaningful where `v` fits in an `i32`).
    spec fn from_val(v: int) -> Self;

    /// The coordinate holding `v`.
    fn make(v: i32) -> (r: Self)
        ensures
            r == Self::from_val(v as int),
    ;

    /// The raw `i32` quantity.
    fn raw(self) -> (r: i32)
        ensures
            r == self.val(),
    ;

    /// Adds two coordinates.
    fn plus(self, other: Self) -> (r: Self)
        requires
            fits_i32(self.val() + other.val()),
        ensures
            r == Self::from_val(self.val() + other.val()),
    ;

    /// Subtracts two coordinates.
    fn minus(self, other: Self) -> (r: Self)
        requires
            fits_i32(self.val() - other.val()),
        ensures
            r == Self::from_val(self.val() - other.val()),
    ;

    /// Scales a coordinate.
    fn times(self, k: i32) -> (r: Self)
        requires
            fits_i32(self.val() * k),
        ensures
            r == Self::from_val(self.val() * k),
    ;

    proof fn lemma_val(self)
        ensures
            fits_i32(self.val()),
            Self::from_val(self.val()) == self,
    ;

    proof fn lemma_from_val(v: int)
        requires
            fits_i32(v),
        ensures
            Self::from_val(v).val() == v,
    ;
}

impl Coord for i32 {
    open spec fn val(self) -> int {
        self as int
    }

    open spec fn from_val(v: int) -> Self {
        v as i32
    }

    fn make(v: i32) -> (r: Self) {
        v
    }

    fn raw(self) -> (r: i32) {
        self
    }

    fn plus(self, other: Self) -> (r: Self) {
        self + other
    }

    fn minus(self, other: Self) -> (r: Self) {
        self - other
    }

    fn times(self, k: i32) -> (r: Self) {
        self * k
    }

    proof fn lemma_val(self) {
    }

    proof fn lemma_from_val(v: int) {
    }
}

impl Coord for Pixels {
    open spec fn val(self) -> int {
        self.0 as int
    }

    open spec fn from_val(v: int) -> Self {
        Pixels(v as i32)
    }

    fn make(v: i32) -> (r: Self) {
        Pixels(v)
    }

    fn raw(self) -> (r: i32) {
        self.0
    }

    fn plus(self, other: Self) -> (r: Self) {
        Pixels(self.0 + other.0)
    }

    fn minus(self, other: Self) -> (r: Self) {
        Pixels(self.0 - other.0)
    }

    fn times(self, k: i32) -> (r: Self) {
        Pixels(self.0 * k)
    }

    proof fn lemma_val(self) {
    }

    proof fn lemma_from_val(v: int) {
    }
}

impl Coord for Subpixels {
    open spec fn val(self) -> int {
        self.0 as int
    }

    open spec fn from_val(v: int) -> Self {
        Subpixels(v as i32)
    }

    fn make(v: i32) -> (r: Self) {
        Subpixels(v)
    }

    fn raw(self) -> (r: i32) {
        self.0
    }

    fn plus(self, other: Self) -> (r: Self) {
        Subpixels(self.0 + other.0)
    }

    fn minus(self, other: Self) -> (r: Self) {
        Subpixels(self.0 - other.0)
    }

    fn times(self, k: i32) -> (r: Self) {
        Subpixels(self.0 * k)
    }

    proof fn lemma_val(self) {
    }

    proof fn lemma_from_val(v: int) {
    }
}

// Points

/// A point, or a displacement, in the plane.
#[derive(Debug, Clone, Copy, PartialEq, Eq)]
pub struct Point<T> {
    pub x: T,
    pub y: T,
}

impl<T> Point<T> {
    #[inline]
    pub fn new(x: T, y: T) -> (r: Self)
        ensures
            r.x == x,
            r.y == y,
    {
        Point { x, y }
    }
}

impl Point<Pixels> {
    pub fn zero() -> (r: Self)
        ensures
            r.x.0 == 0 && r.y.0 == 0,
    {
        Point { x: Pixels(0), y: Pixels(0) }
    }

    /// Whether the subpixel form of the point fits in an `i32` on each axis.
    pub open spec fn scalable(self) -> bool {
        fits_i32(self.x.0 * SUBPIXELS) && fits_i32(self.y.0 * SUBPIXELS)
    }

    #[inline]
    pub fn as_subpixels(&self) -> (r: Point<Subpixels>)
        requires
            self.scalable(),
        ensures
            r.x.0 == self.x.0 * SUBPIXELS,
            r.y.0 == self.y.0 * SUBPIXELS,
    {
        Point::new(self.x.as_subpixels(), self.y.as_subpixels())
    }
}

impl Point<Subpixels> {
    pub fn zero() -> (r: Self)
        ensures
            r.x.0 == 0 && r.y.0 == 0,
    {
        Point { x: Subpixels(0), y: Subpixels(0) }
    }

    #[inline]
    pub fn as_pixels(&self) -> (r: Point<Pixels>)
        ensures
            r.x.0 == trunc_div(self.x.0 as int, SUBPIXELS as int),
            r.y.0 == trunc_div(self.y.0 as int, SUBPIXELS as int),
    {
        Point::new(self.x.as_pixels(), self.y.as_pixels())
    }
}

// Rect

/// An axis-aligned rectangle: its top-left corner, width and height.
#[derive(Debug, Clone, Copy)]
pub struct Rect<T> {
    pub x: T,
    pub y: T,
    pub w: T,
    pub h: T,
}

impl<T: Coord> Rect<T> {
    /// The right and bottom edges fit in an `i32`.
    pub open spec fn edges_fit(self) -> bool {
        fits_i32(self.x.val() + self.w.val()) && fits_i32(self.y.val() + self.h.val())
    }

    pub open spec fn spec_left(self) -> int {
        self.x.val()
    }

    pub open spec fn spec_top(self) -> int {
        self.y.val()
    }

    pub open spec fn spec_right(self) -> int {
        self.x.val() + self.w.val()
    }

    pub open spec fn spec_bottom(self) -> int {
        self.y.val() + self.h.val()
    }

    /// Two rectangles intersect when their closed extents overlap on both axes.
    pub open spec fn spec_intersects(self, other: Rect<T>) -> bool {
        &&& self.spec_right() >= other.spec_left()
        &&& self.spec_left() <= other.spec_right()
        &&& self.spec_bottom() >= other.spec_top()
        &&& self.spec_top() <= other.spec_bottom()
    }

    /// A point lies in a rectangle when it is within its closed extent.
    pub open spec fn spec_contains(self, point: Point<T>) -> bool {
        &&& point.x.val() >= self.spec_left()
        &&& point.x.val() <= self.spec_right()
        &&& point.y.val() >= self.spec_top()
        &&& point.y.val() <= self.spec_bottom()
    }

    #[inline]
    pub fn top(&self) -> (r: T)
        ensures
            r == self.y,
    {
        self.y
    }

    #[inline]
    pub fn left(&self) -> (r: T)
        ensures
            r == self.x,
    {
        self.x
    }

    #[inline]
    pub fn right(&self) -> (r: T)
        requires
            fits_i32(self.x.val() + self.w.val()),
        ensures
            r.val() == self.spec_right(),
    {
        proof {
            T::lemma_from_val(self.spec_right());
        }
        self.x.plus(self.w)
    }

    #[inline]
    pub fn bottom(&self) -> (r: T)
        requires
            fits_i32(self.y.val() + self.h.val()),
        ensures
            r.val() == self.spec_bottom(),
    {
        proof {
            T::lemma_from_val(self.spec_bottom());
        }
        self.y.plus(self.h)
    }

    #[inline]
    pub fn top_left(&self) -> (r: Point<T>)
        ensures
            r.x == self.x,
            r.y == self.y,
    {
        Point::new(self.x, self.y)
    }

    pub fn intersects(&self, other: Rect<T>) -> (r: bool)
        requires
            self.edges_fit(),
            other.edges_fit(),
        ensures
            r == self.spec_intersects(other),
    {
        self.right().raw() >= other.left().raw() && self.left().raw() <= other.right().raw()
            && self.bottom().raw() >= other.top().raw() && self.top().raw()
            <= other.bottom().raw()
    }

    pub fn contains(&self, point: Point<T>) -> (r: bool)
        requires
            self.edges_fit(),
        ensures
            r == self.spec_contains(point),
    {
        point.x.raw() >= self.left().raw() && point.x.raw() <= self.right().raw()
            && point.y.raw() >= self.top().raw() && point.y.raw() <= self.bottom().raw()
    }
}

impl Rect<Subpixels> {
    #[inline]
    pub fn as_pixels(&self) -> (r: Rect<Pixels>)
        ensures
            r.x.0 == trunc_div(self.x.0 as int, SUBPIXELS as int),
            r.y.0 == trunc_div(self.y.0 as int, SUBPIXELS as int),
            r.w.0 == trunc_div(self.w.0 as int, SUBPIXELS as int),
            r.h.0 == trunc_div(self.h.0 as int, SUBPIXELS as int),
    {
        Rect {
            x: self.x.as_pixels(),
            y: self.y.as_pixels(),
            w: self.w.as_pixels(),
            h: self.h.as_pixels(),
        }
    }
}

impl Rect<Pixels> {
    /// Whether the subpixel form of the rectangle fits in `i32`s.
    pub open spec fn scalable(self) -> bool {
        &&& fits_i32(self.x.0 * SUBPIXELS)
        &&& fits_i32(self.y.0 * SUBPIXELS)
        &&& fits_i32(self.w.0 * SUBPIXELS)
        &&& fits_i32(self.h.0 * SUBPIXELS)
    }

    #[inline]
    pub fn as_subpixels(&self) -> (r: Rect<Subpixels>)
        requires
            self.scalable(),
        ensures
            r.x.0 == self.x.0 * SUBPIXELS,
            r.y.0 == self.y.0 * SUBPIXELS,
            r.w.0 == self.w.0 * SUBPIXELS,
            r.h.0 == self.h.0 * SUBPIXELS,
    {
        Rect {
            x: self.x.as_subpixels(),
            y: self.y.as_subpixels(),
            w: self.w.as_subpixels(),
            h: self.h.as_subpixels(),
        }
    }
}


// Arithmetic on pixels and subpixels.

impl std::ops::Add<Pixels> for Pixels {
    type Output = Pixels;

    #[inline]
    fn add(self, rhs: Pixels) -> (r: Pixels) {
        Pixels(self.0 + rhs.0)
    }
}

impl AddSpecImpl<Pixels> for Pixels {
    open spec fn obeys_add_spec() -> bool {
        true
    }

    open spec fn add_req(self, rhs: Pixels) -> bool {
        fits_i32(self.0 + rhs.0)
    }

    open spec fn add_spec(self, rhs: Pixels) -> Pixels {
        Pixels((self.0 + rhs.0) as i32)
    }
}

impl std::ops::Mul<i32> for Pixels {
    type Output = Pixels;

    #[inline]
    fn mul(self, rhs: i32) -> (r: Pixels) {
        Pixels(self.0 * rhs)
    }
}

impl MulSpecImpl<i32> for Pixels {
    open spec fn obeys_mul_spec() -> bool {
        true
    }

    open spec fn mul_req(self, rhs: i32) -> bool {
        fits_i32(self.0 * rhs)
    }

    open spec fn mul_spec(self, rhs: i32) -> Pixels {
        Pixels((self.0 * rhs) as i32)
    }
}

impl std::ops::Div<i32> for Pixels {
    type Output = Pixels;

    #[inline]
    fn div(self, rhs: i32) -> (r: Pixels) {
        Pixels(div_trunc(self.0, rhs))
    }
}

impl DivSpecImpl<i32> for Pixels {
    open spec fn obeys_div_spec() -> bool {
        true
    }

    open spec fn div_req(self, rhs: i32) -> bool {
        rhs != 0 && !(self.0 == i32::MIN && rhs == -1)
    }

    open spec fn div_spec(self, rhs: i32) -> Pixels {
        Pixels(trunc_div_i32(self.0, rhs))
    }
}

impl std::ops::Div<Pixels> for Pixels {
    type Output = i32;

    #[inline]
    fn div(self, rhs: Pixels) -> (r: i32) {
        div_trunc(self.0, rhs.0)
    }
}

impl DivSpecImpl<Pixels> for Pixels {
    open spec fn obeys_div_spec() -> bool {
        true
    }

    open spec fn div_req(self, rhs: Pixels) -> bool {
        rhs.0 != 0 && !(self.0 == i32::MIN && rhs.0 == -1)
    }

    open spec fn div_spec(self, rhs: Pixels) -> i32 {
        trunc_div_i32(self.0, rhs.0)
    }
}

impl std::ops::Add<Subpixels> for Subpixels {
    type Output = Subpixels;

    #[inline]
    fn add(self, rhs: Subpixels) -> (r: Subpixels) {
        Subpixels(self.0 + rhs.0)
    }
}

impl AddSpecImpl<Subpixels> for Subpixels {
    open spec fn obeys_add_spec() -> bool {
        true
    }

    open spec fn add_req(self, rhs: Subpixels) -> bool {
        fits_i32(self.0 + rhs.0)
    }

    open spec fn add_spec(self, rhs: Subpixels) -> Subpixels {
        Subpixels((self.0 + rhs.0) as i32)
    }
}

impl std::ops::Sub<Subpixels> for Subpixels {
    type Output = Subpixels;

    #[inline]
    fn sub(self, rhs: Subpixels) -> (r: Subpixels) {
        Subpixels(self.0 - rhs.0)
    }
}

impl SubSpecImpl<Subpixels> for Subpixels {
    open spec fn obeys_sub_spec() -> bool {
        true
    }

    open spec fn sub_req(self, rhs: Subpixels) -> bool {
        fits_i32(self.0 - rhs.0)
    }

    open spec fn sub_spec(self, rhs: Subpixels) -> Subpixels {
        Subpixels((self.0 - rhs.0) as i32)
    }
}

impl std::ops::Mul<i32> for Subpixels {
    type Output = Subpixels;

    #[inline]
    fn mul(self, rhs: i32) -> (r: Subpixels) {
        Subpixels(self.0 * rhs)
    }
}

impl MulSpecImpl<i32> for Subpixels {
    open spec fn obeys_mul_spec() -> bool {
        true
    }

    open spec fn mul_req(self, rhs: i32) -> bool {
        fits_i32(self.0 * rhs)
    }

    open spec fn mul_spec(self, rhs: i32) -> Subpixels {
        Subpixels((self.0 * rhs) as i32)
    }
}

impl std::ops::Div<i32> for Subpixels {
    type Output = Subpixels;

    #[inline]
    fn div(self, rhs: i32) -> (r: Subpixels) {
        Subpixels(div_trunc(self.0, rhs))
    }
}

impl DivSpecImpl<i32> for Subpixels {
    open spec fn obeys_div_spec() -> bool {
        true
    }

    open spec fn div_req(self, rhs: i32) -> bool {
        rhs != 0 && !(self.0 == i32::MIN && rhs == -1)
    }

    open spec fn div_spec(self, rhs: i32) -> Subpixels {
        Subpixels(trunc_div_i32(self.0, rhs))
    }
}

impl std::ops::Div<Subpixels> for Subpixels {
    type Output = i32;

    #[inline]
    fn div(self, rhs: Subpixels) -> (r: i32) {
        div_trunc(self.0, rhs.0)
    }
}

impl DivSpecImpl<Subpixels> for Subpixels {
    open spec fn obeys_div_spec() -> bool {
        true
    }

    open spec fn div_req(self, rhs: Subpixels) -> bool {
        rhs.0 != 0 && !(self.0 == i32::MIN && rhs.0 == -1)
    }

    open spec fn div_spec(self, rhs: Subpixels) -> i32 {
        trunc_div_i32(self.0, rhs.0)
    }
}

/// Rust's `/` on two `i32`s, rounding toward zero, for any nonzero divisor.
pub open spec fn trunc_div_i32(a: i32, b: i32) -> i32 {
    let q = if b > 0 {
        trunc_div(a as int, b as int)
    } else {
        -trunc_div(a as int, -b)
    };
    q as i32
}

/// Rust's `/` on `i32`, for every divisor that does not make it panic.
pub fn div_trunc(a: i32, b: i32) -> (r: i32)
    requires
        b != 0,
        !(a == i32::MIN && b == -1),
    ensures
        r == trunc_div_i32(a, b),
{
    if b > 0 {
        a / b
    } else if b == i32::MIN {
        if a == i32::MIN {
            1
        } else {
            assert(trunc_div(a as int, -(b as int)) == 0) by {
                if a >= 0 {
                    assert((a as int) / (-(b as int)) == 0) by (nonlinear_arith)
                        requires
                            0 <= a < -(b as int),
                    ;
                } else {
                    assert((-(a as int)) / (-(b as int)) == 0) by (nonlinear_arith)
                        requires
                            0 < -(a as int) < -(b as int),
                    ;
                }
            }
            0
        }
    } else {
        let nb: i32 = -b;
        let q: i32 = a / nb;
        assert(q != i32::MIN) by {
            if nb == 1 {
                assert(q == a);
            } else if a >= 0 {
                assert((a as int) / (nb as int) >= 0) by (nonlinear_arith)
                    requires
                        a >= 0,
                        nb > 0,
                ;
            } else {
                assert((-(a as int)) / (nb as int) <= -(a as int) / 2) by (nonlinear_arith)
                    requires
                        a < 0,
                        nb >= 2,
                ;
            }
        }
        -q
    }
}

// Arithmetic on points and rectangles.

impl<T: Coord> std::ops::Add<Point<T>> for Point<T> {
    type Output = Point<T>;

    #[inline]
    fn add(self, rhs: Point<T>) -> (r: Point<T>) {
        Point::new(self.x.plus(rhs.x), self.y.plus(rhs.y))
    }
}

impl<T: Coord> AddSpecImpl<Point<T>> for Point<T> {
    open spec fn obeys_add_spec() -> bool {
        true
    }

    open spec fn add_req(self, rhs: Point<T>) -> bool {
        fits_i32(self.x.val() + rhs.x.val()) && fits_i32(self.y.val() + rhs.y.val())
    }

    open spec fn add_spec(self, rhs: Point<T>) -> Point<T> {
        Point { x: T::from_val(self.x.val() + rhs.x.val()), y: T::from_val(self.y.val() + rhs.y.val()) }
    }
}

impl<T: Coord> std::ops::Sub<Point<T>> for Point<T> {
    type Output = Point<T>;

    #[inline]
    fn sub(self, rhs: Point<T>) -> (r: Point<T>) {
        Point::new(self.x.minus(rhs.x), self.y.minus(rhs.y))
    }
}

impl<T: Coord> SubSpecImpl<Point<T>> for Point<T> {
    open spec fn obeys_sub_spec() -> bool {
        true
    }

    open spec fn sub_req(self, rhs: Point<T>) -> bool {
        fits_i32(self.x.val() - rhs.x.val()) && fits_i32(self.y.val() - rhs.y.val())
    }

    open spec fn sub_spec(self, rhs: Point<T>) -> Point<T> {
        Point { x: T::from_val(self.x.val() - rhs.x.val()), y: T::from_val(self.y.val() - rhs.y.val()) }
    }
}

impl<T: Coord> std::ops::Mul<i32> for Point<T> {
    type Output = Point<T>;

    #[inline]
    fn mul(self, rhs: i32) -> (r: Point<T>) {
        Point::new(self.x.times(rhs), self.y.times(rhs))
    }
}

impl<T: Coord> MulSpecImpl<i32> for Point<T> {
    open spec fn obeys_mul_spec() -> bool {
        true
    }

    open spec fn mul_req(self, rhs: i32) -> bool {
        fits_i32(self.x.val() * rhs) && fits_i32(self.y.val() * rhs)
    }

    open spec fn mul_spec(self, rhs: i32) -> Point<T> {
        Point { x: T::from_val(self.x.val() * rhs), y: T::from_val(self.y.val() * rhs) }
    }
}

impl<T: Coord> std::ops::Add<Point<T>> for Rect<T> {
    type Output = Rect<T>;

    #[inline]
    fn add(self, rhs: Point<T>) -> (r: Rect<T>) {
        Rect { x: self.x.plus(rhs.x), y: self.y.plus(rhs.y), w: self.w, h: self.h }
    }
}

impl<T: Coord> AddSpecImpl<Point<T>> for Rect<T> {
    open spec fn obeys_add_spec() -> bool {
        true
    }

    open spec fn add_req(self, rhs: Point<T>) -> bool {
        fits_i32(self.x.val() + rhs.x.val()) && fits_i32(self.y.val() + rhs.y.val())
    }

    open spec fn add_spec(self, rhs: Point<T>) -> Rect<T> {
        Rect {
            x: T::from_val(self.x.val() + rhs.x.val()),
            y: T::from_val(self.y.val() + rhs.y.val()),
            w: self.w,
            h: self.h,
        }
    }
}

// Conversions.

impl<T> From<(T, T)> for Point<T> {
    #[inline]
    fn from(value: (T, T)) -> (r: Point<T>) {
        Point::new(value.0, value.1)
    }
}

impl<T> FromSpecImpl<(T, T)> for Point<T> {
    open spec fn obeys_from_spec() -> bool {
        true
    }

    open spec fn from_spec(v: (T, T)) -> Point<T> {
        Point { x: v.0, y: v.1 }
    }
}

/// The subpixel quantity of `n` pixels, wrapped to an `i32` as a release build
/// of the multiplication does.
pub open spec fn scale_wrapped(n: i32) -> i32 {
    vstd::wrapping::i32_specs::wrapping_mul(n, SUBPIXELS)
}

/// Converts a pixel quantity to subpixels, wrapping on overflow.
pub fn pixels_to_subpixels_wrapping(n: i32) -> (r: i32)
    ensures
        r == scale_wrapped(n),
        fits_i32(n * SUBPIXELS) ==> r == n * SUBPIXELS,
{
    n.wrapping_mul(SUBPIXELS)
}

impl From<Point<Pixels>> for Point<Subpixels> {
    #[inline]
    fn from(value: Point<Pixels>) -> (r: Point<Subpixels>) {
        Point::new(
            Subpixels(pixels_to_subpixels_wrapping(value.x.0)),
            Subpixels(pixels_to_subpixels_wrapping(value.y.0)),
        )
    }
}

impl FromSpecImpl<Point<Pixels>> for Point<Subpixels> {
    open spec fn obeys_from_spec() -> bool {
        true
    }

    open spec fn from_spec(v: Point<Pixels>) -> Point<Subpixels> {
        Point { x: Subpixels(scale_wrapped(v.x.0)), y: Subpixels(scale_wrapped(v.y.0)) }
    }
}

impl From<Rect<Pixels>> for Rect<Subpixels> {
    #[inline]
    fn from(value: Rect<Pixels>) -> (r: Rect<Subpixels>) {
        Rect {
            x: Subpixels(pixels_to_subpixels_wrapping(value.x.0)),
            y: Subpixels(pixels_to_subpixels_wrapping(value.y.0)),
            w: Subpixels(pixels_to_subpixels_wrapping(value.w.0)),
            h: Subpixels(pixels_to_subpixels_wrapping(value.h.0)),
        }
    }
}

impl FromSpecImpl<Rect<Pixels>> for Rect<Subpixels> {
    open spec fn obeys_from_spec() -> bool {
        true
    }

    open spec fn from_spec(v: Rect<Pixels>) -> Rect<Subpixels> {
        Rect {
            x: Subpixels(scale_wrapped(v.x.0)),
            y: Subpixels(scale_wrapped(v.y.0)),
            w: Subpixels(scale_wrapped(v.w.0)),
            h: Subpixels(scale_wrapped(v.h.0)),
        }
    }
}

} // verus!
