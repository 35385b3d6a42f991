//! Fixed-size numeric vectors over verified integer scalars.
//!
//! The vector types are generic over a [`Number`] scalar. Arithmetic is
//! component-wise and every operation states its exact result over the
//! mathematical value of the scalars; preconditions rule out overflow.

use vstd::prelude::*;

verus! {

/// Truncating division (the quotient is rounded toward zero), the rounding
/// used by machine integer division.
pub open spec fn trunc_div(a: int, b: int) -> int {
    if b == 0 {
        0
    } else if (a < 0) == (b < 0) {
        (vstd::math::abs(a) / vstd::math::abs(b)) as int
    } else {
        -((vstd::math::abs(a) / vstd::math::abs(b)) as int)
    }
}

/// A machine scalar with a mathematical value, a representable range, and
/// exact arithmetic under preconditions that keep results in range.
pub trait Number: Sized + Copy {
    /// The mathematical value of this scalar.
    spec fn v(self) -> int;

    /// Whether a mathematical integer is representable in this type.
    spec fn fits(x: int) -> bool;

    /// The scalar holding a representable integer.
    spec fn of_int(x: int) -> Self;

    /// Every value of the type is representable.
    proof fn lemma_fits(self)
        ensures
            Self::fits(self.v()),
    ;

    /// `of_int` and `v` are inverse on representable integers.
    proof fn lemma_of_int(x: int)
        requires
            Self::fits(x),
        ensures
            Self::of_int(x).v() == x,
    ;

    /// The zero scalar.
    fn zero() -> (r: Self)
        ensures
            r.v() == 0,
            r == Self::of_int(0),
    ;

    /// The unit scalar.
    fn one() -> (r: Self)
        ensures
            r.v() == 1,
            r == Self::of_int(1),
    ;

    fn plus(self, rhs: Self) -> (r: Self)
        requires
            Self::fits(self.v() + rhs.v()),
        ensures
            r.v() == self.v() + rhs.v(),
            r == Self::of_int(self.v() + rhs.v()),
    ;

    fn minus(self, rhs: Self) -> (r: Self)
        requires
            Self::fits(self.v() - rhs.v()),
        ensures
            r.v() == self.v() - rhs.v(),
            r == Self::of_int(self.v() - rhs.v()),
    ;

    fn times(self, rhs: Self) -> (r: Self)
        requires
            Self::fits(self.v() * rhs.v()),
        ensures
            r.v() == self.v() * rhs.v(),
            r == Self::of_int(self.v() * rhs.v()),
    ;

    /// Division; the quotient is truncated toward zero as machine division is.
    fn div_by(self, rhs: Self) -> (r: Self)
        requires
            rhs.v() != 0,
            Self::fits(trunc_div(self.v(), rhs.v())),
        ensures
            r.v() == trunc_div(self.v(), rhs.v()),
            r == Self::of_int(trunc_div(self.v(), rhs.v())),
    ;
}

impl Number for u32 {
    open spec fn v(self) -> int {
        self as int
    }

    open spec fn fits(x: int) -> bool {
        0 <= x <= u32::MAX
    }

    open spec fn of_int(x: int) -> Self {
        x as u32
    }

    proof fn lemma_fits(self) {
    }

    proof fn lemma_of_int(x: int) {
    }

    fn zero() -> (r: Self) {
        0
    }

    fn one() -> (r: Self) {
        1
    }

    fn plus(self, rhs: Self) -> (r: Self) {
        self + rhs
    }

    fn minus(self, rhs: Self) -> (r: Self) {
        self - rhs
    }

    fn times(self, rhs: Self) -> (r: Self) {
        self * rhs
    }

    fn div_by(self, rhs: Self) -> (r: Self) {
        self / rhs
    }
}

impl Number for usize {
    open spec fn v(self) -> int {
        self as int
    }

    open spec fn fits(x: int) -> bool {
        0 <= x <= usize::MAX
    }

    open spec fn of_int(x: int) -> Self {
        x as usize
    }

    proof fn lemma_fits(self) {
    }

    proof fn lemma_of_int(x: int) {
    }

    fn zero() -> (r: Self) {
        0
    }

    fn one() -> (r: Self) {
        1
    }

    fn plus(self, rhs: Self) -> (r: Self) {
        self + rhs
    }

    fn minus(self, rhs: Self) -> (r: Self) {
        self - rhs
    }

    fn times(self, rhs: Self) -> (r: Self) {
        self * rhs
    }

    fn div_by(self, rhs: Self) -> (r: Self) {
        self / rhs
    }
}

impl Number for i32 {
    open spec fn v(self) -> int {
        self as int
    }

    open spec fn fits(x: int) -> bool {
        i32::MIN <= x <= i32::MAX
    }

    open spec fn of_int(x: int) -> Self {
        x as i32
    }

    proof fn lemma_fits(self) {
    }

    proof fn lemma_of_int(x: int) {
    }

    fn zero() -> (r: Self) {
        0
    }

    fn one() -> (r: Self) {
        1
    }

    fn plus(self, rhs: Self) -> (r: Self) {
        self + rhs
    }

    fn minus(self, rhs: Self) -> (r: Self) {
        self - rhs
    }

    fn times(self, rhs: Self) -> (r: Self) {
        self * rhs
    }

    fn div_by(self, rhs: Self) -> (r: Self) {
        let neg = (self < 0) != (rhs < 0);
        let a: u64 = if self < 0 {
            (0i64 - self as i64) as u64
        } else {
            self as u64
        };
        let b: u64 = if rhs < 0 {
            (0i64 - rhs as i64) as u64
        } else {
            rhs as u64
        };
        let q: u64 = a / b;
        proof {
            assert(a == vstd::math::abs(self as int));
            assert(b == vstd::math::abs(rhs as int));
        }
        if neg {
            (0i64 - q as i64) as i32
        } else {
            q as i32
        }
    }
}

/// A two-component vector; component order is (x, y).
#[derive(Clone, Copy, Debug, PartialEq, Eq, Structural, Hash)]
pub struct TVec2<T> {
    pub x: T,
    pub y: T,
}

/// A three-component vector; component order is (x, y, z).
#[derive(Clone, Copy, Debug, PartialEq, Eq, Structural, Hash)]
pub struct TVec3<T> {
    pub x: T,
    pub y: T,
    pub z: T,
}

/// A four-component vector; component order is (x, y, z, w).
#[derive(Clone, Copy, Debug, PartialEq, Eq, Structural, Hash)]
pub struct TVec4<T> {
    pub x: T,
    pub y: T,
    pub z: T,
    pub w: T,
}

pub type Vec2u = TVec2<u32>;

pub type Vec2i = TVec2<i32>;

pub type Vec3u = TVec3<u32>;

pub type Vec3i = TVec3<i32>;

pub type Vec4u = TVec4<u32>;

pub type Vec4i = TVec4<i32>;

impl<T: Number> TVec2<T> {
    /// The vector (x, y).
    pub fn new(x: T, y: T) -> (r: Self)
        ensures
            r == (TVec2 { x, y }),
    {
        TVec2 { x, y }
    }

    /// The vector with both components equal to `value`.
    pub fn splat(value: T) -> (r: Self)
        ensures
            r == (TVec2 { x: value, y: value }),
    {
        TVec2 { x: value, y: value }
    }

    /// The zero vector.
    pub fn zero() -> (r: Self)
        ensures
            r.x.v() == 0 && r.y.v() == 0,
    {
        TVec2 { x: T::zero(), y: T::zero() }
    }

    /// The all-ones vector.
    pub fn one() -> (r: Self)
        ensures
            r.x.v() == 1 && r.y.v() == 1,
    {
        TVec2 { x: T::one(), y: T::one() }
    }

    /// Replaces the component at `index`: 0 is x, 1 is y.
    pub fn set(&mut self, index: usize, value: T)
        requires
            index < 2,
        ensures
            final(self).x == (if index == 0 {
                value
            } else {
                old(self).x
            }),
            final(self).y == (if index == 1 {
                value
            } else {
                old(self).y
            }),
    {
        if index == 0 {
            self.x = value;
        } else {
            self.y = value;
        }
    }

    /// The squared Euclidean norm: the dot product with itself.
    pub fn norm_sq(&self) -> (r: T)
        requires
            T::fits(self.x.v() * self.x.v()),
            T::fits(self.y.v() * self.y.v()),
            T::fits(self.x.v() * self.x.v() + self.y.v() * self.y.v()),
        ensures
            r.v() == self.x.v() * self.x.v() + self.y.v() * self.y.v(),
    {
        self.dot(self)
    }

    /// The x component.
    pub fn x(&self) -> (r: T)
        ensures
            r == self.x,
    {
        self.x
    }

    /// The y component.
    pub fn y(&self) -> (r: T)
        ensures
            r == self.y,
    {
        self.y
    }

    /// The component at `index`: 0 is x, 1 is y.
    pub fn get(&self, index: usize) -> (r: &T)
        requires
            index < 2,
        ensures
            *r == (if index == 0 {
                self.x
            } else {
                self.y
            }),
    {
        if index == 0 {
            &self.x
        } else {
            &self.y
        }
    }

    /// The dot product: the sum of the component-wise products.
    pub fn dot(&self, rhs: &Self) -> (r: T)
        requires
            T::fits(self.x.v() * rhs.x.v()),
            T::fits(self.y.v() * rhs.y.v()),
            T::fits(self.x.v() * rhs.x.v() + self.y.v() * rhs.y.v()),
        ensures
            r.v() == self.x.v() * rhs.x.v() + self.y.v() * rhs.y.v(),
    {
        proof {
            self.y.lemma_fits();
            rhs.y.lemma_fits();
        }
        self.x.times(rhs.x).plus(self.y.times(rhs.y))
    }
}

impl<T: Number> TVec3<T> {
    /// The vector (x, y, z).
    pub fn new(x: T, y: T, z: T) -> (r: Self)
        ensures
            r == (TVec3 { x, y, z }),
    {
        TVec3 { x, y, z }
    }

    /// The vector with all components equal to `value`.
    pub fn splat(value: T) -> (r: Self)
        ensures
            r == (TVec3 { x: value, y: value, z: value }),
    {
        TVec3 { x: value, y: value, z: value }
    }

    /// The zero vector.
    pub fn zero() -> (r: Self)
        ensures
            r.x.v() == 0 && r.y.v() == 0 && r.z.v() == 0,
    {
        TVec3 { x: T::zero(), y: T::zero(), z: T::zero() }
    }

    /// The all-ones vector.
    pub fn one() -> (r: Self)
        ensures
            r.x.v() == 1 && r.y.v() == 1 && r.z.v() == 1,
    {
        TVec3 { x: T::one(), y: T::one(), z: T::one() }
    }

    /// Replaces the component at `index`: 0 is x, 1 is y, 2 is z.
    pub fn set(&mut self, index: usize, value: T)
        requires
            index < 3,
        ensures
            final(self).x == (if index == 0 {
                value
            } else {
                old(self).x
            }),
            final(self).y == (if index == 1 {
                value
            } else {
                old(self).y
            }),
            final(self).z == (if index == 2 {
                value
            } else {
                old(self).z
            }),
    {
        if index == 0 {
            self.x = value;
        } else if index == 1 {
            self.y = value;
        } else {
            self.z = value;
        }
    }

    /// The squared Euclidean norm: the dot product with itself.
    pub fn norm_sq(&self) -> (r: T)
        requires
            T::fits(self.x.v() * self.x.v()),
            T::fits(self.y.v() * self.y.v()),
            T::fits(self.z.v() * self.z.v()),
            T::fits(self.x.v() * self.x.v() + self.y.v() * self.y.v()),
            T::fits(
                self.x.v() * self.x.v() + self.y.v() * self.y.v() + self.z.v() * self.z.v(),
            ),
        ensures
            r.v() == self.x.v() * self.x.v() + self.y.v() * self.y.v() + self.z.v() * self.z.v(),
    {
        self.dot(self)
    }

    /// The x component.
    pub fn x(&self) -> (r: T)
        ensures
            r == self.x,
    {
        self.x
    }

    /// The y component.
    pub fn y(&self) -> (r: T)
        ensures
            r == self.y,
    {
        self.y
    }

    /// The z component.
    pub fn z(&self) -> (r: T)
        ensures
            r == self.z,
    {
        self.z
    }

    /// The component at `index`: 0 is x, 1 is y, 2 is z.
    pub fn get(&self, index: usize) -> (r: &T)
        requires
            index < 3,
        ensures
            *r == (if index == 0 {
                self.x
            } else if index == 1 {
                self.y
            } else {
                self.z
            }),
    {
        if index == 0 {
            &self.x
        } else if index == 1 {
            &self.y
        } else {
            &self.z
        }
    }

    /// The dot product: the sum of the component-wise products.
    pub fn dot(&self, rhs: &Self) -> (r: T)
        requires
            T::fits(self.x.v() * rhs.x.v()),
            T::fits(self.y.v() * rhs.y.v()),
            T::fits(self.z.v() * rhs.z.v()),
            T::fits(self.x.v() * rhs.x.v() + self.y.v() * rhs.y.v()),
            T::fits(self.x.v() * rhs.x.v() + self.y.v() * rhs.y.v() + self.z.v() * rhs.z.v()),
        ensures
            r.v() == self.x.v() * rhs.x.v() + self.y.v() * rhs.y.v() + self.z.v() * rhs.z.v(),
    {
        proof {
            self.y.lemma_fits();
            rhs.y.lemma_fits();
            self.z.lemma_fits();
            rhs.z.lemma_fits();
        }
        self.x.times(rhs.x).plus(self.y.times(rhs.y)).plus(self.z.times(rhs.z))
    }

    /// The cross product, defined for three-component vectors only.
    pub fn cross(self, rhs: &Self) -> (r: Self)
        requires
            T::fits(self.y.v() * rhs.z.v()),
            T::fits(self.z.v() * rhs.y.v()),
            T::fits(self.y.v() * rhs.z.v() - self.z.v() * rhs.y.v()),
            T::fits(self.z.v() * rhs.x.v()),
            T::fits(self.x.v() * rhs.z.v()),
            T::fits(self.z.v() * rhs.x.v() - self.x.v() * rhs.z.v()),
            T::fits(self.x.v() * rhs.y.v()),
            T::fits(self.y.v() * rhs.x.v()),
            T::fits(self.x.v() * rhs.y.v() - self.y.v() * rhs.x.v()),
        ensures
            r.x.v() == self.y.v() * rhs.z.v() - self.z.v() * rhs.y.v(),
            r.y.v() == self.z.v() * rhs.x.v() - self.x.v() * rhs.z.v(),
            r.z.v() == self.x.v() * rhs.y.v() - self.y.v() * rhs.x.v(),
    {
        TVec3 {
            x: self.y.times(rhs.z).minus(self.z.times(rhs.y)),
            y: self.z.times(rhs.x).minus(self.x.times(rhs.z)),
            z: self.x.times(rhs.y).minus(self.y.times(rhs.x)),
        }
    }
}

impl<T: Number> TVec4<T> {
    /// The vector (x, y, z, w).
    pub fn new(x: T, y: T, z: T, w: T) -> (r: Self)
        ensures
            r == (TVec4 { x, y, z, w }),
    {
        TVec4 { x, y, z, w }
    }

    /// The vector with all components equal to `value`.
    pub fn splat(value: T) -> (r: Self)
        ensures
            r == (TVec4 { x: value, y: value, z: value, w: value }),
    {
        TVec4 { x: value, y: value, z: value, w: value }
    }

    /// The zero vector.
    pub fn zero() -> (r: Self)
        ensures
            r.x.v() == 0 && r.y.v() == 0 && r.z.v() == 0 && r.w.v() == 0,
    {
        TVec4 { x: T::zero(), y: T::zero(), z: T::zero(), w: T::zero() }
    }

    /// The all-ones vector.
    pub fn one() -> (r: Self)
        ensures
            r.x.v() == 1 && r.y.v() == 1 && r.z.v() == 1 && r.w.v() == 1,
    {
        TVec4 { x: T::one(), y: T::one(), z: T::one(), w: T::one() }
    }

    /// Replaces the component at `index`: 0 is x, 1 is y, 2 is z, 3 is w.
    pub fn set(&mut self, index: usize, value: T)
        requires
            index < 4,
        ensures
            final(self).x == (if index == 0 {
                value
            } else {
                old(self).x
            }),
            final(self).y == (if index == 1 {
                value
            } else {
                old(self).y
            }),
            final(self).z == (if index == 2 {
                value
            } else {
                old(self).z
            }),
            final(self).w == (if index == 3 {
                value
            } else {
                old(self).w
            }),
    {
        if index == 0 {
            self.x = value;
        } else if index == 1 {
            self.y = value;
        } else if index == 2 {
            self.z = value;
        } else {
            self.w = value;
        }
    }

    /// The x component.
    pub fn x(&self) -> (r: T)
        ensures
            r == self.x,
    {
        self.x
    }

    /// The y component.
    pub fn y(&self) -> (r: T)
        ensures
            r == self.y,
    {
        self.y
    }

    /// The z component.
    pub fn z(&self) -> (r: T)
        ensures
            r == self.z,
    {
        self.z
    }

    /// The w component.
    pub fn w(&self) -> (r: T)
        ensures
            r == self.w,
    {
        self.w
    }

    /// The component at `index`: 0 is x, 1 is y, 2 is z, 3 is w.
    pub fn get(&self, index: usize) -> (r: &T)
        requires
            index < 4,
        ensures
            *r == (if index == 0 {
                self.x
            } else if index == 1 {
                self.y
            } else if index == 2 {
                self.z
            } else {
                self.w
            }),
    {
        if index == 0 {
            &self.x
        } else if index == 1 {
            &self.y
        } else if index == 2 {
            &self.z
        } else {
            &self.w
        }
    }

    /// The dot product: the sum of the component-wise products.
    pub fn dot(&self, rhs: &Self) -> (r: T)
        requires
            T::fits(self.x.v() * rhs.x.v()),
            T::fits(self.y.v() * rhs.y.v()),
            T::fits(self.z.v() * rhs.z.v()),
            T::fits(self.w.v() * rhs.w.v()),
            T::fits(self.x.v() * rhs.x.v() + self.y.v() * rhs.y.v()),
            T::fits(self.x.v() * rhs.x.v() + self.y.v() * rhs.y.v() + self.z.v() * rhs.z.v()),
            T::fits(
                self.x.v() * rhs.x.v() + self.y.v() * rhs.y.v() + self.z.v() * rhs.z.v()
                    + self.w.v() * rhs.w.v(),
            ),
        ensures
            r.v() == self.x.v() * rhs.x.v() + self.y.v() * rhs.y.v() + self.z.v() * rhs.z.v()
                + self.w.v() * rhs.w.v(),
    {
        proof {
            self.y.lemma_fits();
            rhs.y.lemma_fits();
            self.z.lemma_fits();
            rhs.z.lemma_fits();
            self.w.lemma_fits();
            rhs.w.lemma_fits();
        }
        self.x.times(rhs.x).plus(self.y.times(rhs.y)).plus(self.z.times(rhs.z)).plus(
            self.w.times(rhs.w),
        )
    }
}

impl<T: Number> std::ops::Add<TVec2<T>> for TVec2<T> {
    type Output = TVec2<T>;

    /// Component-wise addition.
    fn add(self, rhs: TVec2<T>) -> (r: TVec2<T>) {
        TVec2 { x: self.x.plus(rhs.x), y: self.y.plus(rhs.y) }
    }
}

impl<T: Number> vstd::std_specs::ops::AddSpecImpl<TVec2<T>> for TVec2<T> {
    open spec fn obeys_add_spec() -> bool {
        true
    }

    open spec fn add_req(self, rhs: TVec2<T>) -> bool {
        T::fits(self.x.v() + rhs.x.v()) && T::fits(self.y.v() + rhs.y.v())
    }

    open spec fn add_spec(self, rhs: TVec2<T>) -> TVec2<T> {
        TVec2 { x: T::of_int(self.x.v() + rhs.x.v()), y: T::of_int(self.y.v() + rhs.y.v()) }
    }
}

/// A two-component vector from its components.
pub fn vec2<T: Number>(x: T, y: T) -> (r: TVec2<T>)
    ensures
        r == (TVec2 { x, y }),
{
    TVec2 { x, y }
}

/// A three-component vector from its components.
pub fn vec3<T: Number>(x: T, y: T, z: T) -> (r: TVec3<T>)
    ensures
        r == (TVec3 { x, y, z }),
{
    TVec3 { x, y, z }
}

/// A four-component vector from its components.
pub fn vec4<T: Number>(x: T, y: T, z: T, w: T) -> (r: TVec4<T>)
    ensures
        r == (TVec4 { x, y, z, w }),
{
    TVec4 { x, y, z, w }
}

} // verus!

verus! {

/// A signed scalar, which can also negate its values.
pub trait SignedNumber: Number {
    fn negate(self) -> (r: Self)
        requires
            Self::fits(-self.v()),
        ensures
            r.v() == -self.v(),
            r == Self::of_int(-self.v()),
    ;
}

impl SignedNumber for i32 {
    fn negate(self) -> (r: Self) {
        (0i64 - self as i64) as i32
    }
}

impl<T: Number> std::ops::Sub<TVec2<T>> for TVec2<T> {
    type Output = TVec2<T>;

    /// Component-wise subtraction.
    fn sub(self, rhs: TVec2<T>) -> (r: TVec2<T>) {
        TVec2 { x: self.x.minus(rhs.x), y: self.y.minus(rhs.y) }
    }
}

impl<T: Number> vstd::std_specs::ops::SubSpecImpl<TVec2<T>> for TVec2<T> {
    open spec fn obeys_sub_spec() -> bool {
        true
    }

    open spec fn sub_req(self, rhs: TVec2<T>) -> bool {
        T::fits(self.x.v() - rhs.x.v()) && T::fits(self.y.v() - rhs.y.v())
    }

    open spec fn sub_spec(self, rhs: TVec2<T>) -> TVec2<T> {
        TVec2 { x: T::of_int(self.x.v() - rhs.x.v()), y: T::of_int(self.y.v() - rhs.y.v()) }
    }
}

impl<T: Number> std::ops::Mul<TVec2<T>> for TVec2<T> {
    type Output = TVec2<T>;

    /// Component-wise multiplication.
    fn mul(self, rhs: TVec2<T>) -> (r: TVec2<T>) {
        TVec2 { x: self.x.times(rhs.x), y: self.y.times(rhs.y) }
    }
}

impl<T: Number> vstd::std_specs::ops::MulSpecImpl<TVec2<T>> for TVec2<T> {
    open spec fn obeys_mul_spec() -> bool {
        true
    }

    open spec fn mul_req(self, rhs: TVec2<T>) -> bool {
        T::fits(self.x.v() * rhs.x.v()) && T::fits(self.y.v() * rhs.y.v())
    }

    open spec fn mul_spec(self, rhs: TVec2<T>) -> TVec2<T> {
        TVec2 { x: T::of_int(self.x.v() * rhs.x.v()), y: T::of_int(self.y.v() * rhs.y.v()) }
    }
}

impl<T: Number> std::ops::Div<TVec2<T>> for TVec2<T> {
    type Output = TVec2<T>;

    /// Component-wise division, truncated toward zero.
    fn div(self, rhs: TVec2<T>) -> (r: TVec2<T>) {
        TVec2 { x: self.x.div_by(rhs.x), y: self.y.div_by(rhs.y) }
    }
}

impl<T: Number> vstd::std_specs::ops::DivSpecImpl<TVec2<T>> for TVec2<T> {
    open spec fn obeys_div_spec() -> bool {
        true
    }

    open spec fn div_req(self, rhs: TVec2<T>) -> bool {
        rhs.x.v() != 0 && T::fits(trunc_div(self.x.v(), rhs.x.v())) && rhs.y.v() != 0 && T::fits(trunc_div(self.y.v(), rhs.y.v()))
    }

    open spec fn div_spec(self, rhs: TVec2<T>) -> TVec2<T> {
        TVec2 { x: T::of_int(trunc_div(self.x.v(), rhs.x.v())), y: T::of_int(trunc_div(self.y.v(), rhs.y.v())) }
    }
}

impl<T: Number> std::ops::Mul<T> for TVec2<T> {
    type Output = TVec2<T>;

    /// Every component multiplied by the scalar.
    fn mul(self, rhs: T) -> (r: TVec2<T>) {
        TVec2 { x: self.x.times(rhs), y: self.y.times(rhs) }
    }
}

impl<T: Number> vstd::std_specs::ops::MulSpecImpl<T> for TVec2<T> {
    open spec fn obeys_mul_spec() -> bool {
        true
    }

    open spec fn mul_req(self, rhs: T) -> bool {
        T::fits(self.x.v() * rhs.v()) && T::fits(self.y.v() * rhs.v())
    }

    open spec fn mul_spec(self, rhs: T) -> TVec2<T> {
        TVec2 { x: T::of_int(self.x.v() * rhs.v()), y: T::of_int(self.y.v() * rhs.v()) }
    }
}

impl<T: SignedNumber> std::ops::Neg for TVec2<T> {
    type Output = TVec2<T>;

    /// Component-wise negation.
    fn neg(self) -> (r: TVec2<T>) {
        TVec2 { x: self.x.negate(), y: self.y.negate() }
    }
}

impl<T: SignedNumber> vstd::std_specs::ops::NegSpecImpl for TVec2<T> {
    open spec fn obeys_neg_spec() -> bool {
        true
    }

    open spec fn neg_req(self) -> bool {
        T::fits(-self.x.v()) && T::fits(-self.y.v())
    }

    open spec fn neg_spec(self) -> TVec2<T> {
        TVec2 { x: T::of_int(-self.x.v()), y: T::of_int(-self.y.v()) }
    }
}

impl<T: Number> std::ops::Sub<TVec3<T>> for TVec3<T> {
    type Output = TVec3<T>;

    /// Component-wise subtraction.
    fn sub(self, rhs: TVec3<T>) -> (r: TVec3<T>) {
        TVec3 { x: self.x.minus(rhs.x), y: self.y.minus(rhs.y), z: self.z.minus(rhs.z) }
    }
}

impl<T: Number> vstd::std_specs::ops::SubSpecImpl<TVec3<T>> for TVec3<T> {
    open spec fn obeys_sub_spec() -> bool {
        true
    }

    open spec fn sub_req(self, rhs: TVec3<T>) -> bool {
        T::fits(self.x.v() - rhs.x.v()) && T::fits(self.y.v() - rhs.y.v()) && T::fits(self.z.v() - rhs.z.v())
    }

    open spec fn sub_spec(self, rhs: TVec3<T>) -> TVec3<T> {
        TVec3 { x: T::of_int(self.x.v() - rhs.x.v()), y: T::of_int(self.y.v() - rhs.y.v()), z: T::of_int(self.z.v() - rhs.z.v()) }
    }
}

impl<T: Number> std::ops::Mul<TVec3<T>> for TVec3<T> {
    type Output = TVec3<T>;

    /// Component-wise multiplication.
    fn mul(self, rhs: TVec3<T>) -> (r: TVec3<T>) {
        TVec3 { x: self.x.times(rhs.x), y: self.y.times(rhs.y), z: self.z.times(rhs.z) }
    }
}

impl<T: Number> vstd::std_specs::ops::MulSpecImpl<TVec3<T>> for TVec3<T> {
    open spec fn obeys_mul_spec() -> bool {
        true
    }

    open spec fn mul_req(self, rhs: TVec3<T>) -> bool {
        T::fits(self.x.v() * rhs.x.v()) && T::fits(self.y.v() * rhs.y.v()) && T::fits(self.z.v() * rhs.z.v())
    }

    open spec fn mul_spec(self, rhs: TVec3<T>) -> TVec3<T> {
        TVec3 { x: T::of_int(self.x.v() * rhs.x.v()), y: T::of_int(self.y.v() * rhs.y.v()), z: T::of_int(self.z.v() * rhs.z.v()) }
    }
}

impl<T: Number> std::ops::Div<TVec3<T>> for TVec3<T> {
    type Output = TVec3<T>;

    /// Component-wise division, truncated toward zero.
    fn div(self, rhs: TVec3<T>) -> (r: TVec3<T>) {
        TVec3 { x: self.x.div_by(rhs.x), y: self.y.div_by(rhs.y), z: self.z.div_by(rhs.z) }
    }
}

impl<T: Number> vstd::std_specs::ops::DivSpecImpl<TVec3<T>> for TVec3<T> {
    open spec fn obeys_div_spec() -> bool {
        true
    }

    open spec fn div_req(self, rhs: TVec3<T>) -> bool {
        rhs.x.v() != 0 && T::fits(trunc_div(self.x.v(), rhs.x.v())) && rhs.y.v() != 0 && T::fits(trunc_div(self.y.v(), rhs.y.v())) && rhs.z.v() != 0 && T::fits(trunc_div(self.z.v(), rhs.z.v()))
    }

    open spec fn div_spec(self, rhs: TVec3<T>) -> TVec3<T> {
        TVec3 { x: T::of_int(trunc_div(self.x.v(), rhs.x.v())), y: T::of_int(trunc_div(self.y.v(), rhs.y.v())), z: T::of_int(trunc_div(self.z.v(), rhs.z.v())) }
    }
}

impl<T: Number> std::ops::Mul<T> for TVec3<T> {
    type Output = TVec3<T>;

    /// Every component multiplied by the scalar.
    fn mul(self, rhs: T) -> (r: TVec3<T>) {
        TVec3 { x: self.x.times(rhs), y: self.y.times(rhs), z: self.z.times(rhs) }
    }
}

impl<T: Number> vstd::std_specs::ops::MulSpecImpl<T> for TVec3<T> {
    open spec fn obeys_mul_spec() -> bool {
        true
    }

    open spec fn mul_req(self, rhs: T) -> bool {
        T::fits(self.x.v() * rhs.v()) && T::fits(self.y.v() * rhs.v()) && T::fits(self.z.v() * rhs.v())
    }

    open spec fn mul_spec(self, rhs: T) -> TVec3<T> {
        TVec3 { x: T::of_int(self.x.v() * rhs.v()), y: T::of_int(self.y.v() * rhs.v()), z: T::of_int(self.z.v() * rhs.v()) }
    }
}

impl<T: SignedNumber> std::ops::Neg for TVec3<T> {
    type Output = TVec3<T>;

    /// Component-wise negation.
    fn neg(self) -> (r: TVec3<T>) {
        TVec3 { x: self.x.negate(), y: self.y.negate(), z: self.z.negate() }
    }
}

impl<T: SignedNumber> vstd::std_specs::ops::NegSpecImpl for TVec3<T> {
    open spec fn obeys_neg_spec() -> bool {
        true
    }

    open spec fn neg_req(self) -> bool {
        T::fits(-self.x.v()) && T::fits(-self.y.v()) && T::fits(-self.z.v())
    }

    open spec fn neg_spec(self) -> TVec3<T> {
        TVec3 { x: T::of_int(-self.x.v()), y: T::of_int(-self.y.v()), z: T::of_int(-self.z.v()) }
    }
}

impl<T: Number> std::ops::Sub<TVec4<T>> for TVec4<T> {
    type Output = TVec4<T>;

    /// Component-wise subtraction.
    fn sub(self, rhs: TVec4<T>) -> (r: TVec4<T>) {
        TVec4 { x: self.x.minus(rhs.x), y: self.y.minus(rhs.y), z: self.z.minus(rhs.z), w: self.w.minus(rhs.w) }
    }
}

impl<T: Number> vstd::std_specs::ops::SubSpecImpl<TVec4<T>> for TVec4<T> {
    open spec fn obeys_sub_spec() -> bool {
        true
    }

    open spec fn sub_req(self, rhs: TVec4<T>) -> bool {
        T::fits(self.x.v() - rhs.x.v()) && T::fits(self.y.v() - rhs.y.v()) && T::fits(self.z.v() - rhs.z.v()) && T::fits(self.w.v() - rhs.w.v())
    }

    open spec fn sub_spec(self, rhs: TVec4<T>) -> TVec4<T> {
        TVec4 { x: T::of_int(self.x.v() - rhs.x.v()), y: T::of_int(self.y.v() - rhs.y.v()), z: T::of_int(self.z.v() - rhs.z.v()), w: T::of_int(self.w.v() - rhs.w.v()) }
    }
}

impl<T: Number> std::ops::Mul<TVec4<T>> for TVec4<T> {
    type Output = TVec4<T>;

    /// Component-wise multiplication.
    fn mul(self, rhs: TVec4<T>) -> (r: TVec4<T>) {
        TVec4 { x: self.x.times(rhs.x), y: self.y.times(rhs.y), z: self.z.times(rhs.z), w: self.w.times(rhs.w) }
    }
}

impl<T: Number> vstd::std_specs::ops::MulSpecImpl<TVec4<T>> for TVec4<T> {
    open spec fn obeys_mul_spec() -> bool {
        true
    }

    open spec fn mul_req(self, rhs: TVec4<T>) -> bool {
        T::fits(self.x.v() * rhs.x.v()) && T::fits(self.y.v() * rhs.y.v()) && T::fits(self.z.v() * rhs.z.v()) && T::fits(self.w.v() * rhs.w.v())
    }

    open spec fn mul_spec(self, rhs: TVec4<T>) -> TVec4<T> {
        TVec4 { x: T::of_int(self.x.v() * rhs.x.v()), y: T::of_int(self.y.v() * rhs.y.v()), z: T::of_int(self.z.v() * rhs.z.v()), w: T::of_int(self.w.v() * rhs.w.v()) }
    }
}

impl<T: Number> std::ops::Div<TVec4<T>> for TVec4<T> {
    type Output = TVec4<T>;

    /// Component-wise division, truncated toward zero.
    fn div(self, rhs: TVec4<T>) -> (r: TVec4<T>) {
        TVec4 { x: self.x.div_by(rhs.x), y: self.y.div_by(rhs.y), z: self.z.div_by(rhs.z), w: self.w.div_by(rhs.w) }
    }
}

impl<T: Number> vstd::std_specs::ops::DivSpecImpl<TVec4<T>> for TVec4<T> {
    open spec fn obeys_div_spec() -> bool {
        true
    }

    open spec fn div_req(self, rhs: TVec4<T>) -> bool {
        rhs.x.v() != 0 && T::fits(trunc_div(self.x.v(), rhs.x.v())) && rhs.y.v() != 0 && T::fits(trunc_div(self.y.v(), rhs.y.v())) && rhs.z.v() != 0 && T::fits(trunc_div(self.z.v(), rhs.z.v())) && rhs.w.v() != 0 && T::fits(trunc_div(self.w.v(), rhs.w.v()))
    }

    open spec fn div_spec(self, rhs: TVec4<T>) -> TVec4<T> {
        TVec4 { x: T::of_int(trunc_div(self.x.v(), rhs.x.v())), y: T::of_int(trunc_div(self.y.v(), rhs.y.v())), z: T::of_int(trunc_div(self.z.v(), rhs.z.v())), w: T::of_int(trunc_div(self.w.v(), rhs.w.v())) }
    }
}

impl<T: Number> std::ops::Mul<T> for TVec4<T> {
    type Output = TVec4<T>;

    /// Every component multiplied by the scalar.
    fn mul(self, rhs: T) -> (r: TVec4<T>) {
        TVec4 { x: self.x.times(rhs), y: self.y.times(rhs), z: self.z.times(rhs), w: self.w.times(rhs) }
    }
}

impl<T: Number> vstd::std_specs::ops::MulSpecImpl<T> for TVec4<T> {
    open spec fn obeys_mul_spec() -> bool {
        true
    }

    open spec fn mul_req(self, rhs: T) -> bool {
        T::fits(self.x.v() * rhs.v()) && T::fits(self.y.v() * rhs.v()) && T::fits(self.z.v() * rhs.v()) && T::fits(self.w.v() * rhs.v())
    }

    open spec fn mul_spec(self, rhs: T) -> TVec4<T> {
        TVec4 { x: T::of_int(self.x.v() * rhs.v()), y: T::of_int(self.y.v() * rhs.v()), z: T::of_int(self.z.v() * rhs.v()), w: T::of_int(self.w.v() * rhs.v()) }
    }
}

impl<T: SignedNumber> std::ops::Neg for TVec4<T> {
    type Output = TVec4<T>;

    /// Component-wise negation.
    fn neg(self) -> (r: TVec4<T>) {
        TVec4 { x: self.x.negate(), y: self.y.negate(), z: self.z.negate(), w: self.w.negate() }
    }
}

impl<T: SignedNumber> vstd::std_specs::ops::NegSpecImpl for TVec4<T> {
    open spec fn obeys_neg_spec() -> bool {
        true
    }

    open spec fn neg_req(self) -> bool {
        T::fits(-self.x.v()) && T::fits(-self.y.v()) && T::fits(-self.z.v()) && T::fits(-self.w.v())
    }

    open spec fn neg_spec(self) -> TVec4<T> {
        TVec4 { x: T::of_int(-self.x.v()), y: T::of_int(-self.y.v()), z: T::of_int(-self.z.v()), w: T::of_int(-self.w.v()) }
    }
}

} // verus!

verus! {

impl<T: Number> std::convert::From<[T; 2]> for TVec2<T> {
    /// A vector from an array, components in order.
    fn from(v: [T; 2]) -> (r: TVec2<T>) {
        TVec2 { x: v[0], y: v[1] }
    }
}

impl<T: Number> vstd::std_specs::convert::FromSpecImpl<[T; 2]> for TVec2<T> {
    open spec fn obeys_from_spec() -> bool {
        true
    }

    open spec fn from_spec(v: [T; 2]) -> TVec2<T> {
        TVec2 { x: v[0], y: v[1] }
    }
}

impl<T: Number> std::convert::From<[T; 3]> for TVec3<T> {
    /// A vector from an array, components in order.
    fn from(v: [T; 3]) -> (r: TVec3<T>) {
        TVec3 { x: v[0], y: v[1], z: v[2] }
    }
}

impl<T: Number> vstd::std_specs::convert::FromSpecImpl<[T; 3]> for TVec3<T> {
    open spec fn obeys_from_spec() -> bool {
        true
    }

    open spec fn from_spec(v: [T; 3]) -> TVec3<T> {
        TVec3 { x: v[0], y: v[1], z: v[2] }
    }
}

impl<T: Number> std::convert::From<[T; 4]> for TVec4<T> {
    /// A vector from an array, components in order.
    fn from(v: [T; 4]) -> (r: TVec4<T>) {
        TVec4 { x: v[0], y: v[1], z: v[2], w: v[3] }
    }
}

impl<T: Number> vstd::std_specs::convert::FromSpecImpl<[T; 4]> for TVec4<T> {
    open spec fn obeys_from_spec() -> bool {
        true
    }

    open spec fn from_spec(v: [T; 4]) -> TVec4<T> {
        TVec4 { x: v[0], y: v[1], z: v[2], w: v[3] }
    }
}

} // verus!

verus! {

impl<T: Number> std::ops::Add<TVec3<T>> for TVec3<T> {
    type Output = TVec3<T>;

    /// Component-wise addition.
    fn add(self, rhs: TVec3<T>) -> (r: TVec3<T>) {
        TVec3 { x: self.x.plus(rhs.x), y: self.y.plus(rhs.y), z: self.z.plus(rhs.z) }
    }
}

impl<T: Number> vstd::std_specs::ops::AddSpecImpl<TVec3<T>> for TVec3<T> {
    open spec fn obeys_add_spec() -> bool {
        true
    }

    open spec fn add_req(self, rhs: TVec3<T>) -> bool {
        T::fits(self.x.v() + rhs.x.v()) && T::fits(self.y.v() + rhs.y.v()) && T::fits(
            self.z.v() + rhs.z.v(),
        )
    }

    open spec fn add_spec(self, rhs: TVec3<T>) -> TVec3<T> {
        TVec3 {
            x: T::of_int(self.x.v() + rhs.x.v()),
            y: T::of_int(self.y.v() + rhs.y.v()),
            z: T::of_int(self.z.v() + rhs.z.v()),
        }
    }
}

impl<T: Number> std::ops::Add<TVec4<T>> for TVec4<T> {
    type Output = TVec4<T>;

    /// Component-wise addition.
    fn add(self, rhs: TVec4<T>) -> (r: TVec4<T>) {
        TVec4 {
            x: self.x.plus(rhs.x),
            y: self.y.plus(rhs.y),
            z: self.z.plus(rhs.z),
            w: self.w.plus(rhs.w),
        }
    }
}

impl<T: Number> vstd::std_specs::ops::AddSpecImpl<TVec4<T>> for TVec4<T> {
    open spec fn obeys_add_spec() -> bool {
        true
    }

    open spec fn add_req(self, rhs: TVec4<T>) -> bool {
        T::fits(self.x.v() + rhs.x.v()) && T::fits(self.y.v() + rhs.y.v()) && T::fits(
            self.z.v() + rhs.z.v(),
        ) && T::fits(self.w.v() + rhs.w.v())
    }

    open spec fn add_spec(self, rhs: TVec4<T>) -> TVec4<T> {
        TVec4 {
            x: T::of_int(self.x.v() + rhs.x.v()),
            y: T::of_int(self.y.v() + rhs.y.v()),
            z: T::of_int(self.z.v() + rhs.z.v()),
            w: T::of_int(self.w.v() + rhs.w.v()),
        }
    }
}

} // verus!
