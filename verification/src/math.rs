//! Small fixed-size vectors, and the integer 3-vectors that address chunks
//! and blocks.

use vstd::prelude::*;

verus! {

/// Marker for the component types a [`Vector`] can hold.
pub trait Scalar: Copy {
}

impl<T: Copy> Scalar for T {
}

/// A fixed-size vector of `N` components.
#[derive(Eq, PartialEq, Clone, Hash, Debug, Copy)]
pub struct Vector<T: Scalar, const N: usize>(pub [T; N]);

pub type Vec1<T> = Vector<T, 1>;

pub type Vec2<T> = Vector<T, 2>;

pub type Vec3<T> = Vector<T, 3>;

pub type Vec4<T> = Vector<T, 4>;

pub type Vec1i32 = Vec1<i32>;

pub type Vec2i32 = Vec2<i32>;

pub type Vec3i32 = Vec3<i32>;

pub type Vec4i32 = Vec4<i32>;

pub type Vec1u32 = Vec1<u32>;

pub type Vec2u32 = Vec2<u32>;

pub type Vec3u32 = Vec3<u32>;

pub type Vec4u32 = Vec4<u32>;

/// `core::array::from_fn`: the array whose element at each index `i` is what
/// `f` returns for `i`.
#[verifier::external_body]
fn array_from_fn<T, const N: usize, F: Fn(usize) -> T>(f: F) -> (a: [T; N])
    requires
        forall|i: usize| i < N ==> f.requires((i,)),
    ensures
        forall|i: int| 0 <= i < N ==> f.ensures((i as usize,), #[trigger] a@[i]),
{
    core::array::from_fn(f)
}

impl<T: Scalar, const N: usize> Vector<T, N> {
    /// Builds a vector from a function of the component index.
    pub fn make<F: Fn(usize) -> T>(f: F) -> (v: Vector<T, N>)
        requires
            forall|i: usize| i < N ==> f.requires((i,)),
        ensures
            forall|i: int| 0 <= i < N ==> f.ensures((i as usize,), #[trigger] v.0@[i]),
    {
        Vector(array_from_fn(f))
    }

    /// Applies `f` to every component.
    pub fn map<U: Scalar, F: Fn(T) -> U>(&self, f: F) -> (v: Vector<U, N>)
        requires
            forall|i: int| 0 <= i < N ==> f.requires((#[trigger] self.0@[i],)),
        ensures
            forall|i: int| 0 <= i < N ==> f.ensures((self.0@[i],), #[trigger] v.0@[i]),
    {
        let fr = &f;
        let g = |i: usize| -> (r: U)
            requires
                i < N,
            ensures
                fr.ensures((self.0@[i as int],), r),
            { fr(self.0[i]) };
        Vector::<U, N>::make(g)
    }

    /// Applies `f` to every component together with its index.
    pub fn map_indexed<U: Scalar, F: Fn(T, usize) -> U>(&self, f: F) -> (v: Vector<U, N>)
        requires
            forall|i: int| 0 <= i < N ==> f.requires((#[trigger] self.0@[i], i as usize)),
        ensures
            forall|i: int| 0 <= i < N ==> f.ensures((self.0@[i], i as usize), #[trigger] v.0@[i]),
    {
        let fr = &f;
        let g = |i: usize| -> (r: U)
            requires
                i < N,
            ensures
                fr.ensures((self.0@[i as int], i), r),
            { fr(self.0[i], i) };
        Vector::<U, N>::make(g)
    }

    /// Combines the components of two vectors pairwise with `f`.
    pub fn zip_map<T2: Scalar, U: Scalar, F: Fn(T, T2) -> U>(&self, other: Vector<T2, N>, f: F) -> (v:
        Vector<U, N>)
        requires
            forall|i: int| 0 <= i < N ==> f.requires((#[trigger] self.0@[i], other.0@[i])),
        ensures
            forall|i: int|
                0 <= i < N ==> f.ensures((self.0@[i], other.0@[i]), #[trigger] v.0@[i]),
    {
        let fr = &f;
        let g = |i: usize| -> (r: U)
            requires
                i < N,
            ensures
                fr.ensures((self.0@[i as int], other.0@[i as int]), r),
            { fr(self.0[i], other.0[i]) };
        Vector::<U, N>::make(g)
    }
}

impl<const N: usize> Vector<i32, N> {
    /// The vector whose components are all zero.
    pub fn zero() -> (v: Self)
        ensures
            forall|i: int| 0 <= i < N ==> #[trigger] v.0@[i] == 0,
    {
        Vector([0i32; N])
    }
}

pub fn vec1<T: Scalar>(x: T) -> (v: Vec1<T>)
    ensures
        v.0@ == seq![x],
{
    Vector([x])
}

pub fn vec2<T: Scalar>(x: T, y: T) -> (v: Vec2<T>)
    ensures
        v.0@ == seq![x, y],
{
    Vector([x, y])
}

pub fn vec3<T: Scalar>(x: T, y: T, z: T) -> (v: Vec3<T>)
    ensures
        v.0@ == seq![x, y, z],
{
    Vector([x, y, z])
}

pub fn vec4<T: Scalar>(x: T, y: T, z: T, w: T) -> (v: Vec4<T>)
    ensures
        v.0@ == seq![x, y, z, w],
{
    Vector([x, y, z, w])
}

/// A point of the integer grid: what a [`Vec3i32`] stands for in contracts.
pub struct Pos {
    pub x: int,
    pub y: int,
    pub z: int,
}

impl Pos {
    pub open spec fn plus(self, other: Pos) -> Pos {
        Pos { x: self.x + other.x, y: self.y + other.y, z: self.z + other.z }
    }

    pub open spec fn minus(self, other: Pos) -> Pos {
        Pos { x: self.x - other.x, y: self.y - other.y, z: self.z - other.z }
    }

    pub open spec fn times(self, k: int) -> Pos {
        Pos { x: self.x * k, y: self.y * k, z: self.z * k }
    }

    /// The squared Euclidean length.
    pub open spec fn norm2(self) -> int {
        self.x * self.x + self.y * self.y + self.z * self.z
    }

    /// Whether each coordinate is an `i32`.
    pub open spec fn fits_i32(self) -> bool {
        &&& i32::MIN <= self.x <= i32::MAX
        &&& i32::MIN <= self.y <= i32::MAX
        &&& i32::MIN <= self.z <= i32::MAX
    }
}

impl View for Vector<i32, 3> {
    type V = Pos;

    open spec fn view(&self) -> Pos {
        Pos { x: self.0@[0] as int, y: self.0@[1] as int, z: self.0@[2] as int }
    }
}

impl Vector<i32, 3> {
    pub fn x(&self) -> (r: i32)
        ensures
            r == self@.x,
    {
        self.0[0]
    }

    pub fn y(&self) -> (r: i32)
        ensures
            r == self@.y,
    {
        self.0[1]
    }

    pub fn z(&self) -> (r: i32)
        ensures
            r == self@.z,
    {
        self.0[2]
    }

    /// Whether two vectors name the same point.
    pub fn same(&self, other: &Self) -> (r: bool)
        ensures
            r == (self@ == other@),
    {
        self.0[0] == other.0[0] && self.0[1] == other.0[1] && self.0[2] == other.0[2]
    }

    /// The componentwise sum, where every component of it is an `i32`.
    pub fn checked_add(&self, other: &Self) -> (r: Option<Self>)
        ensures
            r.is_some() == self@.plus(other@).fits_i32(),
            r matches Some(v) ==> v@ == self@.plus(other@),
    {
        match (
            self.0[0].checked_add(other.0[0]),
            self.0[1].checked_add(other.0[1]),
            self.0[2].checked_add(other.0[2]),
        ) {
            (Some(x), Some(y), Some(z)) => Some(vec3(x, y, z)),
            _ => None,
        }
    }

    /// The cross product.
    pub fn cross(&self, other: Self) -> (v: Self)
        requires
            i32::MIN <= self@.y * other@.z - self@.z * other@.y <= i32::MAX,
            i32::MIN <= self@.z * other@.x - self@.x * other@.z <= i32::MAX,
            i32::MIN <= self@.x * other@.y - self@.y * other@.x <= i32::MAX,
        ensures
            v@.x == self@.y * other@.z - self@.z * other@.y,
            v@.y == self@.z * other@.x - self@.x * other@.z,
            v@.z == self@.x * other@.y - self@.y * other@.x,
    {
        let (ax, ay, az): (i64, i64, i64) = (self.0[0] as i64, self.0[1] as i64, self.0[2] as i64);
        let (bx, by, bz): (i64, i64, i64) = (other.0[0] as i64, other.0[1] as i64, other.0[2] as i64);
        proof {
            lemma_product_bounds(ay as int, bz as int);
            lemma_product_bounds(az as int, by as int);
            lemma_product_bounds(az as int, bx as int);
            lemma_product_bounds(ax as int, bz as int);
            lemma_product_bounds(ax as int, by as int);
            lemma_product_bounds(ay as int, bx as int);
        }
        let cx: i64 = ay * bz - az * by;
        let cy: i64 = az * bx - ax * bz;
        let cz: i64 = ax * by - ay * bx;
        vec3(cx as i32, cy as i32, cz as i32)
    }
}

/// The product of two `i32` values lies within `[-2^62, 2^62]`.
proof fn lemma_product_bounds(a: int, b: int)
    by (nonlinear_arith)
    requires
        -0x8000_0000 <= a <= 0x7fff_ffff,
        -0x8000_0000 <= b <= 0x7fff_ffff,
    ensures
        -0x4000_0000_0000_0000 <= a * b <= 0x4000_0000_0000_0000,
{
}

/// The sum of the products of the components of two vectors.
pub trait DotProduct<T: Scalar, const N: usize> {
    /// The sum of the products of the first `n` components.
    spec fn spec_dot(&self, other: &Vector<T, N>, n: int) -> int;

    fn dot(&self, other: &Vector<T, N>) -> (r: i128)
        ensures
            r == self.spec_dot(other, N as int),
    ;
}

impl<const N: usize> DotProduct<i32, N> for Vector<i32, N> {
    open spec fn spec_dot(&self, other: &Vector<i32, N>, n: int) -> int
        decreases n,
    {
        if n <= 0 {
            0
        } else {
            self.spec_dot(other, n - 1) + self.0@[n - 1] * other.0@[n - 1]
        }
    }

    fn dot(&self, other: &Vector<i32, N>) -> (r: i128) {
        let mut r: i128 = 0;
        let mut i: usize = 0;
        while i < N
            invariant
                i <= N,
                r == self.spec_dot(other, i as int),
                -0x4000_0000_0000_0000 * i <= r <= 0x4000_0000_0000_0000 * i,
            decreases N - i,
        {
            proof {
                lemma_product_bounds(self.0@[i as int] as int, other.0@[i as int] as int);
            }
            r = r + (self.0[i] as i128) * (other.0[i] as i128);
            i += 1;
        }
        r
    }
}

impl<const N: usize> Vector<i32, N> {
    /// The squared length.
    pub fn mag_squared(&self) -> (r: i128)
        ensures
            r == self.spec_dot(self, N as int),
    {
        self.dot(self)
    }
}

/// Tuples of one to four values of one type, as vectors.
pub trait VectorInto<T: Scalar, const N: usize> {
    spec fn spec_vector(self) -> Seq<T>;

    fn vector(self) -> (v: Vector<T, N>)
        ensures
            v.0@ == self.spec_vector(),
    ;
}

impl<T: Scalar> VectorInto<T, 1> for (T,) {
    open spec fn spec_vector(self) -> Seq<T> {
        seq![self.0]
    }

    fn vector(self) -> (v: Vector<T, 1>) {
        Vector([self.0])
    }
}

impl<T: Scalar> VectorInto<T, 2> for (T, T) {
    open spec fn spec_vector(self) -> Seq<T> {
        seq![self.0, self.1]
    }

    fn vector(self) -> (v: Vector<T, 2>) {
        Vector([self.0, self.1])
    }
}

impl<T: Scalar> VectorInto<T, 3> for (T, T, T) {
    open spec fn spec_vector(self) -> Seq<T> {
        seq![self.0, self.1, self.2]
    }

    fn vector(self) -> (v: Vector<T, 3>) {
        Vector([self.0, self.1, self.2])
    }
}

impl<T: Scalar> VectorInto<T, 4> for (T, T, T, T) {
    open spec fn spec_vector(self) -> Seq<T> {
        seq![self.0, self.1, self.2, self.3]
    }

    fn vector(self) -> (v: Vector<T, 4>) {
        Vector([self.0, self.1, self.2, self.3])
    }
}

/// A rectangle, by its corner and its size.
#[derive(Clone, Copy, Debug)]
pub struct Rect<T: Scalar> {
    pub x: T,
    pub y: T,
    pub w: T,
    pub h: T,
}

impl<T: Scalar> Rect<T> {
    pub fn x1(&self) -> (r: T)
        ensures
            r == self.x,
    {
        self.x
    }

    pub fn y1(&self) -> (r: T)
        ensures
            r == self.y,
    {
        self.y
    }

    pub fn xy1(&self) -> (v: Vec2<T>)
        ensures
            v.0@ == seq![self.x, self.y],
    {
        vec2(self.x, self.y)
    }

    /// Applies `f` to the corner and to the size.
    pub fn map<U: Scalar, F: Fn(T) -> U>(&self, f: F) -> (r: Rect<U>)
        requires
            f.requires((self.x,)),
            f.requires((self.y,)),
            f.requires((self.w,)),
            f.requires((self.h,)),
        ensures
            f.ensures((self.x,), r.x),
            f.ensures((self.y,), r.y),
            f.ensures((self.w,), r.w),
            f.ensures((self.h,), r.h),
    {
        Rect { x: f(self.x), y: f(self.y), w: f(self.w), h: f(self.h) }
    }
}

impl Rect<i32> {
    pub fn x2(&self) -> (r: i32)
        requires
            i32::MIN <= self.x + self.w <= i32::MAX,
        ensures
            r == self.x + self.w,
    {
        self.x + self.w
    }

    pub fn y2(&self) -> (r: i32)
        requires
            i32::MIN <= self.y + self.h <= i32::MAX,
        ensures
            r == self.y + self.h,
    {
        self.y + self.h
    }

    pub fn xy2(&self) -> (v: Vec2<i32>)
        requires
            i32::MIN <= self.x + self.w <= i32::MAX,
            i32::MIN <= self.y + self.h <= i32::MAX,
        ensures
            v.0@ == seq![(self.x + self.w) as i32, (self.y + self.h) as i32],
    {
        vec2(self.x + self.w, self.y + self.h)
    }
}

impl Rect<u32> {
    pub fn x2(&self) -> (r: u32)
        requires
            self.x + self.w <= u32::MAX,
        ensures
            r == self.x + self.w,
    {
        self.x + self.w
    }

    pub fn y2(&self) -> (r: u32)
        requires
            self.y + self.h <= u32::MAX,
        ensures
            r == self.y + self.h,
    {
        self.y + self.h
    }

    pub fn xy2(&self) -> (v: Vec2<u32>)
        requires
            self.x + self.w <= u32::MAX,
            self.y + self.h <= u32::MAX,
        ensures
            v.0@ == seq![(self.x + self.w) as u32, (self.y + self.h) as u32],
    {
        vec2(self.x + self.w, self.y + self.h)
    }
}

} // verus!
