//! Three-component vectors with integer components.
//!
//! What one step of a component stands for is up to the use. A direction
//! counts millionths, so that the unit vector along +X is `(UNIT, 0, 0)`;
//! positions and velocities count thousandths of a world unit.
//!
//! Normalizing divides by a rounded-down square root and rounds each quotient
//! toward zero. The lemmas below say how near the result stays to the unit
//! vector it stands for: [`lemma_normalized_length`] for its length,
//! [`lemma_normalized_parallel`] for its direction.

use vstd::prelude::*;
use vstd::arithmetic::div_mod::{lemma_fundamental_div_mod, lemma_mod_bound};
use crate::arith::{
    floor_sqrt, is_floor_sqrt, isqrt, lemma_floor_sqrt, lemma_floor_sqrt_lower_bound,
    lemma_floor_sqrt_unique, trunc_div,
};

verus! {

/// The length of a unit direction vector: one million.
pub const UNIT: i32 = 1_000_000;

/// [`UNIT`] squared.
pub const UNIT_SQUARED: u64 = 1_000_000_000_000;

/// A vector with integer components.
#[derive(Clone, Copy, Debug, PartialEq, Eq, Structural)]
pub struct Vec3 {
    pub x: i32,
    pub y: i32,
    pub z: i32,
}

/// The magnitude of `c`.
pub open spec fn abs(c: int) -> int {
    if c >= 0 {
        c
    } else {
        -c
    }
}

/// One component of a normalized vector: `c` over the vector's length, in
/// millionths, rounded toward zero. `n` is the squared length of the vector
/// that `c` belongs to; the length itself is taken in millionths and rounded
/// down.
pub open spec fn normalized_component(c: int, n: nat) -> int {
    trunc_div(c * UNIT_SQUARED, floor_sqrt(n * UNIT_SQUARED as nat) as int)
}

impl Vec3 {
    /// The vector with all components zero.
    pub open spec fn zero_spec() -> Vec3 {
        Vec3 { x: 0, y: 0, z: 0 }
    }

    /// The sum of the squares of the components.
    pub open spec fn length_squared_spec(self) -> nat {
        (self.x * self.x + self.y * self.y + self.z * self.z) as nat
    }

    /// The vector over its own length, in millionths, each component rounded
    /// toward zero; the zero vector for the zero vector.
    pub open spec fn normalize_or_zero_spec(self) -> Vec3 {
        let n = self.length_squared_spec();
        if n == 0 {
            Vec3::zero_spec()
        } else {
            Vec3 {
                x: normalized_component(self.x as int, n) as i32,
                y: normalized_component(self.y as int, n) as i32,
                z: normalized_component(self.z as int, n) as i32,
            }
        }
    }

    /// The vector with its vertical component removed.
    pub open spec fn horizontal_spec(self) -> Vec3 {
        Vec3 { x: self.x, y: 0, z: self.z }
    }

    /// The vector with the given components.
    pub fn new(x: i32, y: i32, z: i32) -> (out: Vec3)
        ensures
            out == (Vec3 { x, y, z }),
    {
        Vec3 { x, y, z }
    }

    /// The zero vector.
    pub fn zero() -> (out: Vec3)
        ensures
            out == Vec3::zero_spec(),
    {
        Vec3 { x: 0, y: 0, z: 0 }
    }

    /// Whether every component is zero.
    pub fn is_zero(self) -> (out: bool)
        ensures
            out == (self == Vec3::zero_spec()),
    {
        self.x == 0 && self.y == 0 && self.z == 0
    }

    /// Projects the vector onto the horizontal plane.
    pub fn horizontal(self) -> (out: Vec3)
        ensures
            out == self.horizontal_spec(),
    {
        Vec3 { x: self.x, y: 0, z: self.z }
    }

    /// The squared length: the sum of the squares of the components.
    pub fn length_squared(self) -> (n: u64)
        ensures
            n == self.length_squared_spec(),
            n <= 3 * 0x4000_0000_0000_0000,
            self.x * self.x <= n,
            self.y * self.y <= n,
            self.z * self.z <= n,
    {
        let x: i64 = self.x as i64;
        let y: i64 = self.y as i64;
        let z: i64 = self.z as i64;
        assert(0 <= x * x <= 0x4000_0000_0000_0000) by (nonlinear_arith)
            requires
                -0x8000_0000 <= x <= 0x7fff_ffff,
        ;
        assert(0 <= y * y <= 0x4000_0000_0000_0000) by (nonlinear_arith)
            requires
                -0x8000_0000 <= y <= 0x7fff_ffff,
        ;
        assert(0 <= z * z <= 0x4000_0000_0000_0000) by (nonlinear_arith)
            requires
                -0x8000_0000 <= z <= 0x7fff_ffff,
        ;
        (x * x) as u64 + (y * y) as u64 + (z * z) as u64
    }

    /// Scales the vector to unit length, or returns zero for the zero vector.
    pub fn normalize_or_zero(self) -> (out: Vec3)
        ensures
            out == self.normalize_or_zero_spec(),
            -UNIT <= out.x <= UNIT,
            -UNIT <= out.y <= UNIT,
            -UNIT <= out.z <= UNIT,
            (out == Vec3::zero_spec()) == (self == Vec3::zero_spec()),
    {
        let n: u64 = self.length_squared();
        proof {
            lemma_normalize_or_zero(self);
        }
        if n == 0 {
            return Vec3 { x: 0, y: 0, z: 0 };
        }
        let len: u64 = isqrt(n as u128 * UNIT_SQUARED as u128);
        Vec3 {
            x: Self::component(self.x, n, len),
            y: Self::component(self.y, n, len),
            z: Self::component(self.z, n, len),
        }
    }

    /// One component `c` of a vector of squared length `n`, over the
    /// vector's length; `len` is that length in millionths.
    fn component(c: i32, n: u64, len: u64) -> (out: i32)
        requires
            0 < n,
            c * c <= n,
            len == floor_sqrt(n as nat * UNIT_SQUARED as nat),
        ensures
            out == normalized_component(c as int, n as nat),
    {
        proof {
            lemma_normalized_component(c as int, n as nat);
            lemma_floor_sqrt_lower_bound(n as nat * UNIT_SQUARED as nat, 1);
        }
        let num: i128 = c as i128 * UNIT_SQUARED as i128;
        (num / (len as i128)) as i32
    }
}

/// A component of a normalized vector keeps its sign and does not exceed
/// [`UNIT`] in magnitude; it is at least half of `UNIT` when it is the largest
/// of three.
pub proof fn lemma_normalized_component(c: int, n: nat)
    requires
        0 < n,
        c * c <= n,
    ensures
        -UNIT <= normalized_component(c, n) <= UNIT,
        c >= 0 ==> normalized_component(c, n) >= 0,
        c <= 0 ==> normalized_component(c, n) <= 0,
        c != 0 && n <= 3 * (c * c) ==> normalized_component(c, n) != 0,
{
    let a: nat = if c >= 0 { c as nat } else { (-c) as nat };
    let big: nat = n * UNIT_SQUARED as nat;
    let len = floor_sqrt(big);
    lemma_floor_sqrt(big);
    assert(a * a == c * c) by (nonlinear_arith)
        requires
            a == c || a == -c,
    ;
    assert(1_000_000 * 1_000_000 <= big) by (nonlinear_arith)
        requires
            big == n * 1_000_000_000_000,
            n >= 1,
    ;
    lemma_floor_sqrt_lower_bound(big, 1_000_000);
    if a == 0 {
        assert(c * UNIT_SQUARED == 0);
        assert(0int / (len as int) == 0) by (nonlinear_arith)
            requires
                len > 0,
        ;
    } else {
        let scaled: nat = a * 1_000_000;
        assert(scaled * scaled <= big) by (nonlinear_arith)
            requires
                scaled == a * 1_000_000,
                big == n * 1_000_000_000_000,
                a * a <= n,
        ;
        lemma_floor_sqrt_lower_bound(big, scaled);
        assert(len >= 1_000_000);
        let num: int = a * UNIT_SQUARED;
        assert(num == scaled * 1_000_000) by (nonlinear_arith)
            requires
                num == a * 1_000_000_000_000,
                scaled == a * 1_000_000,
        ;
        assert(0 <= num / (len as int) <= 1_000_000) by (nonlinear_arith)
            requires
                num == scaled * 1_000_000,
                0 < scaled <= len,
        ;
        if c >= 0 {
            assert(c * UNIT_SQUARED == num);
        } else {
            assert(-(c * UNIT_SQUARED) == num) by (nonlinear_arith)
                requires
                    num == a * UNIT_SQUARED,
                    a == -c,
            ;
            assert(c * UNIT_SQUARED < 0) by (nonlinear_arith)
                requires
                    c < 0,
                    UNIT_SQUARED == 1_000_000_000_000,
            ;
        }
        if n <= 3 * (c * c) {
            assert(len < 2 * scaled) by (nonlinear_arith)
                requires
                    len * len <= big,
                    big == n * 1_000_000_000_000,
                    n <= 3 * (a * a),
                    scaled == a * 1_000_000,
                    a > 0,
            ;
            assert(num / (len as int) >= 500_000) by (nonlinear_arith)
                requires
                    num == scaled * 1_000_000,
                    0 < len < 2 * scaled,
            ;
        }
    }
}

/// What rounding takes off a normalized component: the component times the
/// length `len` of the vector, in millionths, falls short of `c` million
/// millionths by less than `len`, on the side of zero.
pub proof fn lemma_normalized_component_remainder(c: int, n: nat)
    requires
        0 < n,
    ensures
        ({
            let len = floor_sqrt(n * UNIT_SQUARED as nat) as int;
            let rem = c * UNIT_SQUARED - normalized_component(c, n) * len;
            &&& len >= UNIT
            &&& len * len <= n * UNIT_SQUARED < (len + 1) * (len + 1)
            &&& c >= 0 ==> 0 <= rem < len
            &&& c <= 0 ==> -len < rem <= 0
        }),
{
    let big: nat = n * UNIT_SQUARED as nat;
    let len = floor_sqrt(big) as int;
    lemma_floor_sqrt(big);
    assert(1_000_000 * 1_000_000 <= big) by (nonlinear_arith)
        requires
            big == n * 1_000_000_000_000,
            n >= 1,
    ;
    lemma_floor_sqrt_lower_bound(big, 1_000_000);
    let num = c * UNIT_SQUARED;
    if c >= 0 {
        assert(num >= 0) by (nonlinear_arith)
            requires
                num == c * 1_000_000_000_000,
                c >= 0,
        ;
        lemma_fundamental_div_mod(num, len);
        lemma_mod_bound(num, len);
        assert(len * (num / len) == (num / len) * len) by (nonlinear_arith);
    }
    if c <= 0 {
        assert(-num >= 0) by (nonlinear_arith)
            requires
                num == c * 1_000_000_000_000,
                c <= 0,
        ;
        lemma_fundamental_div_mod(-num, len);
        lemma_mod_bound(-num, len);
        assert(len * ((-num) / len) == -(-((-num) / len) * len)) by (nonlinear_arith);
        if c == 0 {
            assert(num == 0);
        }
    }
}

/// Normalizing keeps the direction: for any two components `a` and `b` of one
/// vector, of squared length `n`, the cross product of the normalized pair
/// with the pair itself is no larger than rounding alone accounts for.
pub proof fn lemma_normalized_pair_parallel(a: int, b: int, n: nat)
    requires
        0 < n,
    ensures
        -(abs(a) + abs(b)) <= normalized_component(a, n) * b - normalized_component(b, n) * a
            <= abs(a) + abs(b),
{
    let len = floor_sqrt(n * UNIT_SQUARED as nat) as int;
    let oa = normalized_component(a, n);
    let ob = normalized_component(b, n);
    lemma_normalized_component_remainder(a, n);
    lemma_normalized_component_remainder(b, n);
    let ra = a * UNIT_SQUARED - oa * len;
    let rb = b * UNIT_SQUARED - ob * len;
    let u = UNIT_SQUARED as int;
    let cross = oa * b - ob * a;
    assert(len * cross == rb * a - ra * b) by (nonlinear_arith)
        requires
            ra == a * u - oa * len,
            rb == b * u - ob * len,
            cross == oa * b - ob * a,
    ;
    assert(-(len * abs(a)) <= rb * a <= len * abs(a)) by (nonlinear_arith)
        requires
            -len < rb < len,
    ;
    assert(-(len * abs(b)) <= ra * b <= len * abs(b)) by (nonlinear_arith)
        requires
            -len < ra < len,
    ;
    let bound = abs(a) + abs(b);
    assert(len * bound == len * abs(a) + len * abs(b)) by (nonlinear_arith)
        requires
            bound == abs(a) + abs(b),
    ;
    assert(-bound <= cross <= bound) by (nonlinear_arith)
        requires
            -(len * bound) <= len * cross <= len * bound,
            len > 0,
    ;
}

/// The square of a normalized component times the squared length `len` of
/// the vector, and the same with the component stepped out by one, bracket
/// the square of `c` million millionths.
proof fn lemma_normalized_component_square(c: int, n: nat)
    requires
        0 < n,
    ensures
        ({
            let len = floor_sqrt(n * UNIT_SQUARED as nat) as int;
            let o = normalized_component(c, n);
            &&& (o * o) * (len * len) <= (c * c) * (UNIT_SQUARED * UNIT_SQUARED)
            &&& (c * c) * (UNIT_SQUARED * UNIT_SQUARED) < ((abs(o) + 1) * (abs(o) + 1)) * (len
                * len)
        }),
{
    let len = floor_sqrt(n * UNIT_SQUARED as nat) as int;
    let o = normalized_component(c, n);
    lemma_normalized_component_remainder(c, n);
    let u = UNIT_SQUARED as int;
    let p = o * len;
    let m = c * u;
    let q = (abs(o) + 1) * len;
    // 0 <= |p| <= |m| < q
    assert(m >= 0 <==> c >= 0) by (nonlinear_arith)
        requires
            m == c * u,
            u > 0,
    ;
    assert(m <= 0 <==> c <= 0) by (nonlinear_arith)
        requires
            m == c * u,
            u > 0,
    ;
    assert(o >= 0 ==> p >= 0) by (nonlinear_arith)
        requires
            p == o * len,
            len > 0,
    ;
    assert(o <= 0 ==> p <= 0) by (nonlinear_arith)
        requires
            p == o * len,
            len > 0,
    ;
    assert(q == abs(p) + len) by (nonlinear_arith)
        requires
            p == o * len,
            q == (abs(o) + 1) * len,
            len > 0,
    ;
    assert(abs(p) <= abs(m) < q);
    assert(p * p <= m * m < q * q) by (nonlinear_arith)
        requires
            0 <= abs(p) <= abs(m) < q,
    ;
    assert(p * p == (o * o) * (len * len)) by (nonlinear_arith)
        requires
            p == o * len,
    ;
    assert(m * m == (c * c) * (u * u)) by (nonlinear_arith)
        requires
            m == c * u,
    ;
    assert(q * q == ((abs(o) + 1) * (abs(o) + 1)) * (len * len)) by (nonlinear_arith)
        requires
            q == (abs(o) + 1) * len,
    ;
}

/// The only non-zero component of a vector normalizes to a whole unit, with
/// its sign.
pub proof fn lemma_normalized_component_alone(c: int)
    requires
        c != 0,
    ensures
        c > 0 ==> normalized_component(c, (c * c) as nat) == UNIT,
        c < 0 ==> normalized_component(c, (c * c) as nat) == -UNIT,
        normalized_component(0, (c * c) as nat) == 0,
{
    let a: nat = if c >= 0 { c as nat } else { (-c) as nat };
    assert(a * a == c * c) by (nonlinear_arith)
        requires
            a == c || a == -c,
    ;
    let n: nat = (c * c) as nat;
    let big: nat = n * UNIT_SQUARED as nat;
    let len: nat = a * 1_000_000;
    assert(is_floor_sqrt(big, len)) by (nonlinear_arith)
        requires
            big == (a * a) * 1_000_000_000_000,
            len == a * 1_000_000,
    ;
    lemma_floor_sqrt(big);
    lemma_floor_sqrt_unique(big, len, floor_sqrt(big));
    let num: int = a * UNIT_SQUARED;
    assert(num / (len as int) == 1_000_000) by (nonlinear_arith)
        requires
            num == a * 1_000_000_000_000,
            len == a * 1_000_000,
            a > 0,
    ;
    assert(0int / (len as int) == 0) by (nonlinear_arith)
        requires
            len > 0,
    ;
    assert(0 * UNIT_SQUARED == 0);
    if c < 0 {
        assert(-(c * UNIT_SQUARED) == num) by (nonlinear_arith)
            requires
                num == a * UNIT_SQUARED,
                a == -c,
        ;
        assert(c * UNIT_SQUARED < 0) by (nonlinear_arith)
            requires
                c < 0,
                UNIT_SQUARED == 1_000_000_000_000,
        ;
    }
}

/// The squared length is the sum of the squares, is at least each of them,
/// and is zero for the zero vector only.
pub proof fn lemma_length_squared(v: Vec3)
    ensures
        v.length_squared_spec() == v.x * v.x + v.y * v.y + v.z * v.z,
        v.x * v.x <= v.length_squared_spec(),
        v.y * v.y <= v.length_squared_spec(),
        v.z * v.z <= v.length_squared_spec(),
        v.length_squared_spec() == 0 <==> v == Vec3::zero_spec(),
{
    let x = v.x as int;
    let y = v.y as int;
    let z = v.z as int;
    assert(x * x >= 0 && y * y >= 0 && z * z >= 0) by (nonlinear_arith);
    assert(x * x + y * y + z * z == 0 <==> (x == 0 && y == 0 && z == 0)) by (nonlinear_arith);
}

/// A normalized vector is one unit long, to within rounding: its squared
/// length exceeds a unit squared by at most two units, and stepping every
/// component out by one makes it longer than a unit.
pub proof fn lemma_normalized_length(v: Vec3)
    requires
        v != Vec3::zero_spec(),
    ensures
        ({
            let o = v.normalize_or_zero_spec();
            &&& o.length_squared_spec() <= UNIT * UNIT + 2 * UNIT
            &&& (abs(o.x as int) + 1) * (abs(o.x as int) + 1) + (abs(o.y as int) + 1) * (abs(
                o.y as int,
            ) + 1) + (abs(o.z as int) + 1) * (abs(o.z as int) + 1) > UNIT * UNIT
        }),
{
    let n = v.length_squared_spec();
    let o = v.normalize_or_zero_spec();
    lemma_length_squared(v);
    lemma_length_squared(o);
    lemma_normalize_or_zero(v);
    let x = v.x as int;
    let y = v.y as int;
    let z = v.z as int;
    lemma_normalized_component(x, n);
    lemma_normalized_component(y, n);
    lemma_normalized_component(z, n);
    let ox = o.x as int;
    let oy = o.y as int;
    let oz = o.z as int;
    assert(ox == normalized_component(x, n));
    assert(oy == normalized_component(y, n));
    assert(oz == normalized_component(z, n));
    lemma_normalized_component_remainder(x, n);
    lemma_normalized_component_square(x, n);
    lemma_normalized_component_square(y, n);
    lemma_normalized_component_square(z, n);
    let len = floor_sqrt(n * UNIT_SQUARED as nat) as int;
    let ll = len * len;
    let u = UNIT_SQUARED as int;
    let uu = u * u;
    let s = ox * ox + oy * oy + oz * oz;
    let t = (abs(ox) + 1) * (abs(ox) + 1) + (abs(oy) + 1) * (abs(oy) + 1) + (abs(oz) + 1) * (abs(
        oz,
    ) + 1);
    assert(s * ll == (ox * ox) * ll + (oy * oy) * ll + (oz * oz) * ll) by (nonlinear_arith)
        requires
            s == ox * ox + oy * oy + oz * oz,
    ;
    assert(t * ll == ((abs(ox) + 1) * (abs(ox) + 1)) * ll + ((abs(oy) + 1) * (abs(oy) + 1)) * ll
        + ((abs(oz) + 1) * (abs(oz) + 1)) * ll) by (nonlinear_arith)
        requires
            t == (abs(ox) + 1) * (abs(ox) + 1) + (abs(oy) + 1) * (abs(oy) + 1) + (abs(oz) + 1)
                * (abs(oz) + 1),
    ;
    assert(n * uu == (x * x) * uu + (y * y) * uu + (z * z) * uu) by (nonlinear_arith)
        requires
            n == x * x + y * y + z * z,
    ;
    // s * len^2 <= n * u^2 < t * len^2, and len^2 <= n * u < (len + 1)^2.
    assert(s * ll <= n * uu < t * ll);
    assert(n * uu == (n * u) * u) by (nonlinear_arith)
        requires
            uu == u * u,
    ;
    assert(s <= u + 2 * 1_000_000) by (nonlinear_arith)
        requires
            s * ll <= (n * u) * u,
            n * u < (len + 1) * (len + 1),
            ll == len * len,
            len >= 1_000_000,
            u == 1_000_000_000_000,
            s >= 0,
    ;
    assert(t > u) by (nonlinear_arith)
        requires
            (n * u) * u < t * ll,
            ll <= n * u,
            ll == len * len,
            len >= 1_000_000,
            u == 1_000_000_000_000,
    ;
    assert(UNIT * UNIT == u);
}

/// A normalized vector points the way the vector does: every component of
/// their cross product is no larger than rounding alone accounts for.
pub proof fn lemma_normalized_parallel(v: Vec3)
    requires
        v != Vec3::zero_spec(),
    ensures
        ({
            let o = v.normalize_or_zero_spec();
            &&& -(abs(v.x as int) + abs(v.y as int)) <= o.x * v.y - o.y * v.x <= abs(v.x as int)
                + abs(v.y as int)
            &&& -(abs(v.y as int) + abs(v.z as int)) <= o.y * v.z - o.z * v.y <= abs(v.y as int)
                + abs(v.z as int)
            &&& -(abs(v.z as int) + abs(v.x as int)) <= o.z * v.x - o.x * v.z <= abs(v.z as int)
                + abs(v.x as int)
        }),
{
    let n = v.length_squared_spec();
    lemma_length_squared(v);
    lemma_normalize_or_zero(v);
    lemma_normalized_component(v.x as int, n);
    lemma_normalized_component(v.y as int, n);
    lemma_normalized_component(v.z as int, n);
    lemma_normalized_pair_parallel(v.x as int, v.y as int, n);
    lemma_normalized_pair_parallel(v.y as int, v.z as int, n);
    lemma_normalized_pair_parallel(v.z as int, v.x as int, n);
}

/// What normalizing keeps: every component stays within [`UNIT`] and keeps its
/// sign, and only the zero vector comes out as zero.
pub proof fn lemma_normalize_or_zero(v: Vec3)
    ensures
        -UNIT <= v.normalize_or_zero_spec().x <= UNIT,
        -UNIT <= v.normalize_or_zero_spec().y <= UNIT,
        -UNIT <= v.normalize_or_zero_spec().z <= UNIT,
        v.x >= 0 ==> v.normalize_or_zero_spec().x >= 0,
        v.x <= 0 ==> v.normalize_or_zero_spec().x <= 0,
        v.y >= 0 ==> v.normalize_or_zero_spec().y >= 0,
        v.y <= 0 ==> v.normalize_or_zero_spec().y <= 0,
        v.z >= 0 ==> v.normalize_or_zero_spec().z >= 0,
        v.z <= 0 ==> v.normalize_or_zero_spec().z <= 0,
        (v.normalize_or_zero_spec() == Vec3::zero_spec()) == (v == Vec3::zero_spec()),
{
    let n = v.length_squared_spec();
    let x = v.x as int;
    let y = v.y as int;
    let z = v.z as int;
    lemma_length_squared(v);
    if n != 0 {
        lemma_normalized_component(x, n);
        lemma_normalized_component(y, n);
        lemma_normalized_component(z, n);
        // The largest component carries at least a third of the squared length.
        assert(n <= 3 * (x * x) || n <= 3 * (y * y) || n <= 3 * (z * z)) by (nonlinear_arith)
            requires
                n == x * x + y * y + z * z,
        ;
        assert(x == 0 ==> x * x == 0) by (nonlinear_arith);
        assert(y == 0 ==> y * y == 0) by (nonlinear_arith);
        assert(z == 0 ==> z * z == 0) by (nonlinear_arith);
        let out = v.normalize_or_zero_spec();
        assert(out.x == normalized_component(x, n));
        assert(out.y == normalized_component(y, n));
        assert(out.z == normalized_component(z, n));
    }
}

} // verus!
