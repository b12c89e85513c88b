use vstd::prelude::*;

verus! {

/// A point in absolute length units.
#[derive(Clone, Copy, Debug, PartialEq, Eq, Structural)]
pub struct Point {
    pub x: i64,
    pub y: i64,
}

/// A width and a height in absolute length units.
#[derive(Clone, Copy, Debug, PartialEq, Eq, Structural)]
pub struct Size {
    pub width: i64,
    pub height: i64,
}

/// An affine transform: a point `(x, y)` maps to
/// `(sx * x + kx * y + tx, ky * x + sy * y + ty)`.
#[derive(Clone, Copy, Debug, PartialEq, Eq, Structural)]
pub struct Transform {
    pub sx: i64,
    pub ky: i64,
    pub kx: i64,
    pub sy: i64,
    pub tx: i64,
    pub ty: i64,
}

/// Whether an integer is representable as an `i64`.
pub open spec fn fits(v: int) -> bool {
    i64::MIN <= v <= i64::MAX
}

/// `a * x + b * y + c`, computed without rounding.
pub open spec fn lin(a: i64, x: i64, b: i64, y: i64, c: i64) -> int {
    a * x + b * y + c
}

/// The image of `p` under `t`, where both coordinates are representable.
pub open spec fn apply_spec(t: Transform, p: Point) -> Option<Point> {
    let x = lin(t.sx, p.x, t.kx, p.y, t.tx);
    let y = lin(t.ky, p.x, t.sy, p.y, t.ty);
    if fits(x) && fits(y) {
        Some(Point { x: x as i64, y: y as i64 })
    } else {
        None
    }
}

/// The transform that applies `b` first and then `a`, where all of its
/// coefficients are representable.
pub open spec fn compose_spec(a: Transform, b: Transform) -> Option<Transform> {
    let sx = lin(a.sx, b.sx, a.kx, b.ky, 0);
    let kx = lin(a.sx, b.kx, a.kx, b.sy, 0);
    let tx = lin(a.sx, b.tx, a.kx, b.ty, a.tx);
    let ky = lin(a.ky, b.sx, a.sy, b.ky, 0);
    let sy = lin(a.ky, b.kx, a.sy, b.sy, 0);
    let ty = lin(a.ky, b.tx, a.sy, b.ty, a.ty);
    if fits(sx) && fits(kx) && fits(tx) && fits(ky) && fits(sy) && fits(ty) {
        Some(
            Transform {
                sx: sx as i64,
                ky: ky as i64,
                kx: kx as i64,
                sy: sy as i64,
                tx: tx as i64,
                ty: ty as i64,
            },
        )
    } else {
        None
    }
}

/// The identity transform.
pub open spec fn identity_spec() -> Transform {
    Transform { sx: 1, ky: 0, kx: 0, sy: 1, tx: 0, ty: 0 }
}

/// The translation by `p`.
pub open spec fn translate_spec(p: Point) -> Transform {
    Transform { sx: 1, ky: 0, kx: 0, sy: 1, tx: p.x, ty: p.y }
}

impl Transform {
    /// The identity transform.
    pub fn identity() -> (r: Transform)
        ensures
            r == identity_spec(),
    {
        Transform { sx: 1, ky: 0, kx: 0, sy: 1, tx: 0, ty: 0 }
    }

    /// The translation by `(x, y)`.
    pub fn translate(x: i64, y: i64) -> (r: Transform)
        ensures
            r == translate_spec(Point { x, y }),
    {
        Transform { sx: 1, ky: 0, kx: 0, sy: 1, tx: x, ty: y }
    }

    /// The image of `p` under this transform, or `None` where a coordinate
    /// is not representable.
    pub fn apply(&self, p: Point) -> (r: Option<Point>)
        ensures
            r == apply_spec(*self, p),
    {
        let x = lin_checked(self.sx, p.x, self.kx, p.y, self.tx);
        let y = lin_checked(self.ky, p.x, self.sy, p.y, self.ty);
        match (x, y) {
            (Some(x), Some(y)) => Some(Point { x, y }),
            _ => None,
        }
    }

    /// The transform that applies `inner` first and then `self`, or `None`
    /// where a coefficient is not representable.
    pub fn pre_concat(&self, inner: &Transform) -> (r: Option<Transform>)
        ensures
            r == compose_spec(*self, *inner),
    {
        let a = self;
        let b = inner;
        let sx = lin_checked(a.sx, b.sx, a.kx, b.ky, 0);
        let kx = lin_checked(a.sx, b.kx, a.kx, b.sy, 0);
        let tx = lin_checked(a.sx, b.tx, a.kx, b.ty, a.tx);
        let ky = lin_checked(a.ky, b.sx, a.sy, b.ky, 0);
        let sy = lin_checked(a.ky, b.kx, a.sy, b.sy, 0);
        let ty = lin_checked(a.ky, b.tx, a.sy, b.ty, a.ty);
        match (sx, kx, tx, ky, sy, ty) {
            (Some(sx), Some(kx), Some(tx), Some(ky), Some(sy), Some(ty)) => Some(
                Transform { sx, ky, kx, sy, tx, ty },
            ),
            _ => None,
        }
    }
}

/// `a * x + b * y + c` where it is representable as an `i64`.
fn lin_checked(a: i64, x: i64, b: i64, y: i64, c: i64) -> (r: Option<i64>)
    ensures
        fits(lin(a, x, b, y, c)) ==> r == Some(lin(a, x, b, y, c) as i64),
        !fits(lin(a, x, b, y, c)) ==> r is None,
{
    let ai = a as i128;
    let xi = x as i128;
    let bi = b as i128;
    let yi = y as i128;
    proof {
        lemma_product_bound(a as int, x as int);
        lemma_product_bound(b as int, y as int);
    }
    let p = ai * xi;
    let q = bi * yi;
    let s = match p.checked_add(q) {
        Some(s) => s,
        None => {
            return None;
        },
    };
    let t = match s.checked_add(c as i128) {
        Some(t) => t,
        None => {
            return None;
        },
    };
    if t < i64::MIN as i128 || t > i64::MAX as i128 {
        None
    } else {
        Some(t as i64)
    }
}

proof fn lemma_product_bound(a: int, b: int)
    requires
        i64::MIN <= a <= i64::MAX,
        i64::MIN <= b <= i64::MAX,
    ensures
        -0x4000_0000_0000_0000_0000_0000_0000_0000 <= a * b <= 0x4000_0000_0000_0000_0000_0000_0000_0000,
{
    assert(-0x4000_0000_0000_0000_0000_0000_0000_0000 <= a * b <= 0x4000_0000_0000_0000_0000_0000_0000_0000)
        by (nonlinear_arith)
        requires
            -0x8000_0000_0000_0000 <= a <= 0x7fff_ffff_ffff_ffff,
            -0x8000_0000_0000_0000 <= b <= 0x7fff_ffff_ffff_ffff,
    ;
}

} // verus!
