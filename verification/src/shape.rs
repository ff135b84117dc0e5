use vstd::prelude::*;
use crate::number::Number;
use crate::text::str_equal;

verus! {

/// The mathematical value of a join's shape.
pub enum ShapeModel {
    Line,
    Cylinder(Number),
    SemiCone(Number, Number),
    RectangularPrism(Number, Number, Option<Seq<Seq<char>>>),
}

/// The geometry that connects the points of a join.
#[derive(Debug, PartialEq)]
pub enum JoinShape {
    /// A line of the thickness that the configuration gives.
    Line,
    /// A cylinder of the given radius.
    Cylinder(Number),
    /// A truncated cone, by the radius of each end; a second radius of
    /// zero gives a full cone.
    SemiCone(Number, Number),
    /// A prism, by width and height, with the names of the three vector
    /// overlays that orient it, if it has them.
    RectangularPrism(Number, Number, Option<[String; 3]>),
}

/// The names of the overlays that orient a prism.
pub open spec fn orientation_view(names: Option<[String; 3]>) -> Option<Seq<Seq<char>>> {
    match names {
        Some(n) => Some(seq![n@[0]@, n@[1]@, n@[2]@]),
        None => None,
    }
}

impl View for JoinShape {
    type V = ShapeModel;

    open spec fn view(&self) -> ShapeModel {
        match self {
            JoinShape::Line => ShapeModel::Line,
            JoinShape::Cylinder(r) => ShapeModel::Cylinder(*r),
            JoinShape::SemiCone(a, b) => ShapeModel::SemiCone(*a, *b),
            JoinShape::RectangularPrism(w, h, names) => ShapeModel::RectangularPrism(
                *w,
                *h,
                orientation_view(*names),
            ),
        }
    }
}

/// Whether two optional orientations name the same overlays.
pub fn same_orientation(a: &Option<[String; 3]>, b: &Option<[String; 3]>) -> (same: bool)
    ensures
        same == (orientation_view(*a) == orientation_view(*b)),
{
    match (a, b) {
        (Some(x), Some(y)) => {
            let same = str_equal(x[0].as_str(), y[0].as_str()) && str_equal(x[1].as_str(), y[1].as_str())
                && str_equal(x[2].as_str(), y[2].as_str());
            proof {
                let p = orientation_view(*a)->0;
                let q = orientation_view(*b)->0;
                assert(p[0] == x@[0]@ && p[1] == x@[1]@ && p[2] == x@[2]@);
                assert(q[0] == y@[0]@ && q[1] == y@[1]@ && q[2] == y@[2]@);
                if same {
                    assert(p =~= q);
                }
            }
            same
        },
        (None, None) => true,
        _ => false,
    }
}

impl JoinShape {
    /// Whether two shapes have the same value.
    pub fn same(&self, other: &JoinShape) -> (same: bool)
        ensures
            same == (self@ == other@),
    {
        match (self, other) {
            (JoinShape::Line, JoinShape::Line) => true,
            (JoinShape::Cylinder(a), JoinShape::Cylinder(b)) => *a == *b,
            (JoinShape::SemiCone(a, b), JoinShape::SemiCone(c, d)) => *a == *c && *b == *d,
            (JoinShape::RectangularPrism(w, h, n), JoinShape::RectangularPrism(x, y, m)) => *w == *x && *h == *y
                && same_orientation(n, m),
            _ => false,
        }
    }

    /// A copy of the shape.
    pub fn duplicate(&self) -> (copy: JoinShape)
        ensures
            copy@ == self@,
    {
        match self {
            JoinShape::Line => JoinShape::Line,
            JoinShape::Cylinder(r) => JoinShape::Cylinder(*r),
            JoinShape::SemiCone(a, b) => JoinShape::SemiCone(*a, *b),
            JoinShape::RectangularPrism(w, h, Some(names)) => JoinShape::RectangularPrism(
                *w,
                *h,
                Some([names[0].clone(), names[1].clone(), names[2].clone()]),
            ),
            JoinShape::RectangularPrism(w, h, None) => JoinShape::RectangularPrism(*w, *h, None),
        }
    }
}

} // verus!
