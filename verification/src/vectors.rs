use vstd::prelude::*;

use crate::config::{overlays_of, vectors_of};
use crate::config_file::ConfigFile;
use crate::grammar::{FileModel, Overlays, Vectors};
use crate::number::Real;
use crate::scene::{Marker, Visibility};
use crate::text::str_equal;

verus! {

/// A vector in the scene: the point that it starts at, the point that
/// gives its direction, and its scale.
#[derive(Debug)]
pub struct Vector(pub Marker, pub Marker, pub Real);

/// The mathematical value of a marker.
pub struct MarkerModel {
    pub label: Seq<char>,
    pub visibility: Visibility,
}

/// The mathematical value of a vector.
pub struct VectorModel {
    pub origin: MarkerModel,
    pub target: MarkerModel,
    pub scale: Real,
}

impl View for Marker {
    type V = MarkerModel;

    open spec fn view(&self) -> MarkerModel {
        MarkerModel { label: self.0@, visibility: self.1 }
    }
}

impl View for Vector {
    type V = VectorModel;

    open spec fn view(&self) -> VectorModel {
        VectorModel { origin: self.0@, target: self.1@, scale: self.2 }
    }
}

/// The values of the vectors.
pub open spec fn vectors_view(vectors: Seq<Vector>) -> Seq<VectorModel> {
    Seq::new(vectors.len(), |i: int| vectors[i]@)
}

/// What may happen to the vectors.
#[derive(Debug)]
pub enum VectorEvent {
    HideAllVectorsEvent,
    ShowAllVectorsEvent,
    HideVectorEvent(Vector),
    ShowVectorEvent(Vector),
}

impl Marker {
    /// Whether two markers have the same label and the same visibility.
    pub fn same(&self, other: &Marker) -> (same: bool)
        ensures
            same == (self@ == other@),
    {
        str_equal(self.0.as_str(), other.0.as_str()) && self.1 == other.1
    }

    /// A copy of the marker.
    pub fn duplicate(&self) -> (copy: Marker)
        ensures
            copy@ == self@,
    {
        Marker(self.0.clone(), self.1)
    }
}

impl Vector {
    /// Whether two vectors have the same value.
    pub fn same(&self, other: &Vector) -> (same: bool)
        ensures
            same == (self@ == other@),
    {
        self.0.same(&other.0) && self.1.same(&other.1) && self.2 == other.2
    }

    /// A copy of the vector.
    pub fn duplicate(&self) -> (copy: Vector)
        ensures
            copy@ == self@,
    {
        Vector(self.0.duplicate(), self.1.duplicate(), self.2)
    }
}

/// The vectors among the first `n` that are not the given one, in their
/// order.
pub open spec fn others_upto(vectors: Seq<VectorModel>, vector: VectorModel, n: int) -> Seq<VectorModel>
    decreases n,
{
    if n <= 0 {
        Seq::empty()
    } else if vectors[n - 1] == vector {
        others_upto(vectors, vector, n - 1)
    } else {
        others_upto(vectors, vector, n - 1).push(vectors[n - 1])
    }
}

/// The vectors that are hidden.
#[derive(Debug)]
pub struct VectorsVisibility {
    vectors: Vec<Vector>,
}

impl View for VectorsVisibility {
    type V = Seq<VectorModel>;

    closed spec fn view(&self) -> Seq<VectorModel> {
        vectors_view(self.vectors@)
    }
}

impl VectorsVisibility {
    /// No vector is hidden.
    pub fn new() -> (hidden: Self)
        ensures
            hidden@ == Seq::<VectorModel>::empty(),
    {
        let hidden = VectorsVisibility { vectors: Vec::new() };
        assert(hidden@ =~= Seq::<VectorModel>::empty());
        hidden
    }

    /// Hides a vector.
    pub fn hide_vector(&mut self, vector: Vector)
        ensures
            final(self)@ == old(self)@.push(vector@),
    {
        self.vectors.push(vector);
        assert(self@ =~= old(self)@.push(vector@));
    }

    /// Shows a vector again.
    pub fn show_vector(&mut self, vector: &Vector)
        ensures
            final(self)@ == others_upto(old(self)@, vector@, old(self)@.len() as int),
    {
        let mut kept: Vec<Vector> = Vec::new();
        assert(vectors_view(kept@) =~= Seq::empty());
        let mut i: usize = 0;
        while i < self.vectors.len()
            invariant
                i <= self.vectors.len(),
                *self == *old(self),
                vectors_view(kept@) == others_upto(vectors_view(self.vectors@), vector@, i as int),
            decreases self.vectors.len() - i,
        {
            if !self.vectors[i].same(vector) {
                let ghost before = kept@;
                kept.push(self.vectors[i].duplicate());
                assert(vectors_view(kept@) =~= vectors_view(before).push(self.vectors@[i as int]@));
            }
            i += 1;
        }
        self.vectors = kept;
    }

    /// Shows every vector again.
    pub fn show_all_vectors(&mut self)
        ensures
            final(self)@ == Seq::<VectorModel>::empty(),
    {
        self.vectors = Vec::new();
        assert(self@ =~= Seq::<VectorModel>::empty());
    }

    /// Hides the given vectors, and no others.
    pub fn hide_all_vectors(&mut self, vectors: Vec<Vector>)
        ensures
            final(self)@ == vectors_view(vectors@),
    {
        self.vectors = vectors;
    }

    /// Whether a vector is shown: whether it is not among the hidden ones.
    pub fn is_vector_visible(&self, vector: &Vector) -> (visible: bool)
        ensures
            visible == !self@.contains(vector@),
    {
        let mut i: usize = 0;
        while i < self.vectors.len()
            invariant
                i <= self.vectors.len(),
                forall|k: int| 0 <= k < i ==> self@[k] != vector@,
            decreases self.vectors.len() - i,
        {
            if self.vectors[i].same(vector) {
                assert(self@[i as int] == vector@);
                return false;
            }
            i += 1;
        }
        true
    }
}

/// The visibility that an event gives to a vector of the scene; none where
/// the event leaves it as it is.
pub open spec fn visibility_after(event: VectorEvent, vector: VectorModel) -> Option<Visibility> {
    match event {
        VectorEvent::HideAllVectorsEvent => Some(Visibility::Hidden),
        VectorEvent::ShowAllVectorsEvent => Some(Visibility::Visible),
        VectorEvent::HideVectorEvent(v) => if v@ == vector {
            Some(Visibility::Hidden)
        } else {
            None
        },
        VectorEvent::ShowVectorEvent(v) => if v@ == vector {
            Some(Visibility::Visible)
        } else {
            None
        },
    }
}

/// Decides the visibility that an event gives to a vector of the scene.
pub fn vector_visibility_after(event: &VectorEvent, vector: &Vector) -> (visibility: Option<Visibility>)
    ensures
        visibility == visibility_after(*event, vector@),
{
    match event {
        VectorEvent::HideAllVectorsEvent => Some(Visibility::Hidden),
        VectorEvent::ShowAllVectorsEvent => Some(Visibility::Visible),
        VectorEvent::HideVectorEvent(v) => if v.same(vector) {
            Some(Visibility::Hidden)
        } else {
            None
        },
        VectorEvent::ShowVectorEvent(v) => if v.same(vector) {
            Some(Visibility::Visible)
        } else {
            None
        },
    }
}

/// The vector that an overlay of a point stands for; both its markers are
/// visible.
pub open spec fn vector_of(point: Seq<char>, overlay: (Seq<char>, Real)) -> VectorModel {
    VectorModel {
        origin: MarkerModel { label: point, visibility: Visibility::Visible },
        target: MarkerModel { label: overlay.0, visibility: Visibility::Visible },
        scale: overlay.1,
    }
}

/// The vectors of the first `n` overlays of a point.
pub open spec fn vectors_of_point_upto(point: Seq<char>, overlays: Overlays, n: int) -> Seq<VectorModel>
    decreases n,
{
    if n <= 0 {
        Seq::empty()
    } else {
        vectors_of_point_upto(point, overlays, n - 1).push(vector_of(point, overlays[n - 1]))
    }
}

/// The vectors of the first `n` points, one point after the other.
pub open spec fn planned_upto(vectors: Vectors, n: int) -> Seq<VectorModel>
    decreases n,
{
    if n <= 0 {
        Seq::empty()
    } else {
        planned_upto(vectors, n - 1) + vectors_of_point_upto(
            vectors[n - 1].0,
            vectors[n - 1].1,
            vectors[n - 1].1.len() as int,
        )
    }
}

/// The vectors of a configuration; none under a name that is no
/// configuration.
pub open spec fn planned_in(file: FileModel, config: Seq<char>) -> Seq<VectorModel> {
    match file.config(config) {
        Some(c) => match c.vectors {
            Some(vectors) => planned_upto(vectors, vectors.len() as int),
            None => Seq::empty(),
        },
        None => Seq::empty(),
    }
}

/// Plans the vectors of a configuration: one for every overlay of every
/// point, in the order of the points and of their overlays.
pub fn spawn_vectors_in_config(current_config: &str, config_file: &ConfigFile) -> (vectors: Vec<Vector>)
    ensures
        vectors_view(vectors@) == planned_in(config_file@, current_config@),
{
    let mut planned: Vec<Vector> = Vec::new();
    assert(vectors_view(planned@) =~= Seq::empty());
    match config_file.get_config(current_config) {
        Some(config) => match config.get_vectors() {
            Some(vectors) => {
                let mut n: usize = 0;
                while n < vectors.len()
                    invariant
                        n <= vectors@.len(),
                        vectors_view(planned@) == planned_upto(vectors_of(vectors@), n as int),
                    decreases vectors@.len() - n,
                {
                    let point = vectors.key_at(n);
                    let overlays = vectors.value_at(n);
                    let ghost before = vectors_view(planned@);
                    assert(vectors_of(vectors@)[n as int] == (point@, overlays_of(overlays@)));
                    let mut i: usize = 0;
                    assert(before + vectors_of_point_upto(point@, overlays_of(overlays@), 0) =~= before);
                    while i < overlays.len()
                        invariant
                            i <= overlays.len(),
                            vectors_view(planned@) == before + vectors_of_point_upto(
                                point@,
                                overlays_of(overlays@),
                                i as int,
                            ),
                        decreases overlays.len() - i,
                    {
                        let vector = Vector(
                            Marker(point.clone(), Visibility::Visible),
                            Marker(overlays[i].0.clone(), Visibility::Visible),
                            overlays[i].1,
                        );
                        let ghost earlier = vectors_view(planned@);
                        assert(vector@ == vector_of(point@, overlays_of(overlays@)[i as int]));
                        planned.push(vector);
                        assert(vectors_view(planned@) =~= earlier.push(vector@));
                        assert(vectors_view(planned@) =~= before + vectors_of_point_upto(
                            point@,
                            overlays_of(overlays@),
                            i + 1,
                        ));
                        i += 1;
                    }
                    n += 1;
                }
            },
            None => {},
        },
        None => {},
    }
    planned
}

} // verus!
