use vstd::prelude::*;
use crate::assoc::{Dict, keyed, value_of};
use crate::grammar::merged;
use crate::pattern::{matches_pattern, pattern_matches};
use crate::text::str_equal;
use crate::number::Real;
use crate::shape::{JoinShape, ShapeModel};

verus! {

/// The mathematical value of a scene configuration.
pub struct ConfigModel {
    /// The patterns of the visible points, in the order in which they came.
    pub visible_points: Option<Seq<Seq<char>>>,
    /// The joins: the labels of the points of each, and its shape.
    pub joins: Option<Seq<(Seq<Seq<char>>, ShapeModel)>>,
    /// For each point that owns vector overlays, the target and the scale
    /// of each.
    pub vectors: Option<Seq<(Seq<char>, Seq<(Seq<char>, Real)>)>>,
    pub point_color: Option<Seq<u8>>,
    pub join_color: Option<Seq<u8>>,
    pub line_thickness: Option<Real>,
    pub point_size: Option<Real>,
}

/// The mathematical value of the appearance that a point group overrides.
pub struct OverrideModel {
    pub point_color: Option<Seq<u8>>,
    pub join_color: Option<Seq<u8>>,
    pub line_thickness: Option<Real>,
    pub point_size: Option<Real>,
}

/// The patterns among the first `n` that a label matches, in their order.
pub open spec fn matching_upto(patterns: Seq<Seq<char>>, label: Seq<char>, n: int) -> Seq<Seq<char>>
    decreases n,
{
    if n <= 0 {
        Seq::empty()
    } else if pattern_matches(patterns[n - 1], label) {
        matching_upto(patterns, label, n - 1).push(patterns[n - 1])
    } else {
        matching_upto(patterns, label, n - 1)
    }
}

impl ConfigModel {
    /// Whether a label is visible: it matches one of the patterns.
    pub open spec fn is_visible(self, label: Seq<char>) -> bool {
        match self.visible_points {
            Some(patterns) => exists|i: int| 0 <= i < patterns.len() && pattern_matches(patterns[i], label),
            None => false,
        }
    }

    /// The patterns that a label matches, in their order.
    pub open spec fn matching_patterns(self, label: Seq<char>) -> Seq<Seq<char>> {
        match self.visible_points {
            Some(patterns) => matching_upto(patterns, label, patterns.len() as int),
            None => Seq::empty(),
        }
    }

    /// Whether a label is one of the patterns, letter for letter.
    pub open spec fn lists(self, label: Seq<char>) -> bool {
        match self.visible_points {
            Some(patterns) => patterns.contains(label),
            None => false,
        }
    }
}

/// The characters of each label.
pub open spec fn labels_of(labels: Seq<String>) -> Seq<Seq<char>> {
    Seq::new(labels.len(), |i: int| labels[i]@)
}

/// The labels and the shape of each join.
pub open spec fn joins_of(joins: Seq<(Vec<String>, JoinShape)>) -> Seq<(Seq<Seq<char>>, ShapeModel)> {
    Seq::new(joins.len(), |i: int| (labels_of(joins[i].0@), joins[i].1@))
}

/// The target and the scale of each overlay.
pub open spec fn overlays_of(overlays: Seq<(String, Real)>) -> Seq<(Seq<char>, Real)> {
    Seq::new(overlays.len(), |i: int| (overlays[i].0@, overlays[i].1))
}

/// The overlays of each point.
pub open spec fn vectors_of(vectors: Seq<(Seq<char>, Vec<(String, Real)>)>) -> Seq<
    (Seq<char>, Seq<(Seq<char>, Real)>),
> {
    Seq::new(vectors.len(), |i: int| (vectors[i].0, overlays_of(vectors[i].1@)))
}

/// The items of an optional vector.
pub open spec fn optional<T>(v: Option<Vec<T>>) -> Option<Seq<T>> {
    match v {
        Some(v) => Some(v@),
        None => None,
    }
}

/// The labels of an optional vector of labels.
pub open spec fn optional_labels(v: Option<Vec<String>>) -> Option<Seq<Seq<char>>> {
    match v {
        Some(v) => Some(labels_of(v@)),
        None => None,
    }
}

/// The joins of an optional vector of joins.
pub open spec fn optional_joins(v: Option<Vec<(Vec<String>, JoinShape)>>) -> Option<
    Seq<(Seq<Seq<char>>, ShapeModel)>,
> {
    match v {
        Some(v) => Some(joins_of(v@)),
        None => None,
    }
}

/// The overlays of an optional list of vectors.
pub open spec fn optional_vectors(v: Option<Dict<Vec<(String, Real)>>>) -> Option<
    Seq<(Seq<char>, Seq<(Seq<char>, Real)>)>,
> {
    match v {
        Some(v) => Some(vectors_of(v@)),
        None => None,
    }
}

/// An optional sequence with one more item at its end.
pub open spec fn pushed<T>(items: Option<Seq<T>>, item: T) -> Option<Seq<T>> {
    match items {
        Some(s) => Some(s.push(item)),
        None => Some(seq![item]),
    }
}

/// An optional sequence with more items at its end.
pub open spec fn extended<T>(items: Option<Seq<T>>, more: Seq<T>) -> Option<Seq<T>> {
    match items {
        Some(s) => Some(s + more),
        None => Some(more),
    }
}

/// A copy of a vector of labels.
pub fn clone_labels(labels: &Vec<String>) -> (copy: Vec<String>)
    ensures
        copy@ == labels@,
{
    let mut copy: Vec<String> = Vec::new();
    let mut i: usize = 0;
    while i < labels.len()
        invariant
            i <= labels.len(),
            copy@ == labels@.subrange(0, i as int),
        decreases labels.len() - i,
    {
        copy.push(labels[i].clone());
        assert(copy@ =~= labels@.subrange(0, i + 1));
        i += 1;
    }
    assert(copy@ =~= labels@);
    copy
}

/// A copy of a vector of bytes.
pub fn clone_bytes(bytes: &Vec<u8>) -> (copy: Vec<u8>)
    ensures
        copy@ == bytes@,
{
    let mut copy: Vec<u8> = Vec::new();
    let mut i: usize = 0;
    while i < bytes.len()
        invariant
            i <= bytes.len(),
            copy@ == bytes@.subrange(0, i as int),
        decreases bytes.len() - i,
    {
        copy.push(bytes[i]);
        assert(copy@ =~= bytes@.subrange(0, i + 1));
        i += 1;
    }
    assert(copy@ =~= bytes@);
    copy
}

/// A copy of an optional colour.
pub fn clone_color(color: &Option<Vec<u8>>) -> (copy: Option<Vec<u8>>)
    ensures
        optional(copy) == optional(*color),
{
    match color {
        Some(bytes) => Some(clone_bytes(bytes)),
        None => None,
    }
}

/// The appearance that a point group gives to its points, in place of the
/// configuration's own.
#[derive(Debug)]
pub struct PointGroupConfig {
    point_color: Option<Vec<u8>>,
    join_color: Option<Vec<u8>>,
    line_thickness: Option<Real>,
    point_size: Option<Real>,
}

impl View for PointGroupConfig {
    type V = OverrideModel;

    closed spec fn view(&self) -> OverrideModel {
        OverrideModel {
            point_color: optional(self.point_color),
            join_color: optional(self.join_color),
            line_thickness: self.line_thickness,
            point_size: self.point_size,
        }
    }
}

impl PointGroupConfig {
    /// An override that sets nothing.
    pub fn default() -> (c: Self)
        ensures
            c@ == (OverrideModel { point_color: None, join_color: None, line_thickness: None, point_size: None }),
    {
        PointGroupConfig { point_color: None, join_color: None, line_thickness: None, point_size: None }
    }

    /// An override with the given attributes.
    pub fn new(
        point_color: Option<Vec<u8>>,
        join_color: Option<Vec<u8>>,
        line_thickness: Option<Real>,
        point_size: Option<Real>,
    ) -> (c: Self)
        ensures
            c@ == (OverrideModel {
                point_color: optional(point_color),
                join_color: optional(join_color),
                line_thickness,
                point_size,
            }),
    {
        PointGroupConfig { point_color, join_color, line_thickness, point_size }
    }

    /// The colour of the group's points.
    pub fn get_point_color(&self) -> (color: Option<&Vec<u8>>)
        ensures
            match color {
                Some(c) => self@.point_color == Some(c@),
                None => self@.point_color is None,
            },
    {
        self.point_color.as_ref()
    }

    /// The colour of the joins between the group's points.
    pub fn get_join_color(&self) -> (color: Option<&Vec<u8>>)
        ensures
            match color {
                Some(c) => self@.join_color == Some(c@),
                None => self@.join_color is None,
            },
    {
        self.join_color.as_ref()
    }

    /// The thickness of the lines between the group's points.
    pub fn get_line_thickness(&self) -> (thickness: Option<Real>)
        ensures
            thickness == self@.line_thickness,
    {
        self.line_thickness
    }

    /// The size of the group's points.
    pub fn get_point_size(&self) -> (size: Option<Real>)
        ensures
            size == self@.point_size,
    {
        self.point_size
    }
}

/// One named scene: which points are visible, how they are joined, which
/// vector overlays they own, and the appearance of what no group overrides.
#[derive(Debug)]
pub struct Config {
    visible_points: Option<Vec<String>>,
    joins: Option<Vec<(Vec<String>, JoinShape)>>,
    vectors: Option<Dict<Vec<(String, Real)>>>,
    point_color: Option<Vec<u8>>,
    join_color: Option<Vec<u8>>,
    line_thickness: Option<Real>,
    point_size: Option<Real>,
}

impl View for Config {
    type V = ConfigModel;

    closed spec fn view(&self) -> ConfigModel {
        ConfigModel {
            visible_points: optional_labels(self.visible_points),
            joins: optional_joins(self.joins),
            vectors: optional_vectors(self.vectors),
            point_color: optional(self.point_color),
            join_color: optional(self.join_color),
            line_thickness: self.line_thickness,
            point_size: self.point_size,
        }
    }
}

/// The configuration that holds nothing.
pub open spec fn empty_config() -> ConfigModel {
    ConfigModel {
        visible_points: None,
        joins: None,
        vectors: None,
        point_color: None,
        join_color: None,
        line_thickness: None,
        point_size: None,
    }
}

impl Config {
    /// A configuration that holds nothing.
    pub fn default() -> (c: Self)
        ensures
            c@ == empty_config(),
    {
        Config {
            visible_points: None,
            joins: None,
            vectors: None,
            point_color: None,
            join_color: None,
            line_thickness: None,
            point_size: None,
        }
    }

    /// A configuration with the given parts.
    pub fn new(
        visible_points: Option<Vec<String>>,
        joins: Option<Vec<(Vec<String>, JoinShape)>>,
        vectors: Option<Dict<Vec<(String, Real)>>>,
        point_color: Option<Vec<u8>>,
        join_color: Option<Vec<u8>>,
        line_thickness: Option<Real>,
        point_size: Option<Real>,
    ) -> (c: Self)
        ensures
            c@ == (ConfigModel {
                visible_points: optional_labels(visible_points),
                joins: optional_joins(joins),
                vectors: optional_vectors(vectors),
                point_color: optional(point_color),
                join_color: optional(join_color),
                line_thickness,
                point_size,
            }),
    {
        Config { visible_points, joins, vectors, point_color, join_color, line_thickness, point_size }
    }

    /// The patterns of the visible points.
    pub fn get_visible_points(&self) -> (points: Option<&Vec<String>>)
        ensures
            match points {
                Some(p) => self@.visible_points == Some(labels_of(p@)),
                None => self@.visible_points is None,
            },
    {
        self.visible_points.as_ref()
    }

    /// The joins.
    pub fn get_joins(&self) -> (joins: Option<&Vec<(Vec<String>, JoinShape)>>)
        ensures
            match joins {
                Some(j) => self@.joins == Some(joins_of(j@)),
                None => self@.joins is None,
            },
    {
        self.joins.as_ref()
    }

    /// The vector overlays of every point.
    pub fn get_vectors(&self) -> (vectors: Option<&Dict<Vec<(String, Real)>>>)
        ensures
            match vectors {
                Some(v) => self@.vectors == Some(vectors_of(v@)),
                None => self@.vectors is None,
            },
    {
        self.vectors.as_ref()
    }

    /// The vector overlays of one point.
    pub fn get_vectors_for_point(&self, point: &str) -> (overlays: Option<&Vec<(String, Real)>>)
        ensures
            match overlays {
                Some(o) => self@.vectors is Some && value_of(self@.vectors->0, point@) == Some(overlays_of(o@)),
                None => self@.vectors is None || value_of(self@.vectors->0, point@) is None,
            },
    {
        match &self.vectors {
            Some(v) => {
                let found = v.get(point);
                proof {
                    lemma_vectors_value(v@, point@);
                }
                found
            },
            None => None,
        }
    }

    /// The colour of the points.
    pub fn get_point_color(&self) -> (color: Option<&Vec<u8>>)
        ensures
            match color {
                Some(c) => self@.point_color == Some(c@),
                None => self@.point_color is None,
            },
    {
        self.point_color.as_ref()
    }

    /// The colour of the joins.
    pub fn get_join_color(&self) -> (color: Option<&Vec<u8>>)
        ensures
            match color {
                Some(c) => self@.join_color == Some(c@),
                None => self@.join_color is None,
            },
    {
        self.join_color.as_ref()
    }

    /// The thickness of the lines.
    pub fn get_line_thickness(&self) -> (thickness: Option<Real>)
        ensures
            thickness == self@.line_thickness,
    {
        self.line_thickness
    }

    /// The size of the points.
    pub fn get_point_size(&self) -> (size: Option<Real>)
        ensures
            size == self@.point_size,
    {
        self.point_size
    }

    /// Adds one pattern to the visible points.
    pub fn add_visible_point(&mut self, point: String)
        ensures
            final(self)@ == (ConfigModel {
                visible_points: pushed(old(self)@.visible_points, point@),
                ..old(self)@
            }),
    {
        let mut points = match self.visible_points.take() {
            Some(points) => points,
            None => Vec::new(),
        };
        let ghost before = points@;
        points.push(point);
        assert(labels_of(points@) =~= labels_of(before).push(point@));
        proof {
            if old(self).visible_points is None {
                assert(labels_of(before).push(point@) =~= seq![point@]);
            }
        }
        self.visible_points = Some(points);
    }

    /// Adds the labels of a group to the visible points, each as a pattern.
    pub fn add_visible_point_group(&mut self, group: Vec<String>)
        ensures
            final(self)@ == (ConfigModel {
                visible_points: extended(old(self)@.visible_points, labels_of(group@)),
                ..old(self)@
            }),
    {
        match self.visible_points.take() {
            Some(mut points) => {
                let ghost before = points@;
                let mut i: usize = 0;
                while i < group.len()
                    invariant
                        i <= group.len(),
                        points@ == before + group@.subrange(0, i as int),
                    decreases group.len() - i,
                {
                    points.push(group[i].clone());
                    assert(points@ =~= before + group@.subrange(0, i + 1));
                    i += 1;
                }
                assert(group@.subrange(0, group@.len() as int) =~= group@);
                assert(labels_of(points@) =~= labels_of(before) + labels_of(group@));
                self.visible_points = Some(points);
            },
            None => {
                self.visible_points = Some(group);
            },
        }
    }

    /// Whether a label is one of the patterns, letter for letter.
    pub fn contains_point(&self, label: &str) -> (found: bool)
        ensures
            found == self@.lists(label@),
    {
        match &self.visible_points {
            Some(points) => contains_label(points, label),
            None => false,
        }
    }

    /// Whether a label is visible: whether it matches one of the patterns.
    pub fn contains_point_regex(&self, label: &str) -> (found: bool)
        ensures
            found == self@.is_visible(label@),
    {
        match &self.visible_points {
            Some(points) => {
                let mut i: usize = 0;
                while i < points.len()
                    invariant
                        i <= points.len(),
                        self@.visible_points == Some(labels_of(points@)),
                        forall|k: int| 0 <= k < i ==> !pattern_matches(labels_of(points@)[k], label@),
                    decreases points.len() - i,
                {
                    if matches_pattern(points[i].as_str(), label) {
                        let ghost patterns = self@.visible_points->0;
                        assert(patterns == labels_of(points@));
                        assert(0 <= i < patterns.len() && pattern_matches(patterns[i as int], label@));
                        return true;
                    }
                    i += 1;
                }
                false
            },
            None => false,
        }
    }

    /// The patterns that a label matches, in their order.
    pub fn get_all_points_that_match(&self, label: &str) -> (matching: Vec<String>)
        ensures
            labels_of(matching@) == self@.matching_patterns(label@),
    {
        let mut matching: Vec<String> = Vec::new();
        assert(labels_of(matching@) =~= Seq::empty());
        match &self.visible_points {
            Some(points) => {
                let mut i: usize = 0;
                while i < points.len()
                    invariant
                        i <= points.len(),
                        labels_of(matching@) == matching_upto(labels_of(points@), label@, i as int),
                    decreases points.len() - i,
                {
                    if matches_pattern(points[i].as_str(), label) {
                        let ghost before = matching@;
                        matching.push(points[i].clone());
                        assert(labels_of(matching@) =~= labels_of(before).push(points@[i as int]@));
                    }
                    i += 1;
                }
            },
            None => {},
        }
        matching
    }

    /// A copy of the configuration.
    pub fn duplicate(&self) -> (copy: Config)
        ensures
            copy@ == self@,
    {
        let visible_points = match &self.visible_points {
            Some(points) => Some(clone_labels(points)),
            None => None,
        };
        let joins = match &self.joins {
            Some(joins) => Some(clone_joins(joins)),
            None => None,
        };
        let vectors = match &self.vectors {
            Some(vectors) => Some(clone_vectors(vectors)),
            None => None,
        };
        Config {
            visible_points,
            joins,
            vectors,
            point_color: clone_color(&self.point_color),
            join_color: clone_color(&self.join_color),
            line_thickness: self.line_thickness,
            point_size: self.point_size,
        }
    }

    /// Whether two configurations have the same value.
    pub fn same(&self, other: &Config) -> (same: bool)
        ensures
            same == (self@ == other@),
    {
        let visible = match (&self.visible_points, &other.visible_points) {
            (Some(a), Some(b)) => same_labels(a, b),
            (None, None) => true,
            _ => false,
        };
        let joins = match (&self.joins, &other.joins) {
            (Some(a), Some(b)) => same_joins(a, b),
            (None, None) => true,
            _ => false,
        };
        let vectors = match (&self.vectors, &other.vectors) {
            (Some(a), Some(b)) => same_vectors(a, b),
            (None, None) => true,
            _ => false,
        };
        visible && joins && vectors && same_color(&self.point_color, &other.point_color) && same_color(
            &self.join_color,
            &other.join_color,
        ) && self.line_thickness == other.line_thickness && self.point_size == other.point_size
    }

    /// Puts the configuration under an override: what the override sets
    /// replaces the configuration's own.
    pub fn apply_override(&mut self, override_config: &PointGroupConfig)
        ensures
            final(self)@ == merged(old(self)@, override_config@),
    {
        match &override_config.point_color {
            Some(color) => {
                self.point_color = Some(clone_bytes(color));
            },
            None => {},
        }
        match &override_config.join_color {
            Some(color) => {
                self.join_color = Some(clone_bytes(color));
            },
            None => {},
        }
        match override_config.line_thickness {
            Some(thickness) => {
                self.line_thickness = Some(thickness);
            },
            None => {},
        }
        match override_config.point_size {
            Some(size) => {
                self.point_size = Some(size);
            },
            None => {},
        }
    }
}

/// A configuration under an override: what the override sets replaces the
/// configuration's own, the rest is kept.
pub fn merge_configs(base: &Config, override_config: &PointGroupConfig) -> (config: Config)
    ensures
        config@ == merged(base@, override_config@),
{
    let mut config = base.duplicate();
    config.apply_override(override_config);
    config
}

/// Whether a label is among the labels, letter for letter.
pub fn contains_label(labels: &Vec<String>, label: &str) -> (found: bool)
    ensures
        found == labels_of(labels@).contains(label@),
{
    let mut i: usize = 0;
    while i < labels.len()
        invariant
            i <= labels.len(),
            forall|k: int| 0 <= k < i ==> labels_of(labels@)[k] != label@,
        decreases labels.len() - i,
    {
        if str_equal(labels[i].as_str(), label) {
            assert(labels_of(labels@)[i as int] == label@);
            return true;
        }
        i += 1;
    }
    false
}

/// Whether two lists hold the same labels in the same order.
pub fn same_labels(a: &Vec<String>, b: &Vec<String>) -> (same: bool)
    ensures
        same == (labels_of(a@) == labels_of(b@)),
{
    if a.len() != b.len() {
        assert(labels_of(a@).len() != labels_of(b@).len());
        return false;
    }
    let mut i: usize = 0;
    while i < a.len()
        invariant
            i <= a.len(),
            a.len() == b.len(),
            forall|k: int| 0 <= k < i ==> labels_of(a@)[k] == labels_of(b@)[k],
        decreases a.len() - i,
    {
        if !str_equal(a[i].as_str(), b[i].as_str()) {
            assert(labels_of(a@)[i as int] != labels_of(b@)[i as int]);
            return false;
        }
        i += 1;
    }
    assert(labels_of(a@) =~= labels_of(b@));
    true
}

/// Whether two optional colours are the same.
pub fn same_color(a: &Option<Vec<u8>>, b: &Option<Vec<u8>>) -> (same: bool)
    ensures
        same == (optional(*a) == optional(*b)),
{
    match (a, b) {
        (Some(x), Some(y)) => {
            if x.len() != y.len() {
                return false;
            }
            let mut i: usize = 0;
            while i < x.len()
                invariant
                    i <= x.len(),
                    x.len() == y.len(),
                    optional(*a) == Some(x@),
                    optional(*b) == Some(y@),
                    forall|k: int| 0 <= k < i ==> x@[k] == y@[k],
                decreases x.len() - i,
            {
                if x[i] != y[i] {
                    assert(x@[i as int] != y@[i as int]);
                    return false;
                }
                i += 1;
            }
            assert(x@ =~= y@);
            true
        },
        (None, None) => true,
        _ => false,
    }
}

/// Whether two lists hold the same joins in the same order.
pub fn same_joins(a: &Vec<(Vec<String>, JoinShape)>, b: &Vec<(Vec<String>, JoinShape)>) -> (same: bool)
    ensures
        same == (joins_of(a@) == joins_of(b@)),
{
    if a.len() != b.len() {
        assert(joins_of(a@).len() != joins_of(b@).len());
        return false;
    }
    let mut i: usize = 0;
    while i < a.len()
        invariant
            i <= a.len(),
            a.len() == b.len(),
            forall|k: int| 0 <= k < i ==> joins_of(a@)[k] == joins_of(b@)[k],
        decreases a.len() - i,
    {
        if !same_labels(&a[i].0, &b[i].0) || !a[i].1.same(&b[i].1) {
            assert(joins_of(a@)[i as int] != joins_of(b@)[i as int]);
            return false;
        }
        i += 1;
    }
    assert(joins_of(a@) =~= joins_of(b@));
    true
}

/// Whether two lists hold the same overlays in the same order.
pub fn same_overlays(a: &Vec<(String, Real)>, b: &Vec<(String, Real)>) -> (same: bool)
    ensures
        same == (overlays_of(a@) == overlays_of(b@)),
{
    if a.len() != b.len() {
        assert(overlays_of(a@).len() != overlays_of(b@).len());
        return false;
    }
    let mut i: usize = 0;
    while i < a.len()
        invariant
            i <= a.len(),
            a.len() == b.len(),
            forall|k: int| 0 <= k < i ==> overlays_of(a@)[k] == overlays_of(b@)[k],
        decreases a.len() - i,
    {
        if !str_equal(a[i].0.as_str(), b[i].0.as_str()) || a[i].1 != b[i].1 {
            assert(overlays_of(a@)[i as int] != overlays_of(b@)[i as int]);
            return false;
        }
        i += 1;
    }
    assert(overlays_of(a@) =~= overlays_of(b@));
    true
}

/// Whether two lists give the same points the same overlays, in the same
/// order.
pub fn same_vectors(a: &Dict<Vec<(String, Real)>>, b: &Dict<Vec<(String, Real)>>) -> (same: bool)
    ensures
        same == (vectors_of(a@) == vectors_of(b@)),
{
    if a.len() != b.len() {
        assert(vectors_of(a@).len() != vectors_of(b@).len());
        return false;
    }
    let mut i: usize = 0;
    while i < a.len()
        invariant
            i <= a@.len(),
            a@.len() == b@.len(),
            forall|k: int| 0 <= k < i ==> vectors_of(a@)[k] == vectors_of(b@)[k],
        decreases a@.len() - i,
    {
        if !str_equal(a.key_at(i).as_str(), b.key_at(i).as_str()) || !same_overlays(
            a.value_at(i),
            b.value_at(i),
        ) {
            assert(vectors_of(a@)[i as int] != vectors_of(b@)[i as int]);
            return false;
        }
        i += 1;
    }
    assert(vectors_of(a@) =~= vectors_of(b@));
    true
}

/// A copy of a list of joins.
pub fn clone_joins(joins: &Vec<(Vec<String>, JoinShape)>) -> (copy: Vec<(Vec<String>, JoinShape)>)
    ensures
        joins_of(copy@) == joins_of(joins@),
{
    let mut copy: Vec<(Vec<String>, JoinShape)> = Vec::new();
    let mut i: usize = 0;
    while i < joins.len()
        invariant
            i <= joins.len(),
            copy@.len() == i,
            forall|k: int| 0 <= k < i ==> copy@[k].0@ == joins@[k].0@ && copy@[k].1@ == joins@[k].1@,
        decreases joins.len() - i,
    {
        copy.push((clone_labels(&joins[i].0), joins[i].1.duplicate()));
        i += 1;
    }
    assert(joins_of(copy@) =~= joins_of(joins@));
    copy
}

/// A copy of the vector overlays of every point.
pub fn clone_vectors(vectors: &Dict<Vec<(String, Real)>>) -> (copy: Dict<Vec<(String, Real)>>)
    ensures
        vectors_of(copy@) == vectors_of(vectors@),
{
    let mut entries: Vec<(String, Vec<(String, Real)>)> = Vec::new();
    let mut i: usize = 0;
    while i < vectors.len()
        invariant
            i <= vectors@.len(),
            entries@.len() == i,
            forall|k: int| 0 <= k < i ==> entries@[k].0@ == vectors@[k].0 && entries@[k].1@ == vectors@[k].1@,
        decreases vectors@.len() - i,
    {
        entries.push((vectors.key_at(i).clone(), clone_overlays(vectors.value_at(i))));
        i += 1;
    }
    let n = vectors.len();
    assert(n == i);
    assert forall|a: int, b: int| 0 <= a < b < keyed(entries@).len() implies keyed(entries@)[a].0 != keyed(
        entries@,
    )[b].0 by {
        assert(keyed(entries@)[a].0 == vectors@[a].0);
        assert(keyed(entries@)[b].0 == vectors@[b].0);
    }
    let copy = Dict::from_entries(entries);
    assert(vectors_of(copy@) =~= vectors_of(vectors@));
    copy
}

/// The overlays that a point holds in the model are those that it holds
/// in the list.
pub proof fn lemma_vectors_value(vectors: Seq<(Seq<char>, Vec<(String, Real)>)>, point: Seq<char>)
    ensures
        value_of(vectors_of(vectors), point) == match value_of(vectors, point) {
            Some(o) => Some(overlays_of(o@)),
            None => None,
        },
{
    crate::assoc::lemma_same_keys_position(vectors, vectors_of(vectors), point);
    crate::assoc::lemma_position_from(vectors, point, 0);
}

/// Putting overlays under a point puts their value under the point in the
/// model.
pub proof fn lemma_vectors_with_entry(
    vectors: Seq<(Seq<char>, Vec<(String, Real)>)>,
    point: Seq<char>,
    overlays: Vec<(String, Real)>,
)
    ensures
        vectors_of(crate::assoc::with_entry(vectors, point, overlays)) == crate::assoc::with_entry(
            vectors_of(vectors),
            point,
            overlays_of(overlays@),
        ),
{
    crate::assoc::lemma_same_keys_position(vectors, vectors_of(vectors), point);
    crate::assoc::lemma_position_from(vectors, point, 0);
    assert(vectors_of(crate::assoc::with_entry(vectors, point, overlays)) =~= crate::assoc::with_entry(
        vectors_of(vectors),
        point,
        overlays_of(overlays@),
    ));
}

/// A copy of a list of overlays.
pub fn clone_overlays(overlays: &Vec<(String, Real)>) -> (copy: Vec<(String, Real)>)
    ensures
        copy@ == overlays@,
{
    let mut copy: Vec<(String, Real)> = Vec::new();
    let mut i: usize = 0;
    while i < overlays.len()
        invariant
            i <= overlays.len(),
            copy@ == overlays@.subrange(0, i as int),
        decreases overlays.len() - i,
    {
        copy.push((overlays[i].0.clone(), overlays[i].1));
        assert(copy@ =~= overlays@.subrange(0, i + 1));
        i += 1;
    }
    assert(copy@ =~= overlays@);
    copy
}

} // verus!
