use vstd::prelude::*;
use crate::assoc::{position, value_of, with_entry};
use crate::config::{ConfigModel, OverrideModel, extended, pushed};
use crate::document::Tree;
use crate::number::{
    HALF_BITS, Number, ONE_BITS, QUARTER_BITS, Real, THREE_QUARTERS_BITS, ZERO_BITS,
};
use crate::shape::ShapeModel;
use crate::text::lowercase_of;

verus! {

/// The entries of a table.
pub type Entries = Seq<(Seq<char>, Tree)>;

/// A list of labels.
pub type Labels = Seq<Seq<char>>;

/// The point groups: the labels of each, under its name.
pub type Groups = Seq<(Seq<char>, Labels)>;

/// The vector overlays of one point: the target and the scale of each.
pub type Overlays = Seq<(Seq<char>, Real)>;

/// The vector overlays of every point that owns some.
pub type Vectors = Seq<(Seq<char>, Overlays)>;

/// The joins of a configuration.
pub type Joins = Seq<(Labels, ShapeModel)>;

/// The whole of what a document describes.
pub struct FileModel {
    /// The scene configurations, each under its name.
    pub configs: Seq<(Seq<char>, ConfigModel)>,
    /// The point groups.
    pub groups: Groups,
    /// The appearance that a group overrides, under the group's name.
    pub overrides: Seq<(Seq<char>, OverrideModel)>,
}

/// The texts among the first `n` items, in their order.
pub open spec fn texts_upto(items: Seq<Tree>, n: int) -> Labels
    decreases n,
{
    if n <= 0 {
        Seq::empty()
    } else {
        match items[n - 1] {
            Tree::Text(s) => texts_upto(items, n - 1).push(s),
            _ => texts_upto(items, n - 1),
        }
    }
}

/// The texts among the items, in their order.
pub open spec fn texts_of(items: Seq<Tree>) -> Labels {
    texts_upto(items, items.len() as int)
}

/// The groups after one more entry of the group section: a list gives a
/// group of the texts in it, under the entry's key; any other value gives
/// nothing.
pub open spec fn groups_step(groups: Groups, entry: (Seq<char>, Tree)) -> Groups {
    match entry.1 {
        Tree::List(items) => with_entry(groups, entry.0, texts_of(items)),
        _ => groups,
    }
}

/// The groups that the first `n` entries of the group section define.
pub open spec fn groups_upto(section: Entries, n: int) -> Groups
    decreases n,
{
    if n <= 0 {
        Seq::empty()
    } else {
        groups_step(groups_upto(section, n - 1), section[n - 1])
    }
}

/// The groups that a document defines: those of the table under its key
/// `point_groups`.
pub open spec fn groups_of(doc: Entries) -> Groups {
    match value_of(doc, "point_groups"@) {
        Some(Tree::Table(section)) => groups_upto(section, section.len() as int),
        _ => Seq::empty(),
    }
}

/// The labels that a reference to a group stands for: the reference is a
/// list of one text, which names a group.
pub open spec fn group_reference(item: Tree, groups: Groups) -> Option<Labels> {
    match item {
        Tree::List(r) => if r.len() == 1 {
            match r[0] {
                Tree::Text(name) => value_of(groups, name),
                _ => None,
            }
        } else {
            None
        },
        _ => None,
    }
}

/// The visible points after one more item: a text is a pattern of its own,
/// a reference to a group gives the group's labels, anything else gives
/// nothing.
pub open spec fn visible_step(points: Option<Labels>, item: Tree, groups: Groups) -> Option<Labels> {
    match item {
        Tree::Text(s) => pushed(points, s),
        _ => match group_reference(item, groups) {
            Some(labels) => extended(points, labels),
            None => points,
        },
    }
}

/// The visible points that the first `n` items give.
pub open spec fn visible_upto(items: Seq<Tree>, groups: Groups, n: int) -> Option<Labels>
    decreases n,
{
    if n <= 0 {
        None
    } else {
        visible_step(visible_upto(items, groups, n - 1), items[n - 1], groups)
    }
}

/// The visible points of a configuration.
pub open spec fn visible_of(table: Entries, groups: Groups) -> Option<Labels> {
    match value_of(table, "visible_points"@) {
        Some(Tree::List(items)) => visible_upto(items, groups, items.len() as int),
        _ => None,
    }
}

/// The points of a join after one more item of its point list.
pub open spec fn expanded_step(points: Labels, item: Tree, groups: Groups) -> Labels {
    match item {
        Tree::Text(s) => points.push(s),
        _ => match group_reference(item, groups) {
            Some(labels) => points + labels,
            None => points,
        },
    }
}

/// The points that the first `n` items of a join's point list give.
pub open spec fn expanded_upto(items: Seq<Tree>, groups: Groups, n: int) -> Labels
    decreases n,
{
    if n <= 0 {
        Seq::empty()
    } else {
        expanded_step(expanded_upto(items, groups, n - 1), items[n - 1], groups)
    }
}

/// The points of a join, every group reference replaced by the group's
/// labels.
pub open spec fn expanded(items: Seq<Tree>, groups: Groups) -> Labels {
    expanded_upto(items, groups, items.len() as int)
}

/// The low eight bits of an integer: its remainder modulo 256, which is
/// never negative.
pub open spec fn low_byte(i: i64) -> u8 {
    (i as int % 256) as u8
}

/// Every one of the items is an integer.
pub open spec fn all_integers(items: Seq<Tree>) -> bool {
    forall|i: int| 0 <= i < items.len() ==> items[i] is Integer
}

/// The colour that a value gives: a list of three or four integers gives
/// the low byte of each; anything else gives none.
pub open spec fn color_of(value: Option<Tree>) -> Option<Seq<u8>> {
    match value {
        Some(Tree::List(items)) => if (items.len() == 3 || items.len() == 4) && all_integers(items) {
            Some(Seq::new(items.len(), |i: int| low_byte(items[i]->Integer_0)))
        } else {
            None
        },
        _ => None,
    }
}

/// The real number that a value gives; an integer gives none.
pub open spec fn real_of(value: Option<Tree>) -> Option<Real> {
    match value {
        Some(Tree::Real(bits)) => Some(Real { bits }),
        _ => None,
    }
}

/// The number that a value gives, integer or real.
pub open spec fn number_of(value: Option<Tree>) -> Option<Number> {
    match value {
        Some(Tree::Real(bits)) => Some(Number::Real(Real { bits })),
        Some(Tree::Integer(i)) => Some(Number::Integer(i)),
        _ => None,
    }
}

/// The appearance that a group's `config` table overrides.
pub open spec fn override_of(table: Entries) -> OverrideModel {
    OverrideModel {
        point_color: color_of(value_of(table, "point_color"@)),
        join_color: color_of(value_of(table, "join_color"@)),
        line_thickness: real_of(value_of(table, "line_thickness"@)),
        point_size: real_of(value_of(table, "point_size"@)),
    }
}

/// Each label with the same scale.
pub open spec fn scaled(targets: Labels, scale: Real) -> Overlays {
    Seq::new(targets.len(), |i: int| (targets[i], scale))
}

/// The overlays that one item of `vectors` adds to each of its points. Of
/// two values the second is the target, a text, or the targets, the texts
/// of a list; the scale is one. Of three values the third is the scale: a
/// single target needs a real number there, a list of targets takes one
/// where it is none. Anything else adds nothing.
pub open spec fn overlay_additions(pair: Seq<Tree>) -> Option<Overlays> {
    if pair.len() == 2 {
        match pair[1] {
            Tree::Text(name) => Some(seq![(name, Real { bits: ONE_BITS })]),
            Tree::List(values) => Some(scaled(texts_of(values), Real { bits: ONE_BITS })),
            _ => None,
        }
    } else if pair.len() == 3 {
        match pair[1] {
            Tree::Text(name) => match pair[2] {
                Tree::Real(bits) => Some(seq![(name, Real { bits })]),
                _ => None,
            },
            Tree::List(values) => Some(
                scaled(
                    texts_of(values),
                    match pair[2] {
                        Tree::Real(bits) => Real { bits },
                        _ => Real { bits: ONE_BITS },
                    },
                ),
            ),
            _ => None,
        }
    } else {
        None
    }
}

/// The labels of the groups that the first `n` items name, one group after
/// the other. An item that names no group gives nothing.
pub open spec fn members_upto(names: Seq<Tree>, groups: Groups, n: int) -> Labels
    decreases n,
{
    if n <= 0 {
        Seq::empty()
    } else {
        match names[n - 1] {
            Tree::Text(name) => match value_of(groups, name) {
                Some(labels) => members_upto(names, groups, n - 1) + labels,
                None => members_upto(names, groups, n - 1),
            },
            _ => members_upto(names, groups, n - 1),
        }
    }
}

/// The points that own the overlays of one item of `vectors`: the point
/// that a text names, or the members of the groups that a list names.
pub open spec fn owners_of(point: Tree, groups: Groups) -> Labels {
    match point {
        Tree::Text(label) => seq![label],
        Tree::List(names) => members_upto(names, groups, names.len() as int),
        _ => Seq::empty(),
    }
}

/// The overlays that a point owns; none where it is not listed.
pub open spec fn overlays_at(vectors: Vectors, point: Seq<char>) -> Overlays {
    match value_of(vectors, point) {
        Some(overlays) => overlays,
        None => Seq::empty(),
    }
}

/// The vectors after the first `n` owners got the additions, each behind
/// what it owned.
pub open spec fn added_upto(vectors: Vectors, owners: Labels, additions: Overlays, n: int) -> Vectors
    decreases n,
{
    if n <= 0 {
        vectors
    } else {
        let before = added_upto(vectors, owners, additions, n - 1);
        with_entry(before, owners[n - 1], overlays_at(before, owners[n - 1]) + additions)
    }
}

/// The vectors after one more item of `vectors`.
pub open spec fn vectors_step(vectors: Vectors, item: Tree, groups: Groups) -> Vectors {
    match item {
        Tree::List(pair) => if pair.len() == 2 || pair.len() == 3 {
            match overlay_additions(pair) {
                Some(additions) => {
                    let owners = owners_of(pair[0], groups);
                    added_upto(vectors, owners, additions, owners.len() as int)
                },
                None => vectors,
            }
        } else {
            vectors
        },
        _ => vectors,
    }
}

/// The vectors that the first `n` items of `vectors` give.
pub open spec fn vectors_upto(items: Seq<Tree>, groups: Groups, n: int) -> Vectors
    decreases n,
{
    if n <= 0 {
        Seq::empty()
    } else {
        vectors_step(vectors_upto(items, groups, n - 1), items[n - 1], groups)
    }
}

/// The vector overlays of a configuration.
pub open spec fn vectors_in(table: Entries, groups: Groups) -> Option<Vectors> {
    match value_of(table, "vectors"@) {
        Some(Tree::List(items)) => Some(vectors_upto(items, groups, items.len() as int)),
        _ => None,
    }
}

/// The kinds of shape that a name can stand for.
#[derive(Clone, Copy, Debug, PartialEq, Eq, Structural)]
pub enum Family {
    Line,
    Cylinder,
    Cone,
    SemiCone,
    Prism,
    Unknown,
}

/// The kind of shape that a name in lower case stands for.
pub open spec fn family_of(name: Seq<char>) -> Family {
    if name == "line"@ {
        Family::Line
    } else if name == "cylinder"@ || name == "cilindro"@ {
        Family::Cylinder
    } else if name == "cone"@ || name == "cono"@ {
        Family::Cone
    } else if name == "semicone"@ || name == "semicono"@ || name == "cone frustum"@ || name
        == "cono truncado"@ || name == "partial cone"@ || name == "cono parcial"@ || name
        == "truncated cone"@ {
        Family::SemiCone
    } else if name == "prisma rectangular"@ || name == "rectangular prism"@ || name == "prisma"@ || name
        == "prism"@ || name == "paralelepipedo"@ || name == "paralelep\u{ed}pedo"@ || name
        == "parallelepiped"@ {
        Family::Prism
    } else {
        Family::Unknown
    }
}

/// The shape that stands in for a name of no known kind.
pub open spec fn fallback_shape() -> ShapeModel {
    ShapeModel::SemiCone(
        Number::Real(Real { bits: THREE_QUARTERS_BITS }),
        Number::Real(Real { bits: QUARTER_BITS }),
    )
}

/// The overlays that orient a prism: the targets of the three overlays of
/// the point that `vector` names, where it owns exactly three.
pub open spec fn orientation_of(value: Option<Tree>, vectors: Vectors) -> Option<Labels> {
    match value {
        Some(Tree::Text(point)) => match value_of(vectors, point) {
            Some(overlays) => if overlays.len() == 3 {
                Some(seq![overlays[0].0, overlays[1].0, overlays[2].0])
            } else {
                None
            },
            None => None,
        },
        _ => None,
    }
}

/// The shape of a kind, with the parameters that a table gives. A kind
/// whose parameters are missing falls back: a cylinder, a truncated cone
/// and a prism to a line, a cone to one of radius one half.
pub open spec fn shape_for(family: Family, params: Entries, vectors: Vectors) -> ShapeModel {
    match family {
        Family::Line => ShapeModel::Line,
        Family::Cylinder => match number_of(value_of(params, "radius"@)) {
            Some(r) => ShapeModel::Cylinder(r),
            None => ShapeModel::Line,
        },
        Family::Cone => match number_of(value_of(params, "radius"@)) {
            Some(r) => ShapeModel::SemiCone(r, Number::Real(Real { bits: ZERO_BITS })),
            None => ShapeModel::SemiCone(
                Number::Real(Real { bits: HALF_BITS }),
                Number::Real(Real { bits: ZERO_BITS }),
            ),
        },
        Family::SemiCone => match (
            number_of(value_of(params, "radius1"@)),
            number_of(value_of(params, "radius2"@)),
        ) {
            (Some(a), Some(b)) => ShapeModel::SemiCone(a, b),
            _ => ShapeModel::Line,
        },
        Family::Prism => match (number_of(value_of(params, "width"@)), number_of(value_of(params, "height"@))) {
            (Some(w), Some(h)) => ShapeModel::RectangularPrism(
                w,
                h,
                orientation_of(value_of(params, "vector"@), vectors),
            ),
            _ => ShapeModel::Line,
        },
        Family::Unknown => fallback_shape(),
    }
}

/// The shape that a descriptor gives, where `lowered` is the descriptor's
/// name in lower case. A text is a name without parameters. A table gives
/// the name under `type` and the parameters beside it; a `type` that is no
/// text gives the fallback shape. Anything else gives a line.
pub open spec fn shape_with(descriptor: Tree, lowered: Seq<char>, vectors: Vectors) -> ShapeModel {
    match descriptor {
        Tree::Text(_) => shape_for(family_of(lowered), Seq::empty(), vectors),
        Tree::Table(params) => match value_of(params, "type"@) {
            Some(Tree::Text(_)) => shape_for(family_of(lowered), params, vectors),
            Some(_) => fallback_shape(),
            None => ShapeModel::Line,
        },
        _ => ShapeModel::Line,
    }
}

/// The name of a shape descriptor: the text itself, or the text under
/// `type` in a table.
pub open spec fn shape_name(descriptor: Tree) -> Option<Seq<char>> {
    match descriptor {
        Tree::Text(s) => Some(s),
        Tree::Table(params) => match value_of(params, "type"@) {
            Some(Tree::Text(s)) => Some(s),
            _ => None,
        },
        _ => None,
    }
}

/// The joins with one more, unless it has fewer than two points.
pub open spec fn with_join(joins: Option<Joins>, points: Labels, shape: ShapeModel) -> Option<Joins> {
    if points.len() > 1 {
        pushed(joins, (points, shape))
    } else {
        joins
    }
}

/// The shape that a descriptor gives.
pub open spec fn shape_of(descriptor: Tree, vectors: Vectors) -> ShapeModel {
    match shape_name(descriptor) {
        Some(name) => shape_with(descriptor, lowercase_of(name), vectors),
        None => shape_with(descriptor, Seq::empty(), vectors),
    }
}

/// The joins after one more item of `joins`. A list is a line through its
/// points. A table is a join where it holds a `shape` and a list under
/// `points`. Anything else gives nothing.
pub open spec fn joins_step(joins: Option<Joins>, item: Tree, groups: Groups, vectors: Vectors) -> Option<Joins> {
    match item {
        Tree::List(points) => with_join(joins, expanded(points, groups), ShapeModel::Line),
        Tree::Table(join) => match (value_of(join, "shape"@), value_of(join, "points"@)) {
            (Some(descriptor), Some(Tree::List(points))) => with_join(
                joins,
                expanded(points, groups),
                shape_of(descriptor, vectors),
            ),
            _ => joins,
        },
        _ => joins,
    }
}

/// The joins that the first `n` items of `joins` give.
pub open spec fn joins_upto(items: Seq<Tree>, groups: Groups, vectors: Vectors, n: int) -> Option<Joins>
    decreases n,
{
    if n <= 0 {
        None
    } else {
        joins_step(joins_upto(items, groups, vectors, n - 1), items[n - 1], groups, vectors)
    }
}

/// The joins of a configuration, where `vectors` are its vector overlays.
pub open spec fn joins_in(table: Entries, groups: Groups, vectors: Option<Vectors>) -> Option<Joins> {
    match value_of(table, "joins"@) {
        Some(Tree::List(items)) => joins_upto(
            items,
            groups,
            match vectors {
                Some(v) => v,
                None => Seq::empty(),
            },
            items.len() as int,
        ),
        _ => None,
    }
}

/// The configuration that a table describes.
pub open spec fn config_of(table: Entries, groups: Groups) -> ConfigModel {
    ConfigModel {
        visible_points: visible_of(table, groups),
        joins: joins_in(table, groups, vectors_in(table, groups)),
        vectors: vectors_in(table, groups),
        point_color: color_of(value_of(table, "point_color"@)),
        join_color: color_of(value_of(table, "join_color"@)),
        line_thickness: real_of(value_of(table, "line_thickness"@)),
        point_size: real_of(value_of(table, "point_size"@)),
    }
}

/// The first of two optional values that is set.
pub open spec fn or_else<T>(first: Option<T>, second: Option<T>) -> Option<T> {
    match first {
        Some(_) => first,
        None => second,
    }
}

/// A configuration under an override: what the override sets replaces the
/// configuration's own, the rest stays.
pub open spec fn merged(base: ConfigModel, over: OverrideModel) -> ConfigModel {
    ConfigModel {
        point_color: or_else(over.point_color, base.point_color),
        join_color: or_else(over.join_color, base.join_color),
        line_thickness: or_else(over.line_thickness, base.line_thickness),
        point_size: or_else(over.point_size, base.point_size),
        ..base
    }
}

/// The sections after one more entry of the document. The group section
/// and every value that is no table give nothing. A table that holds a
/// table under `config` is the override of the group that the key names.
/// Every other table is the configuration that the key names.
pub open spec fn sections_step(file: FileModel, entry: (Seq<char>, Tree)) -> FileModel {
    if entry.0 == "point_groups"@ {
        file
    } else {
        match entry.1 {
            Tree::Table(table) => match value_of(table, "config"@) {
                Some(Tree::Table(over)) => FileModel {
                    overrides: with_entry(file.overrides, entry.0, override_of(over)),
                    ..file
                },
                _ => FileModel {
                    configs: with_entry(file.configs, entry.0, config_of(table, file.groups)),
                    ..file
                },
            },
            _ => file,
        }
    }
}

/// The sections that the first `n` entries of a document give, with the
/// groups of the whole document.
pub open spec fn sections_upto(doc: Entries, n: int) -> FileModel
    decreases n,
{
    if n <= 0 {
        FileModel { configs: Seq::empty(), groups: groups_of(doc), overrides: Seq::empty() }
    } else {
        sections_step(sections_upto(doc, n - 1), doc[n - 1])
    }
}

/// The configurations after the override met the first `n` labels of its
/// group: a configuration whose name is one of these labels is merged with
/// the override.
pub open spec fn applied_upto(
    configs: Seq<(Seq<char>, ConfigModel)>,
    labels: Labels,
    over: OverrideModel,
    n: int,
) -> Seq<(Seq<char>, ConfigModel)>
    decreases n,
{
    if n <= 0 {
        configs
    } else {
        let before = applied_upto(configs, labels, over, n - 1);
        match position(before, labels[n - 1]) {
            Some(i) => before.update(i, (before[i].0, merged(before[i].1, over))),
            None => before,
        }
    }
}

/// The configurations after the first `n` overrides were applied, each to
/// the labels of the group of its name.
pub open spec fn overridden_upto(file: FileModel, n: int) -> Seq<(Seq<char>, ConfigModel)>
    decreases n,
{
    if n <= 0 {
        file.configs
    } else {
        let before = overridden_upto(file, n - 1);
        match value_of(file.groups, file.overrides[n - 1].0) {
            Some(labels) => applied_upto(before, labels, file.overrides[n - 1].1, labels.len() as int),
            None => before,
        }
    }
}

/// What a document describes: its groups, its overrides, and its
/// configurations after the overrides were applied.
pub open spec fn file_of(doc: Entries) -> FileModel {
    let sections = sections_upto(doc, doc.len() as int);
    FileModel { configs: overridden_upto(sections, sections.overrides.len() as int), ..sections }
}

} // verus!
