use vstd::prelude::*;
use crate::assoc::{Dict, value_of};
use crate::config::{
    Config, PointGroupConfig, clone_overlays, joins_of, labels_of, lemma_vectors_value,
    lemma_vectors_with_entry, optional, optional_joins, optional_labels, optional_vectors,
    overlays_of, vectors_of,
};
use crate::document::{Node, Tree, lookup, entries_of, trees_of};
use crate::grammar::{
    Family, added_upto, all_integers, color_of, config_of, expanded, expanded_upto, family_of,
    group_reference, groups_of, groups_upto, joins_in, joins_upto, low_byte, members_upto,
    number_of, orientation_of, overlay_additions, overlays_at, override_of, owners_of, real_of,
    scaled, shape_for, shape_name, shape_of, shape_with, texts_of, texts_upto, vectors_in,
    vectors_upto, visible_of, visible_upto, with_join,
};
use crate::models::{groups_model, lemma_groups_value, lemma_groups_with_entry};
use crate::number::{
    HALF_BITS, Number, ONE_BITS, QUARTER_BITS, Real, THREE_QUARTERS_BITS, ZERO_BITS,
};
use crate::shape::{JoinShape, orientation_view};
use crate::text::{str_equal, to_lowercase};

verus! {

/// The tree of an optional node.
pub open spec fn tree_of(value: Option<&Node>) -> Option<Tree> {
    match value {
        Some(n) => Some(n@),
        None => None,
    }
}

/// The texts among the items of a list, in their order.
pub fn texts_in(items: &Vec<Node>) -> (texts: Vec<String>)
    ensures
        labels_of(texts@) == texts_of(trees_of(items@)),
{
    let mut texts: Vec<String> = Vec::new();
    let mut i: usize = 0;
    while i < items.len()
        invariant
            i <= items.len(),
            labels_of(texts@) == texts_upto(trees_of(items@), i as int),
        decreases items.len() - i,
    {
        assert(trees_of(items@)[i as int] == items@[i as int]@);
        match &items[i] {
            Node::Text(s) => {
                let ghost before = texts@;
                texts.push(s.clone());
                assert(labels_of(texts@) =~= labels_of(before).push(s@));
            },
            _ => {},
        }
        i += 1;
    }
    texts
}

/// Reads a colour: a list of three or four integers, each cut to its low
/// byte.
pub fn parse_color(value: Option<&Node>) -> (color: Option<Vec<u8>>)
    ensures
        optional(color) == color_of(tree_of(value)),
{
    match value {
        Some(Node::List(items)) => {
            if items.len() != 3 && items.len() != 4 {
                return None;
            }
            let mut bytes: Vec<u8> = Vec::new();
            let mut i: usize = 0;
            while i < items.len()
                invariant
                    i <= items.len(),
                    items.len() == 3 || items.len() == 4,
                    tree_of(value) == Some(Tree::List(trees_of(items@))),
                    bytes@.len() == i,
                    forall|k: int| 0 <= k < i ==> trees_of(items@)[k] is Integer,
                    forall|k: int| 0 <= k < i ==> bytes@[k] == low_byte(trees_of(items@)[k]->Integer_0),
                decreases items.len() - i,
            {
                assert(trees_of(items@)[i as int] == items@[i as int]@);
                match &items[i] {
                    Node::Integer(v) => {
                        let v: i64 = *v;
                        let byte: u8 = #[verifier::truncate] (v as u8);
                        assert(byte == low_byte(v)) by {
                            assert(v as u8 == ((v as int) % 256) as u8) by (bit_vector);
                        }
                        bytes.push(byte);
                    },
                    _ => {
                        assert(!(trees_of(items@)[i as int] is Integer));
                        return None;
                    },
                }
                i += 1;
            }
            assert(all_integers(trees_of(items@)));
            assert(bytes@ =~= Seq::new(
                trees_of(items@).len(),
                |k: int| low_byte(trees_of(items@)[k]->Integer_0),
            ));
            Some(bytes)
        },
        _ => None,
    }
}

/// Reads a real number; an integer is none.
pub fn parse_real(value: Option<&Node>) -> (parsed: Option<Real>)
    ensures
        parsed == real_of(tree_of(value)),
{
    match value {
        Some(Node::Real(bits)) => Some(Real { bits: *bits }),
        _ => None,
    }
}

/// Reads a number, integer or real.
pub fn parse_number(value: Option<&Node>) -> (number: Option<Number>)
    ensures
        number == number_of(tree_of(value)),
{
    match value {
        Some(Node::Real(bits)) => Some(Number::Real(Real { bits: *bits })),
        Some(Node::Integer(i)) => Some(Number::Integer(*i)),
        _ => None,
    }
}

/// Reads the appearance that a group overrides out of its `config` table.
/// A field that is missing or malformed is left unset.
pub fn parse_point_group_config(table: &Vec<(String, Node)>) -> (config: PointGroupConfig)
    ensures
        config@ == override_of(entries_of(table@)),
{
    let point_color = parse_color(lookup(table, "point_color"));
    let join_color = parse_color(lookup(table, "join_color"));
    let line_thickness = parse_real(lookup(table, "line_thickness"));
    let point_size = parse_real(lookup(table, "point_size"));
    PointGroupConfig::new(point_color, join_color, line_thickness, point_size)
}

/// Reads the point groups of a document: the texts of each list in the
/// table under `point_groups`, under the list's key.
pub fn parse_groups(doc: &Vec<(String, Node)>) -> (groups: Dict<Vec<String>>)
    ensures
        groups_model(groups@) == groups_of(entries_of(doc@)),
{
    let mut groups: Dict<Vec<String>> = Dict::new();
    assert(groups_model(groups@) =~= Seq::empty());
    match lookup(doc, "point_groups") {
        Some(Node::Table(section)) => {
            let mut i: usize = 0;
            while i < section.len()
                invariant
                    i <= section.len(),
                    groups_model(groups@) == groups_upto(entries_of(section@), i as int),
                            decreases section.len() - i,
            {
                assert(entries_of(section@)[i as int] == (section@[i as int].0@, section@[i as int].1@));
                match &section[i].1 {
                    Node::List(items) => {
                        let labels = texts_in(items);
                        proof {
                            lemma_groups_with_entry(groups@, section@[i as int].0@, labels);
                        }
                        groups.insert(section[i].0.clone(), labels);
                    },
                    _ => {},
                }
                i += 1;
            }
        },
        _ => {},
    }
    groups
}

/// The labels of the group that a reference names: the reference is a list
/// of one text.
pub fn resolve_reference<'a>(item: &Node, groups: &'a Dict<Vec<String>>) -> (labels: Option<&'a Vec<String>>)
    ensures
        match labels {
            Some(l) => group_reference(item@, groups_model(groups@)) == Some(labels_of(l@)),
            None => group_reference(item@, groups_model(groups@)) is None,
        },
{
    match item {
        Node::List(r) => {
            if r.len() == 1 {
                assert(trees_of(r@)[0] == r@[0]@);
                match &r[0] {
                    Node::Text(name) => {
                        proof {
                            lemma_groups_value(groups@, name@);
                        }
                        let found = groups.get(name.as_str());
                        assert(item@ == Tree::List(trees_of(r@)));
                        assert(trees_of(r@).len() == 1);
                        assert(trees_of(r@)[0] == Tree::Text(name@));
                        assert(group_reference(item@, groups_model(groups@)) == value_of(
                            groups_model(groups@),
                            name@,
                        ));
                        found
                    },
                    _ => None,
                }
            } else {
                None
            }
        },
        _ => None,
    }
}

/// Adds the labels of `more`, in their order, behind those of `labels`.
pub fn extend_labels(labels: &mut Vec<String>, more: &Vec<String>)
    ensures
        final(labels)@ == old(labels)@ + more@,
{
    let mut i: usize = 0;
    while i < more.len()
        invariant
            i <= more.len(),
            labels@ == old(labels)@ + more@.subrange(0, i as int),
        decreases more.len() - i,
    {
        labels.push(more[i].clone());
        assert(labels@ =~= old(labels)@ + more@.subrange(0, i + 1));
        i += 1;
    }
    assert(more@.subrange(0, more@.len() as int) =~= more@);
}

/// Reads the visible points of a configuration: each text is a pattern, and
/// each reference to a group gives the labels of the group.
pub fn parse_visible_points(table: &Vec<(String, Node)>, groups: &Dict<Vec<String>>) -> (points: Option<
    Vec<String>,
>)
    ensures
        optional_labels(points) == visible_of(entries_of(table@), groups_model(groups@)),
{
    match lookup(table, "visible_points") {
        Some(Node::List(items)) => {
            let mut points: Option<Vec<String>> = None;
            let mut i: usize = 0;
            while i < items.len()
                invariant
                    i <= items.len(),
                    optional_labels(points) == visible_upto(trees_of(items@), groups_model(groups@), i as int),
                decreases items.len() - i,
            {
                assert(trees_of(items@)[i as int] == items@[i as int]@);
                let ghost before = optional_labels(points);
                match &items[i] {
                    Node::Text(s) => {
                        let mut list = match points {
                            Some(list) => list,
                            None => Vec::new(),
                        };
                        let ghost old_list = list@;
                        list.push(s.clone());
                        assert(labels_of(list@) =~= labels_of(old_list).push(s@));
                        proof {
                            if before is None {
                                assert(labels_of(old_list).push(s@) =~= seq![s@]);
                            }
                        }
                        points = Some(list);
                    },
                    other => {
                        match resolve_reference(other, groups) {
                            Some(labels) => {
                                let mut list = match points {
                                    Some(list) => list,
                                    None => Vec::new(),
                                };
                                let ghost old_list = list@;
                                extend_labels(&mut list, labels);
                                assert(labels_of(list@) =~= labels_of(old_list) + labels_of(labels@));
                                proof {
                                    if before is None {
                                        assert(labels_of(old_list) + labels_of(labels@) =~= labels_of(labels@));
                                    }
                                }
                                points = Some(list);
                            },
                            None => {},
                        }
                    },
                }
                i += 1;
            }
            points
        },
        _ => None,
    }
}

/// The points of a join: each text is a label, and each reference to a
/// group gives the labels of the group.
pub fn expand_points(items: &Vec<Node>, groups: &Dict<Vec<String>>) -> (points: Vec<String>)
    ensures
        labels_of(points@) == expanded(trees_of(items@), groups_model(groups@)),
{
    let mut points: Vec<String> = Vec::new();
    let mut i: usize = 0;
    while i < items.len()
        invariant
            i <= items.len(),
            labels_of(points@) == expanded_upto(trees_of(items@), groups_model(groups@), i as int),
        decreases items.len() - i,
    {
        assert(trees_of(items@)[i as int] == items@[i as int]@);
        let ghost before = points@;
        match &items[i] {
            Node::Text(s) => {
                points.push(s.clone());
                assert(labels_of(points@) =~= labels_of(before).push(s@));
            },
            other => {
                match resolve_reference(other, groups) {
                    Some(labels) => {
                        extend_labels(&mut points, labels);
                        assert(labels_of(points@) =~= labels_of(before) + labels_of(labels@));
                    },
                    None => {},
                }
            },
        }
        i += 1;
    }
    points
}

/// Gives every target the same scale.
pub fn scale_targets(targets: &Vec<String>, scale: Real) -> (overlays: Vec<(String, Real)>)
    ensures
        overlays_of(overlays@) == scaled(labels_of(targets@), scale),
{
    let mut overlays: Vec<(String, Real)> = Vec::new();
    let mut i: usize = 0;
    while i < targets.len()
        invariant
            i <= targets.len(),
            overlays@.len() == i,
            forall|k: int| 0 <= k < i ==> overlays@[k] == (targets@[k], scale),
        decreases targets.len() - i,
    {
        overlays.push((targets[i].clone(), scale));
        i += 1;
    }
    assert(overlays_of(overlays@) =~= scaled(labels_of(targets@), scale));
    overlays
}

/// Reads the overlays that one item of `vectors` adds to each of its
/// points.
pub fn parse_overlay_additions(pair: &Vec<Node>) -> (additions: Option<Vec<(String, Real)>>)
    ensures
        match additions {
            Some(a) => overlay_additions(trees_of(pair@)) == Some(overlays_of(a@)),
            None => overlay_additions(trees_of(pair@)) is None,
        },
{
    if pair.len() == 2 {
        assert(trees_of(pair@)[1] == pair@[1]@);
        match &pair[1] {
            Node::Text(name) => {
                let mut overlays: Vec<(String, Real)> = Vec::new();
                overlays.push((name.clone(), Real { bits: ONE_BITS }));
                assert(overlays_of(overlays@) =~= seq![(name@, Real { bits: ONE_BITS })]);
                Some(overlays)
            },
            Node::List(values) => {
                let targets = texts_in(values);
                Some(scale_targets(&targets, Real { bits: ONE_BITS }))
            },
            _ => None,
        }
    } else if pair.len() == 3 {
        assert(trees_of(pair@)[1] == pair@[1]@);
        assert(trees_of(pair@)[2] == pair@[2]@);
        match &pair[1] {
            Node::Text(name) => match &pair[2] {
                Node::Real(bits) => {
                    let mut overlays: Vec<(String, Real)> = Vec::new();
                    overlays.push((name.clone(), Real { bits: *bits }));
                    assert(overlays_of(overlays@) =~= seq![(name@, Real { bits: *bits })]);
                    Some(overlays)
                },
                _ => None,
            },
            Node::List(values) => {
                let scale = match &pair[2] {
                    Node::Real(bits) => Real { bits: *bits },
                    _ => Real { bits: ONE_BITS },
                };
                let targets = texts_in(values);
                Some(scale_targets(&targets, scale))
            },
            _ => None,
        }
    } else {
        None
    }
}

/// Reads the points that own the overlays of one item of `vectors`: the
/// point that a text names, or the members of the groups that a list names.
pub fn parse_owners(point: &Node, groups: &Dict<Vec<String>>) -> (owners: Vec<String>)
    ensures
        labels_of(owners@) == owners_of(point@, groups_model(groups@)),
{
    let mut owners: Vec<String> = Vec::new();
    match point {
        Node::Text(label) => {
            owners.push(label.clone());
            assert(labels_of(owners@) =~= seq![label@]);
        },
        Node::List(names) => {
            let mut i: usize = 0;
            assert(labels_of(owners@) =~= Seq::empty());
            while i < names.len()
                invariant
                    i <= names.len(),
                    labels_of(owners@) == members_upto(trees_of(names@), groups_model(groups@), i as int),
                decreases names.len() - i,
            {
                assert(trees_of(names@)[i as int] == names@[i as int]@);
                match &names[i] {
                    Node::Text(name) => {
                        proof {
                            lemma_groups_value(groups@, name@);
                        }
                        match groups.get(name.as_str()) {
                            Some(labels) => {
                                let ghost before = owners@;
                                extend_labels(&mut owners, labels);
                                assert(labels_of(owners@) =~= labels_of(before) + labels_of(labels@));
                            },
                            None => {},
                        }
                    },
                    _ => {},
                }
                i += 1;
            }
        },
        _ => {
            assert(labels_of(owners@) =~= Seq::empty());
        },
    }
    owners
}

/// Gives each of the owners the additions, behind the overlays that it
/// owned.
pub fn add_overlays(
    vectors: &mut Dict<Vec<(String, Real)>>,
    owners: &Vec<String>,
    additions: &Vec<(String, Real)>,
)
    ensures
        vectors_of(final(vectors)@) == added_upto(
            vectors_of(old(vectors)@),
            labels_of(owners@),
            overlays_of(additions@),
            owners@.len() as int,
        ),
{
    let mut i: usize = 0;
    while i < owners.len()
        invariant
            i <= owners.len(),
            vectors_of(vectors@) == added_upto(
                vectors_of(old(vectors)@),
                labels_of(owners@),
                overlays_of(additions@),
                i as int,
            ),
        decreases owners.len() - i,
    {
        proof {
            lemma_vectors_value(vectors@, owners@[i as int]@);
        }
        let mut overlays = match vectors.get(owners[i].as_str()) {
            Some(owned) => clone_overlays(owned),
            None => Vec::new(),
        };
        let ghost owned = overlays@;
        assert(overlays_of(owned) =~= overlays_at(vectors_of(vectors@), owners@[i as int]@));
        let mut k: usize = 0;
        while k < additions.len()
            invariant
                k <= additions.len(),
                overlays@ == owned + additions@.subrange(0, k as int),
            decreases additions.len() - k,
        {
            overlays.push((additions[k].0.clone(), additions[k].1));
            assert(overlays@ =~= owned + additions@.subrange(0, k + 1));
            k += 1;
        }
        assert(additions@.subrange(0, additions@.len() as int) =~= additions@);
        assert(overlays_of(overlays@) =~= overlays_of(owned) + overlays_of(additions@));
        proof {
            lemma_vectors_with_entry(vectors@, owners@[i as int]@, overlays);
        }
        vectors.insert(owners[i].clone(), overlays);
        i += 1;
    }
}

/// Reads the vector overlays of a configuration.
pub fn parse_vectors(table: &Vec<(String, Node)>, groups: &Dict<Vec<String>>) -> (vectors: Option<
    Dict<Vec<(String, Real)>>,
>)
    ensures
        match vectors {
            Some(v) => vectors_in(entries_of(table@), groups_model(groups@)) == Some(vectors_of(v@)),
            None => vectors_in(entries_of(table@), groups_model(groups@)) is None,
        },
{
    match lookup(table, "vectors") {
        Some(Node::List(items)) => {
            let mut vectors: Dict<Vec<(String, Real)>> = Dict::new();
            assert(vectors_of(vectors@) =~= Seq::empty());
            let mut i: usize = 0;
            while i < items.len()
                invariant
                    i <= items.len(),
                    vectors_of(vectors@) == vectors_upto(trees_of(items@), groups_model(groups@), i as int),
                decreases items.len() - i,
            {
                assert(trees_of(items@)[i as int] == items@[i as int]@);
                match &items[i] {
                    Node::List(pair) => {
                        if pair.len() == 2 || pair.len() == 3 {
                            assert(trees_of(pair@)[0] == pair@[0]@);
                            match parse_overlay_additions(pair) {
                                Some(additions) => {
                                    let owners = parse_owners(&pair[0], groups);
                                    add_overlays(&mut vectors, &owners, &additions);
                                },
                                None => {},
                            }
                        }
                    },
                    _ => {},
                }
                i += 1;
            }
            Some(vectors)
        },
        _ => None,
    }
}

/// The kind of shape that a name in lower case stands for.
pub fn family(name: &str) -> (kind: Family)
    ensures
        kind == family_of(name@),
{
    if str_equal(name, "line") {
        Family::Line
    } else if str_equal(name, "cylinder") || str_equal(name, "cilindro") {
        Family::Cylinder
    } else if str_equal(name, "cone") || str_equal(name, "cono") {
        Family::Cone
    } else if str_equal(name, "semicone") || str_equal(name, "semicono") || str_equal(name, "cone frustum")
        || str_equal(name, "cono truncado") || str_equal(name, "partial cone") || str_equal(
        name,
        "cono parcial",
    ) || str_equal(name, "truncated cone") {
        Family::SemiCone
    } else if str_equal(name, "prisma rectangular") || str_equal(name, "rectangular prism") || str_equal(
        name,
        "prisma",
    ) || str_equal(name, "prism") || str_equal(name, "paralelepipedo") || str_equal(
        name,
        "paralelep\u{ed}pedo",
    ) || str_equal(name, "parallelepiped") {
        Family::Prism
    } else {
        Family::Unknown
    }
}

/// Reads the overlays that orient a prism: the targets of the three
/// overlays of the point that `vector` names.
pub fn parse_orientation(value: Option<&Node>, vectors: &Dict<Vec<(String, Real)>>) -> (names: Option<
    [String; 3],
>)
    ensures
        orientation_view(names) == orientation_of(tree_of(value), vectors_of(vectors@)),
{
    match value {
        Some(Node::Text(point)) => {
            proof {
                lemma_vectors_value(vectors@, point@);
            }
            match vectors.get(point.as_str()) {
                Some(overlays) => {
                    if overlays.len() == 3 {
                        let names = [overlays[0].0.clone(), overlays[1].0.clone(), overlays[2].0.clone()];
                        assert(orientation_view(Some(names)) =~= orientation_of(
                            tree_of(value),
                            vectors_of(vectors@),
                        ));
                        Some(names)
                    } else {
                        None
                    }
                },
                None => None,
            }
        },
        _ => None,
    }
}

/// The shape of a kind, with the parameters that a table gives.
pub fn parse_shape_for(kind: Family, params: &Vec<(String, Node)>, vectors: &Dict<Vec<(String, Real)>>) -> (shape:
    JoinShape)
    ensures
        shape@ == shape_for(kind, entries_of(params@), vectors_of(vectors@)),
{
    match kind {
        Family::Line => JoinShape::Line,
        Family::Cylinder => match parse_number(lookup(params, "radius")) {
            Some(r) => JoinShape::Cylinder(r),
            None => JoinShape::Line,
        },
        Family::Cone => match parse_number(lookup(params, "radius")) {
            Some(r) => JoinShape::SemiCone(r, Number::Real(Real { bits: ZERO_BITS })),
            None => JoinShape::SemiCone(
                Number::Real(Real { bits: HALF_BITS }),
                Number::Real(Real { bits: ZERO_BITS }),
            ),
        },
        Family::SemiCone => {
            let first = parse_number(lookup(params, "radius1"));
            let second = parse_number(lookup(params, "radius2"));
            match (first, second) {
                (Some(a), Some(b)) => JoinShape::SemiCone(a, b),
                _ => JoinShape::Line,
            }
        },
        Family::Prism => {
            let width = parse_number(lookup(params, "width"));
            let height = parse_number(lookup(params, "height"));
            match (width, height) {
                (Some(w), Some(h)) => JoinShape::RectangularPrism(
                    w,
                    h,
                    parse_orientation(lookup(params, "vector"), vectors),
                ),
                _ => JoinShape::Line,
            }
        },
        Family::Unknown => JoinShape::SemiCone(
            Number::Real(Real { bits: THREE_QUARTERS_BITS }),
            Number::Real(Real { bits: QUARTER_BITS }),
        ),
    }
}

/// The shape that a descriptor gives, where `lowered` is the descriptor's
/// name in lower case.
pub fn parse_shape_with(descriptor: &Node, lowered: &str, vectors: &Dict<Vec<(String, Real)>>) -> (shape:
    JoinShape)
    ensures
        shape@ == shape_with(descriptor@, lowered@, vectors_of(vectors@)),
{
    match descriptor {
        Node::Text(_) => {
            let params: Vec<(String, Node)> = Vec::new();
            assert(entries_of(params@) =~= Seq::empty());
            parse_shape_for(family(lowered), &params, vectors)
        },
        Node::Table(params) => match lookup(params, "type") {
            Some(Node::Text(_)) => parse_shape_for(family(lowered), params, vectors),
            Some(_) => JoinShape::SemiCone(
                Number::Real(Real { bits: THREE_QUARTERS_BITS }),
                Number::Real(Real { bits: QUARTER_BITS }),
            ),
            None => JoinShape::Line,
        },
        _ => JoinShape::Line,
    }
}

/// The name of a shape descriptor: the text itself, or the text under
/// `type` in a table.
pub fn descriptor_name(descriptor: &Node) -> (name: Option<&String>)
    ensures
        match name {
            Some(s) => shape_name(descriptor@) == Some(s@),
            None => shape_name(descriptor@) is None,
        },
{
    match descriptor {
        Node::Text(s) => Some(s),
        Node::Table(params) => match lookup(params, "type") {
            Some(Node::Text(s)) => Some(s),
            _ => None,
        },
        _ => None,
    }
}

/// Reads the shape that a descriptor gives. Its name is matched in lower
/// case.
pub fn parse_shape(descriptor: &Node, vectors: &Dict<Vec<(String, Real)>>) -> (shape: JoinShape)
    ensures
        shape@ == shape_of(descriptor@, vectors_of(vectors@)),
{
    match descriptor_name(descriptor) {
        Some(name) => {
            let lowered = to_lowercase(name.as_str());
            parse_shape_with(descriptor, lowered.as_str(), vectors)
        },
        None => {
            let lowered = String::new();
            parse_shape_with(descriptor, lowered.as_str(), vectors)
        },
    }
}

/// Adds a join of the given shape through the points that the items give,
/// unless they give fewer than two.
pub fn generate_expanded_points(
    groups: &Dict<Vec<String>>,
    joins: &mut Option<Vec<(Vec<String>, JoinShape)>>,
    points: &Vec<Node>,
    join_shape: JoinShape,
)
    ensures
        optional_joins(*final(joins)) == with_join(
            optional_joins(*old(joins)),
            expanded(trees_of(points@), groups_model(groups@)),
            join_shape@,
        ),
{
    let expanded_points = expand_points(points, groups);
    if expanded_points.len() > 1 {
        let mut list = match joins.take() {
            Some(list) => list,
            None => Vec::new(),
        };
        let ghost before = list@;
        list.push((expanded_points, join_shape));
        assert(joins_of(list@) =~= joins_of(before).push((labels_of(expanded_points@), join_shape@)));
        proof {
            if *old(joins) is None {
                assert(joins_of(before).push((labels_of(expanded_points@), join_shape@)) =~= seq![
                    (labels_of(expanded_points@), join_shape@),
                ]);
            }
        }
        *joins = Some(list);
    }
}

/// Reads the joins of a configuration, where `vectors` are its vector
/// overlays.
pub fn parse_joins(
    table: &Vec<(String, Node)>,
    groups: &Dict<Vec<String>>,
    vectors: &Option<Dict<Vec<(String, Real)>>>,
) -> (joins: Option<Vec<(Vec<String>, JoinShape)>>)
    ensures
        optional_joins(joins) == joins_in(entries_of(table@), groups_model(groups@), optional_vectors(*vectors)),
{
    let none: Dict<Vec<(String, Real)>> = Dict::new();
    assert(vectors_of(none@) =~= Seq::empty());
    let overlays = match vectors {
        Some(v) => v,
        None => &none,
    };
    match lookup(table, "joins") {
        Some(Node::List(items)) => {
            let mut joins: Option<Vec<(Vec<String>, JoinShape)>> = None;
            let mut i: usize = 0;
            while i < items.len()
                invariant
                    i <= items.len(),
                    optional_joins(joins) == joins_upto(
                        trees_of(items@),
                        groups_model(groups@),
                        vectors_of(overlays@),
                        i as int,
                    ),
                decreases items.len() - i,
            {
                assert(trees_of(items@)[i as int] == items@[i as int]@);
                match &items[i] {
                    Node::List(points) => {
                        generate_expanded_points(groups, &mut joins, points, JoinShape::Line);
                    },
                    Node::Table(join) => {
                        let descriptor = lookup(join, "shape");
                        let points = lookup(join, "points");
                        match (descriptor, points) {
                            (Some(d), Some(Node::List(points))) => {
                                let shape = parse_shape(d, overlays);
                                generate_expanded_points(groups, &mut joins, points, shape);
                            },
                            _ => {},
                        }
                    },
                    _ => {},
                }
                i += 1;
            }
            joins
        },
        _ => None,
    }
}

/// Reads the configuration that a table describes.
pub fn parse_individual_config(table: &Vec<(String, Node)>, groups: &Dict<Vec<String>>) -> (config: Config)
    ensures
        config@ == config_of(entries_of(table@), groups_model(groups@)),
{
    let visible_points = parse_visible_points(table, groups);
    let vectors = parse_vectors(table, groups);
    let joins = parse_joins(table, groups, &vectors);
    let point_color = parse_color(lookup(table, "point_color"));
    let join_color = parse_color(lookup(table, "join_color"));
    let line_thickness = parse_real(lookup(table, "line_thickness"));
    let point_size = parse_real(lookup(table, "point_size"));
    Config::new(visible_points, joins, vectors, point_color, join_color, line_thickness, point_size)
}

} // verus!
