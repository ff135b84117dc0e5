use vstd::prelude::*;
use crate::assoc::{
    distinct_keys, lemma_position_from, lemma_with_entry_distinct, lemma_with_entry_value, position,
    same_keys, value_of,
};
use crate::config::{ConfigModel, OverrideModel, pushed};
use crate::config_file::{ConfigFile, reads};
use crate::document::Tree;
use crate::grammar::{
    Entries, Family, FileModel, Groups, Joins, Labels, Vectors, applied_upto, config_of, expanded,
    fallback_shape, family_of, file_of, group_reference, groups_of, groups_upto, joins_in,
    joins_step, joins_upto, overridden_upto, sections_upto, shape_name, shape_of, visible_of,
    visible_upto,
};
use crate::resolve::{
    group_join_color_from, group_line_thickness_from, group_point_color_from, override_for,
};
use crate::text::lowercase_of;
use crate::toml_source::ConfigParseError;

verus! {

/// Reading is a function of the text: two readings of one text both fail,
/// or both succeed with files of the same value.
pub proof fn lemma_reading_is_repeatable(
    text: Seq<char>,
    first: Result<ConfigFile, ConfigParseError>,
    second: Result<ConfigFile, ConfigParseError>,
)
    requires
        reads(text, first),
        reads(text, second),
    ensures
        first is Ok <==> second is Ok,
        first is Ok ==> first->Ok_0@ == second->Ok_0@,
{
}

/// An item of `joins` whose points, after the groups were put in for their
/// references, are fewer than two adds no join.
pub proof fn lemma_degenerate_join_is_dropped(
    joins: Option<Joins>,
    item: Tree,
    groups: Groups,
    vectors: Vectors,
)
    requires
        match item {
            Tree::List(points) => expanded(points, groups).len() < 2,
            Tree::Table(join) => match value_of(join, "points"@) {
                Some(Tree::List(points)) => expanded(points, groups).len() < 2,
                _ => true,
            },
            _ => true,
        },
    ensures
        joins_step(joins, item, groups, vectors) == joins,
{
}

/// Every join has at least two points.
pub open spec fn well_joined(joins: Option<Joins>) -> bool {
    match joins {
        Some(list) => forall|i: int| 0 <= i < list.len() ==> (#[trigger] list[i]).0.len() >= 2,
        None => true,
    }
}

/// The joins that the first `n` items give have at least two points each.
pub proof fn lemma_joins_upto_well_joined(items: Seq<Tree>, groups: Groups, vectors: Vectors, n: int)
    requires
        0 <= n <= items.len(),
    ensures
        well_joined(joins_upto(items, groups, vectors, n)),
    decreases n,
{
    if n > 0 {
        lemma_joins_upto_well_joined(items, groups, vectors, n - 1);
        let before = joins_upto(items, groups, vectors, n - 1);
        let after = joins_upto(items, groups, vectors, n);
        if after != before {
            let last = after->0.last();
            assert(last.0.len() >= 2);
            match before {
                Some(list) => {
                    assert(after->0 == list.push(last));
                },
                None => {
                    assert(after->0 == seq![last]);
                },
            }
        }
    }
}

/// Every join of a configuration has at least two points.
pub proof fn lemma_joins_have_two_points(table: Entries, groups: Groups, vectors: Option<Vectors>)
    ensures
        well_joined(joins_in(table, groups, vectors)),
{
    match value_of(table, "joins"@) {
        Some(Tree::List(items)) => {
            lemma_joins_upto_well_joined(
                items,
                groups,
                match vectors {
                    Some(v) => v,
                    None => Seq::empty(),
                },
                items.len() as int,
            );
        },
        _ => {},
    }
}

/// A shape whose name is of no known kind is the fallback shape, a
/// truncated cone.
pub proof fn lemma_unknown_name_gives_fallback(descriptor: Tree, vectors: Vectors)
    requires
        shape_name(descriptor) is Some,
        family_of(lowercase_of(shape_name(descriptor)->0)) == Family::Unknown,
    ensures
        shape_of(descriptor, vectors) == fallback_shape(),
        shape_of(descriptor, vectors) is SemiCone,
{
}

/// A join whose shape has a name of no known kind is kept, with the
/// fallback shape, where it has two points or more.
pub proof fn lemma_unknown_shape_keeps_join(
    joins: Option<Joins>,
    join: Entries,
    points: Seq<Tree>,
    groups: Groups,
    vectors: Vectors,
)
    requires
        value_of(join, "points"@) == Some(Tree::List(points)),
        expanded(points, groups).len() >= 2,
        value_of(join, "shape"@) is Some,
        shape_name(value_of(join, "shape"@)->0) is Some,
        family_of(lowercase_of(shape_name(value_of(join, "shape"@)->0)->0)) == Family::Unknown,
    ensures
        joins_step(joins, Tree::Table(join), groups, vectors) == pushed(
            joins,
            (expanded(points, groups), fallback_shape()),
        ),
{
    lemma_unknown_name_gives_fallback(value_of(join, "shape"@)->0, vectors);
}

/// The group at `g` is the first that overrides the colour of a point.
pub open spec fn first_point_color(file: FileModel, label: Seq<char>, g: int, color: Seq<u8>) -> bool {
    &&& 0 <= g < file.groups.len()
    &&& override_for(file, g, label, label) is Some
    &&& override_for(file, g, label, label)->0.point_color == Some(color)
    &&& forall|k: int|
        0 <= k < g ==> !(#[trigger] override_for(file, k, label, label) is Some && override_for(
            file,
            k,
            label,
            label,
        )->0.point_color is Some)
}

/// The scan from `from` finds the colour of the first group that overrides
/// it.
pub proof fn lemma_point_color_scan(file: FileModel, label: Seq<char>, g: int, color: Seq<u8>, from: int)
    requires
        first_point_color(file, label, g, color),
        0 <= from <= g,
    ensures
        group_point_color_from(file, label, from) == Some(color),
    decreases g - from,
{
    if from < g {
        assert(!(override_for(file, from, label, label) is Some && override_for(
            file,
            from,
            label,
            label,
        )->0.point_color is Some));
        lemma_point_color_scan(file, label, g, color, from + 1);
    }
}

/// The colour that a group overrides comes before the configuration's own:
/// where a group holds a point and overrides its colour, and no group
/// before it does so, the point has that colour under every configuration
/// of the file, whatever colour the configuration gives.
pub proof fn lemma_group_color_comes_first(
    file: FileModel,
    label: Seq<char>,
    config: Seq<char>,
    g: int,
    color: Seq<u8>,
)
    requires
        file.config(config) is Some,
        first_point_color(file, label, g, color),
    ensures
        file.point_color(label, config) == Some(color),
{
    lemma_point_color_scan(file, label, g, color, 0);
}

/// Where only one group holds a point, and it overrides the colour, the
/// point has that colour under every configuration of the file.
pub proof fn lemma_only_group_color_wins(
    file: FileModel,
    label: Seq<char>,
    config: Seq<char>,
    g: int,
    color: Seq<u8>,
)
    requires
        file.config(config) is Some,
        0 <= g < file.groups.len(),
        file.groups[g].1.contains(label),
        forall|k: int| 0 <= k < file.groups.len() && k != g ==> !(#[trigger] file.groups[k]).1.contains(label),
        value_of(file.overrides, file.groups[g].0) is Some,
        value_of(file.overrides, file.groups[g].0)->0.point_color == Some(color),
    ensures
        file.point_color(label, config) == Some(color),
{
    assert forall|k: int| 0 <= k < g implies !(#[trigger] override_for(file, k, label, label) is Some
        && override_for(file, k, label, label)->0.point_color is Some) by {
        assert(!file.groups[k].1.contains(label));
    }
    lemma_group_color_comes_first(file, label, config, g, color);
}

/// Where no group overrides the colour of a point, the point has the
/// colour of the configuration.
pub proof fn lemma_no_override_gives_config_color(file: FileModel, label: Seq<char>, config: Seq<char>)
    requires
        forall|k: int|
            0 <= k < file.groups.len() ==> !(#[trigger] override_for(file, k, label, label) is Some
                && override_for(file, k, label, label)->0.point_color is Some),
    ensures
        file.point_color(label, config) == match file.config(config) {
            Some(c) => c.point_color,
            None => None,
        },
{
    lemma_no_point_color_from(file, label, 0);
}

/// The scan from `from` finds no colour where no group overrides it.
pub proof fn lemma_no_point_color_from(file: FileModel, label: Seq<char>, from: int)
    requires
        0 <= from,
        forall|k: int|
            0 <= k < file.groups.len() ==> !(#[trigger] override_for(file, k, label, label) is Some
                && override_for(file, k, label, label)->0.point_color is Some),
    ensures
        group_point_color_from(file, label, from) is None,
    decreases file.groups.len() - from,
{
    if from < file.groups.len() {
        assert(!(override_for(file, from, label, label) is Some && override_for(
            file,
            from,
            label,
            label,
        )->0.point_color is Some));
        lemma_no_point_color_from(file, label, from + 1);
    }
}

/// The order of the two points of a join does not matter to the override
/// that a group gives them.
pub proof fn lemma_override_is_symmetric(file: FileModel, i: int, first: Seq<char>, second: Seq<char>)
    ensures
        override_for(file, i, first, second) == override_for(file, i, second, first),
{
}

/// The order of the two points does not matter to the colour of their
/// join.
pub proof fn lemma_join_color_is_symmetric(
    file: FileModel,
    first: Seq<char>,
    second: Seq<char>,
    config: Seq<char>,
)
    ensures
        file.join_color(first, second, config) == file.join_color(second, first, config),
{
    lemma_join_color_scan_symmetric(file, first, second, 0);
}

/// The scan for a join colour gives the same for both orders of the points.
pub proof fn lemma_join_color_scan_symmetric(file: FileModel, first: Seq<char>, second: Seq<char>, from: int)
    requires
        0 <= from,
    ensures
        group_join_color_from(file, first, second, from) == group_join_color_from(file, second, first, from),
    decreases file.groups.len() - from,
{
    if from < file.groups.len() {
        lemma_join_color_scan_symmetric(file, first, second, from + 1);
    }
}

/// The order of the two points does not matter to the thickness of the
/// line between them.
pub proof fn lemma_line_thickness_is_symmetric(
    file: FileModel,
    first: Seq<char>,
    second: Seq<char>,
    config: Seq<char>,
)
    ensures
        file.line_thickness(first, second, config) == file.line_thickness(second, first, config),
{
    lemma_line_thickness_scan_symmetric(file, first, second, 0);
}

/// The scan for a line thickness gives the same for both orders of the
/// points.
pub proof fn lemma_line_thickness_scan_symmetric(
    file: FileModel,
    first: Seq<char>,
    second: Seq<char>,
    from: int,
)
    requires
        0 <= from,
    ensures
        group_line_thickness_from(file, first, second, from) == group_line_thickness_from(
            file,
            second,
            first,
            from,
        ),
    decreases file.groups.len() - from,
{
    if from < file.groups.len() {
        lemma_line_thickness_scan_symmetric(file, first, second, from + 1);
    }
}

/// Under a name that is no configuration every query is empty: nothing is
/// visible, no pattern matches, and no point or pair of points has a
/// colour, a size or a thickness, whatever the groups override.
pub proof fn lemma_unknown_configuration_is_empty(
    file: FileModel,
    label: Seq<char>,
    other: Seq<char>,
    config: Seq<char>,
)
    requires
        file.config(config) is None,
    ensures
        !file.is_visible(config, label),
        file.matching_patterns(config, label) == Seq::<Seq<char>>::empty(),
        file.point_color(label, config) is None,
        file.point_size(label, config) is None,
        file.join_color(label, other, config) is None,
        file.line_thickness(label, other, config) is None,
{
}

/// The pattern is a text of the list, or a label of one of the groups.
pub open spec fn text_or_member(pattern: Seq<char>, items: Seq<Tree>, groups: Groups) -> bool {
    ||| items.contains(Tree::Text(pattern))
    ||| exists|g: int| 0 <= g < groups.len() && (#[trigger] groups[g]).1.contains(pattern)
}

/// Every one of the patterns is a text of the list or a label of a group.
pub open spec fn all_text_or_member(patterns: Option<Labels>, items: Seq<Tree>, groups: Groups) -> bool {
    match patterns {
        Some(list) => forall|k: int| 0 <= k < list.len() ==> text_or_member(#[trigger] list[k], items, groups),
        None => true,
    }
}

/// The visible points that the first `n` items give hold no reference to a
/// group: each is a text of the list, or a label of a group.
pub proof fn lemma_visible_upto_holds_no_reference(items: Seq<Tree>, groups: Groups, n: int)
    requires
        0 <= n <= items.len(),
    ensures
        all_text_or_member(visible_upto(items, groups, n), items, groups),
    decreases n,
{
    if n > 0 {
        lemma_visible_upto_holds_no_reference(items, groups, n - 1);
        let before = visible_upto(items, groups, n - 1);
        let after = visible_upto(items, groups, n);
        let earlier: Labels = match before {
            Some(list) => list,
            None => Seq::empty(),
        };
        match items[n - 1] {
            Tree::Text(s) => {
                assert(after->0 =~= earlier.push(s));
                assert(items.contains(Tree::Text(s)));
                assert forall|k: int| 0 <= k < after->0.len() implies text_or_member(
                    #[trigger] after->0[k],
                    items,
                    groups,
                ) by {
                    if k < earlier.len() {
                        assert(after->0[k] == earlier[k]);
                    }
                }
            },
            _ => {
                match group_reference(items[n - 1], groups) {
                    Some(labels) => {
                        let name = items[n - 1]->List_0[0]->Text_0;
                        lemma_position_from(groups, name, 0);
                        let g = position(groups, name)->0;
                        assert(groups[g].1 == labels);
                        assert(after->0 =~= earlier + labels);
                        assert forall|k: int| 0 <= k < after->0.len() implies text_or_member(
                            #[trigger] after->0[k],
                            items,
                            groups,
                        ) by {
                            if k < earlier.len() {
                                assert(after->0[k] == earlier[k]);
                            } else {
                                assert(after->0[k] == labels[k - earlier.len()]);
                                assert(groups[g].1.contains(after->0[k]));
                            }
                        }
                    },
                    None => {},
                }
            },
        }
    }
}

/// The visible points of a configuration hold no reference to a group:
/// each pattern is a text of the `visible_points` list, or a label of a
/// group.
pub proof fn lemma_visible_points_hold_no_reference(table: Entries, groups: Groups)
    ensures
        match value_of(table, "visible_points"@) {
            Some(Tree::List(items)) => all_text_or_member(visible_of(table, groups), items, groups),
            _ => visible_of(table, groups) is None,
        },
{
    match value_of(table, "visible_points"@) {
        Some(Tree::List(items)) => {
            lemma_visible_upto_holds_no_reference(items, groups, items.len() as int);
        },
        _ => {},
    }
}

/// The groups that the first `n` entries define have distinct names.
pub proof fn lemma_groups_upto_distinct(section: Entries, n: int)
    requires
        0 <= n <= section.len(),
    ensures
        distinct_keys(groups_upto(section, n)),
    decreases n,
{
    if n > 0 {
        lemma_groups_upto_distinct(section, n - 1);
        match section[n - 1].1 {
            Tree::List(items) => {
                lemma_with_entry_distinct(
                    groups_upto(section, n - 1),
                    section[n - 1].0,
                    crate::grammar::texts_of(items),
                );
            },
            _ => {},
        }
    }
}

/// The sections that the first `n` entries give have distinct names, each
/// kind among its own.
pub proof fn lemma_sections_upto_distinct(doc: Entries, n: int)
    requires
        0 <= n <= doc.len(),
    ensures
        distinct_keys(sections_upto(doc, n).configs),
        distinct_keys(sections_upto(doc, n).overrides),
        sections_upto(doc, n).groups == groups_of(doc),
    decreases n,
{
    if n > 0 {
        lemma_sections_upto_distinct(doc, n - 1);
        let before = sections_upto(doc, n - 1);
        let entry = doc[n - 1];
        if entry.0 != "point_groups"@ {
            match entry.1 {
                Tree::Table(table) => match value_of(table, "config"@) {
                    Some(Tree::Table(over)) => {
                        lemma_with_entry_distinct(before.overrides, entry.0, crate::grammar::override_of(over));
                    },
                    _ => {
                        lemma_with_entry_distinct(
                            before.configs,
                            entry.0,
                            config_of(table, before.groups),
                        );
                    },
                },
                _ => {},
            }
        }
    }
}

/// Merging an override into configurations keeps their names and places.
pub proof fn lemma_applied_keeps_names(
    configs: Seq<(Seq<char>, ConfigModel)>,
    labels: Labels,
    over: OverrideModel,
    n: int,
)
    requires
        0 <= n <= labels.len(),
    ensures
        same_keys(configs, applied_upto(configs, labels, over, n)),
    decreases n,
{
    if n > 0 {
        lemma_applied_keeps_names(configs, labels, over, n - 1);
        let before = applied_upto(configs, labels, over, n - 1);
        lemma_position_from(before, labels[n - 1], 0);
    }
}

/// Applying the overrides keeps the names and places of the
/// configurations.
pub proof fn lemma_overridden_keeps_names(file: FileModel, n: int)
    requires
        0 <= n <= file.overrides.len(),
    ensures
        same_keys(file.configs, overridden_upto(file, n)),
    decreases n,
{
    if n > 0 {
        lemma_overridden_keeps_names(file, n - 1);
        let before = overridden_upto(file, n - 1);
        match value_of(file.groups, file.overrides[n - 1].0) {
            Some(labels) => {
                lemma_applied_keeps_names(before, labels, file.overrides[n - 1].1, labels.len() as int);
            },
            None => {},
        }
    }
}

/// In what a document describes, a name stands for one configuration, one
/// group and one override at most.
pub proof fn lemma_names_are_distinct(doc: Entries)
    ensures
        distinct_keys(file_of(doc).configs),
        distinct_keys(file_of(doc).groups),
        distinct_keys(file_of(doc).overrides),
{
    lemma_sections_upto_distinct(doc, doc.len() as int);
    let sections = sections_upto(doc, doc.len() as int);
    lemma_overridden_keeps_names(sections, sections.overrides.len() as int);
    let configs = file_of(doc).configs;
    assert forall|i: int, j: int| 0 <= i < j < configs.len() implies configs[i].0 != configs[j].0 by {
        assert(configs[i].0 == sections.configs[i].0);
        assert(configs[j].0 == sections.configs[j].0);
    }
    match value_of(doc, "point_groups"@) {
        Some(Tree::Table(section)) => {
            lemma_groups_upto_distinct(section, section.len() as int);
        },
        _ => {},
    }
}

/// Whether the entry at `i` of a document describes a configuration: it is
/// a table without a table under `config`, and its key is not that of the
/// group section.
pub open spec fn describes_configuration(doc: Entries, i: int) -> bool {
    &&& 0 <= i < doc.len()
    &&& doc[i].0 != "point_groups"@
    &&& doc[i].1 is Table
    &&& !(value_of(doc[i].1->Table_0, "config"@) matches Some(Tree::Table(_)))
}

/// Once the entry at `i` was read, the sections hold under its key the
/// configuration that its table describes, with the groups of the whole
/// document.
pub proof fn lemma_sections_hold_configuration(doc: Entries, i: int, n: int)
    requires
        distinct_keys(doc),
        describes_configuration(doc, i),
        i < n <= doc.len(),
    ensures
        value_of(sections_upto(doc, n).configs, doc[i].0) == Some(
            config_of(doc[i].1->Table_0, groups_of(doc)),
        ),
    decreases n,
{
    lemma_sections_upto_distinct(doc, n - 1);
    let before = sections_upto(doc, n - 1);
    let entry = doc[n - 1];
    if n - 1 == i {
        lemma_with_entry_value(before.configs, entry.0, config_of(entry.1->Table_0, before.groups), entry.0);
    } else {
        lemma_sections_hold_configuration(doc, i, n - 1);
        assert(entry.0 != doc[i].0);
        if entry.0 != "point_groups"@ {
            match entry.1 {
                Tree::Table(table) => match value_of(table, "config"@) {
                    Some(Tree::Table(over)) => {},
                    _ => {
                        lemma_with_entry_value(
                            before.configs,
                            entry.0,
                            config_of(table, before.groups),
                            doc[i].0,
                        );
                    },
                },
                _ => {},
            }
        }
    }
}

/// A configuration may name a group that the document defines behind it:
/// before the overrides are merged in, every configuration is read with the
/// groups of the whole document, wherever the group section stands.
pub proof fn lemma_configuration_sees_every_group(doc: Entries, i: int)
    requires
        distinct_keys(doc),
        describes_configuration(doc, i),
    ensures
        value_of(sections_upto(doc, doc.len() as int).configs, doc[i].0) == Some(
            config_of(doc[i].1->Table_0, groups_of(doc)),
        ),
{
    lemma_sections_hold_configuration(doc, i, doc.len() as int);
}

/// Two lists of configurations differ in appearance only: they hold the
/// same names at the same places, and under each the same visible points,
/// joins and vectors.
pub open spec fn same_structure(
    a: Seq<(Seq<char>, ConfigModel)>,
    b: Seq<(Seq<char>, ConfigModel)>,
) -> bool {
    &&& a.len() == b.len()
    &&& forall|i: int|
        0 <= i < a.len() ==> (#[trigger] a[i]).0 == b[i].0 && a[i].1.visible_points == b[i].1.visible_points
            && a[i].1.joins == b[i].1.joins && a[i].1.vectors == b[i].1.vectors
}

/// Merging an override into configurations changes their appearance only.
pub proof fn lemma_applied_keeps_structure(
    configs: Seq<(Seq<char>, ConfigModel)>,
    labels: Labels,
    over: OverrideModel,
    n: int,
)
    requires
        0 <= n <= labels.len(),
    ensures
        same_structure(configs, applied_upto(configs, labels, over, n)),
    decreases n,
{
    if n > 0 {
        lemma_applied_keeps_structure(configs, labels, over, n - 1);
        let before = applied_upto(configs, labels, over, n - 1);
        let after = applied_upto(configs, labels, over, n);
        lemma_position_from(before, labels[n - 1], 0);
        assert forall|i: int| 0 <= i < configs.len() implies (#[trigger] configs[i]).0 == after[i].0
            && configs[i].1.visible_points == after[i].1.visible_points && configs[i].1.joins
            == after[i].1.joins && configs[i].1.vectors == after[i].1.vectors by {
            assert(configs[i].0 == before[i].0);
        }
    }
}

/// The overrides of a document change the appearance of its configurations
/// only: what is visible, the joins and the vectors stay as the
/// configurations were read.
pub proof fn lemma_overrides_keep_structure(file: FileModel, n: int)
    requires
        0 <= n <= file.overrides.len(),
    ensures
        same_structure(file.configs, overridden_upto(file, n)),
    decreases n,
{
    if n > 0 {
        lemma_overrides_keep_structure(file, n - 1);
        let before = overridden_upto(file, n - 1);
        let after = overridden_upto(file, n);
        match value_of(file.groups, file.overrides[n - 1].0) {
            Some(labels) => {
                lemma_applied_keeps_structure(before, labels, file.overrides[n - 1].1, labels.len() as int);
                assert forall|i: int| 0 <= i < file.configs.len() implies (#[trigger] file.configs[i]).0
                    == after[i].0 && file.configs[i].1.visible_points == after[i].1.visible_points
                    && file.configs[i].1.joins == after[i].1.joins && file.configs[i].1.vectors
                    == after[i].1.vectors by {
                    assert(file.configs[i].0 == before[i].0);
                    assert(before[i].0 == after[i].0);
                }
            },
            None => {},
        }
    }
}

} // verus!
