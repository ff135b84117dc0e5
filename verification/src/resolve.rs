use vstd::prelude::*;
use crate::assoc::value_of;
use crate::config::{ConfigModel, OverrideModel};
use crate::grammar::{FileModel, Labels, or_else};
use crate::number::Real;

verus! {

/// The override that the group at `i` gives to a pair of points: the one of
/// the group's name, where the group holds both points.
pub open spec fn override_for(file: FileModel, i: int, first: Seq<char>, second: Seq<char>) -> Option<
    OverrideModel,
> {
    if file.groups[i].1.contains(first) && file.groups[i].1.contains(second) {
        value_of(file.overrides, file.groups[i].0)
    } else {
        None
    }
}

/// The point colour of the first group, at or after `from`, that holds the
/// label and whose override sets one.
pub open spec fn group_point_color_from(file: FileModel, label: Seq<char>, from: int) -> Option<Seq<u8>>
    decreases file.groups.len() - from,
{
    if from < 0 || from >= file.groups.len() {
        None
    } else {
        match override_for(file, from, label, label) {
            Some(OverrideModel { point_color: Some(color), .. }) => Some(color),
            _ => group_point_color_from(file, label, from + 1),
        }
    }
}

/// The point size of the first group, at or after `from`, that holds the
/// label and whose override sets one.
pub open spec fn group_point_size_from(file: FileModel, label: Seq<char>, from: int) -> Option<Real>
    decreases file.groups.len() - from,
{
    if from < 0 || from >= file.groups.len() {
        None
    } else {
        match override_for(file, from, label, label) {
            Some(OverrideModel { point_size: Some(size), .. }) => Some(size),
            _ => group_point_size_from(file, label, from + 1),
        }
    }
}

/// The join colour of the first group, at or after `from`, that holds both
/// points and whose override sets one.
pub open spec fn group_join_color_from(file: FileModel, first: Seq<char>, second: Seq<char>, from: int) -> Option<
    Seq<u8>,
>
    decreases file.groups.len() - from,
{
    if from < 0 || from >= file.groups.len() {
        None
    } else {
        match override_for(file, from, first, second) {
            Some(OverrideModel { join_color: Some(color), .. }) => Some(color),
            _ => group_join_color_from(file, first, second, from + 1),
        }
    }
}

/// The line thickness of the first group, at or after `from`, that holds
/// both points and whose override sets one.
pub open spec fn group_line_thickness_from(
    file: FileModel,
    first: Seq<char>,
    second: Seq<char>,
    from: int,
) -> Option<Real>
    decreases file.groups.len() - from,
{
    if from < 0 || from >= file.groups.len() {
        None
    } else {
        match override_for(file, from, first, second) {
            Some(OverrideModel { line_thickness: Some(thickness), .. }) => Some(thickness),
            _ => group_line_thickness_from(file, first, second, from + 1),
        }
    }
}

/// The names among the first `n` configurations in which a label is
/// visible, in their order.
pub open spec fn visible_names_upto(configs: Seq<(Seq<char>, ConfigModel)>, label: Seq<char>, n: int) -> Labels
    decreases n,
{
    if n <= 0 {
        Seq::empty()
    } else if configs[n - 1].1.is_visible(label) {
        visible_names_upto(configs, label, n - 1).push(configs[n - 1].0)
    } else {
        visible_names_upto(configs, label, n - 1)
    }
}

/// The positions among the first `n` of the configurations in which a label
/// is visible, in ascending order.
pub open spec fn visible_positions_upto(configs: Seq<(Seq<char>, ConfigModel)>, label: Seq<char>, n: int) -> Seq<
    int,
>
    decreases n,
{
    if n <= 0 {
        Seq::empty()
    } else if configs[n - 1].1.is_visible(label) {
        visible_positions_upto(configs, label, n - 1).push(n - 1)
    } else {
        visible_positions_upto(configs, label, n - 1)
    }
}

/// The names of the configurations, in their order.
pub open spec fn names_of(configs: Seq<(Seq<char>, ConfigModel)>) -> Labels {
    Seq::new(configs.len(), |i: int| configs[i].0)
}

/// The place of the first configuration, at or after `from`, that has the
/// given value.
pub open spec fn first_same_from(configs: Seq<(Seq<char>, ConfigModel)>, config: ConfigModel, from: int) -> Option<
    int,
>
    decreases configs.len() - from,
{
    if from < 0 || from >= configs.len() {
        None
    } else if configs[from].1 == config {
        Some(from)
    } else {
        first_same_from(configs, config, from + 1)
    }
}

impl FileModel {
    /// The configuration of a name.
    pub open spec fn config(self, name: Seq<char>) -> Option<ConfigModel> {
        value_of(self.configs, name)
    }

    /// The colour of a point under a configuration: that of the first group
    /// that holds the point and overrides the colour, else the
    /// configuration's own. Under a name that is no configuration there is
    /// none.
    pub open spec fn point_color(self, label: Seq<char>, config: Seq<char>) -> Option<Seq<u8>> {
        match self.config(config) {
            Some(c) => or_else(group_point_color_from(self, label, 0), c.point_color),
            None => None,
        }
    }

    /// The size of a point under a configuration: that of the first group
    /// that holds the point and overrides the size, else the
    /// configuration's own. Under a name that is no configuration there is
    /// none.
    pub open spec fn point_size(self, label: Seq<char>, config: Seq<char>) -> Option<Real> {
        match self.config(config) {
            Some(c) => or_else(group_point_size_from(self, label, 0), c.point_size),
            None => None,
        }
    }

    /// The colour of the join between two points under a configuration:
    /// that of the first group that holds both and overrides the colour,
    /// else the configuration's own. Under a name that is no configuration
    /// there is none.
    pub open spec fn join_color(self, first: Seq<char>, second: Seq<char>, config: Seq<char>) -> Option<
        Seq<u8>,
    > {
        match self.config(config) {
            Some(c) => or_else(group_join_color_from(self, first, second, 0), c.join_color),
            None => None,
        }
    }

    /// The thickness of the line between two points under a configuration:
    /// that of the first group that holds both and overrides the
    /// thickness, else the configuration's own. Under a name that is no
    /// configuration there is none.
    pub open spec fn line_thickness(self, first: Seq<char>, second: Seq<char>, config: Seq<char>) -> Option<
        Real,
    > {
        match self.config(config) {
            Some(c) => or_else(group_line_thickness_from(self, first, second, 0), c.line_thickness),
            None => None,
        }
    }

    /// Whether a label is visible under a configuration; under a name that
    /// is no configuration nothing is.
    pub open spec fn is_visible(self, config: Seq<char>, label: Seq<char>) -> bool {
        match self.config(config) {
            Some(c) => c.is_visible(label),
            None => false,
        }
    }

    /// The patterns of a configuration that a label matches.
    pub open spec fn matching_patterns(self, config: Seq<char>, label: Seq<char>) -> Labels {
        match self.config(config) {
            Some(c) => c.matching_patterns(label),
            None => Seq::empty(),
        }
    }
}

} // verus!
