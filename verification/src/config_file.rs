use vstd::prelude::*;
use crate::assoc::{Dict, distinct_keys, value_of, with_entry};
use crate::config::{
    Config, PointGroupConfig, clone_bytes, contains_label, joins_of, labels_of, merge_configs,
    optional, overlays_of,
};
use crate::document::{Node, entries_of, lookup};
use crate::grammar::{
    FileModel, applied_upto, file_of, groups_of, merged, overridden_upto, sections_upto,
};
use crate::models::{
    configs_model, groups_model, lemma_configs_value, lemma_configs_with_entry, lemma_groups_value,
    lemma_groups_with_entry, lemma_overrides_value, lemma_overrides_with_entry, overrides_model,
};
use crate::number::Real;
use crate::parse::{parse_groups, parse_individual_config, parse_point_group_config};
use crate::ordering::{lemma_in_order_without_duplicates, sorted_labels, strictly_in_order};
use crate::resolve::{
    first_same_from, group_join_color_from, group_line_thickness_from, group_point_color_from,
    group_point_size_from, names_of, override_for, visible_names_upto, visible_positions_upto,
};
use crate::shape::JoinShape;
use crate::text::str_equal;
use crate::toml_source::{ConfigParseError, read_document, toml_document};

verus! {

/// Everything that one document describes: the scene configurations by
/// name, the point groups, and the appearance that groups override.
///
/// Groups, overrides and configurations keep the order in which the
/// document first names them. Where several groups hold a point, the first
/// in that order that overrides an attribute gives it.
#[derive(Debug)]
pub struct ConfigFile {
    config_name: Dict<Config>,
    point_groups: Dict<Vec<String>>,
    point_groups_config: Dict<PointGroupConfig>,
}

impl View for ConfigFile {
    type V = FileModel;

    closed spec fn view(&self) -> FileModel {
        FileModel {
            configs: configs_model(self.config_name@),
            groups: groups_model(self.point_groups@),
            overrides: overrides_model(self.point_groups_config@),
        }
    }
}

/// The file that describes nothing.
pub open spec fn empty_file() -> FileModel {
    FileModel { configs: Seq::empty(), groups: Seq::empty(), overrides: Seq::empty() }
}

impl ConfigFile {
    /// A file that describes nothing.
    pub fn default() -> (file: Self)
        ensures
            file@ == empty_file(),
    {
        let file = ConfigFile {
            config_name: Dict::new(),
            point_groups: Dict::new(),
            point_groups_config: Dict::new(),
        };
        assert(file@.configs =~= Seq::empty());
        assert(file@.groups =~= Seq::empty());
        assert(file@.overrides =~= Seq::empty());
        file
    }

    /// The configurations, each under its name. In a file a name stands for
    /// one configuration, one group and one override at most.
    pub fn get_config_map(&self) -> (configs: &Dict<Config>)
        ensures
            configs_model(configs@) == self@.configs,
            distinct_keys(self@.configs),
            distinct_keys(self@.groups),
            distinct_keys(self@.overrides),
    {
        let configs = self.config_name.len();
        let groups = self.point_groups.len();
        let overrides = self.point_groups_config.len();
        assert forall|a: int, b: int| 0 <= a < b < self@.configs.len() implies self@.configs[a].0
            != self@.configs[b].0 by {
            assert(self@.configs[a].0 == self.config_name@[a].0);
            assert(self@.configs[b].0 == self.config_name@[b].0);
        }
        assert forall|a: int, b: int| 0 <= a < b < self@.groups.len() implies self@.groups[a].0
            != self@.groups[b].0 by {
            assert(self@.groups[a].0 == self.point_groups@[a].0);
            assert(self@.groups[b].0 == self.point_groups@[b].0);
        }
        assert forall|a: int, b: int| 0 <= a < b < self@.overrides.len() implies self@.overrides[a].0
            != self@.overrides[b].0 by {
            assert(self@.overrides[a].0 == self.point_groups_config@[a].0);
            assert(self@.overrides[b].0 == self.point_groups_config@[b].0);
        }
        &self.config_name
    }

    /// The configuration of a name.
    pub fn get_config(&self, config_name: &str) -> (config: Option<&Config>)
        ensures
            match config {
                Some(c) => self@.config(config_name@) == Some(c@),
                None => self@.config(config_name@) is None,
            },
    {
        proof {
            lemma_configs_value(self.config_name@, config_name@);
        }
        self.config_name.get(config_name)
    }

    /// The labels of a group.
    pub fn get_point_group(&self, point_group_name: &str) -> (labels: Option<&Vec<String>>)
        ensures
            match labels {
                Some(l) => value_of(self@.groups, point_group_name@) == Some(labels_of(l@)),
                None => value_of(self@.groups, point_group_name@) is None,
            },
    {
        proof {
            lemma_groups_value(self.point_groups@, point_group_name@);
        }
        self.point_groups.get(point_group_name)
    }

    /// The appearance that a group overrides.
    pub fn get_point_group_config(&self, point_group_name: &str) -> (config: Option<&PointGroupConfig>)
        ensures
            match config {
                Some(c) => value_of(self@.overrides, point_group_name@) == Some(c@),
                None => value_of(self@.overrides, point_group_name@) is None,
            },
    {
        proof {
            lemma_overrides_value(self.point_groups_config@, point_group_name@);
        }
        self.point_groups_config.get(point_group_name)
    }

    /// The override that the group at `i` gives to a pair of points.
    fn override_at(&self, i: usize, first: &str, second: &str) -> (found: Option<&PointGroupConfig>)
        requires
            i < self@.groups.len(),
        ensures
            match found {
                Some(o) => override_for(self@, i as int, first@, second@) == Some(o@),
                None => override_for(self@, i as int, first@, second@) is None,
            },
    {
        let labels = self.point_groups.value_at(i);
        if contains_label(labels, first) && contains_label(labels, second) {
            proof {
                lemma_overrides_value(self.point_groups_config@, self.point_groups@[i as int].0);
            }
            self.point_groups_config.get(self.point_groups.key_at(i).as_str())
        } else {
            None
        }
    }

    /// The colour of a point under a configuration. The groups are asked in
    /// their order: the first that holds the point and overrides the
    /// colour gives it. Where none does, the configuration's own colour is
    /// the answer. Under a name that is no configuration there is none.
    pub fn get_point_color(&self, label: &str, config: &str) -> (color: Option<Vec<u8>>)
        ensures
            optional(color) == self@.point_color(label@, config@),
    {
        let own = match self.get_config(config) {
            Some(c) => c,
            None => {
                return None;
            },
        };
        let mut i: usize = 0;
        while i < self.point_groups.len()
            invariant
                i <= self@.groups.len(),
                self@.config(config@) == Some(own@),
                group_point_color_from(self@, label@, 0) == group_point_color_from(self@, label@, i as int),
            decreases self@.groups.len() - i,
        {
            match self.override_at(i, label, label) {
                Some(over) => match over.get_point_color() {
                    Some(color) => {
                        return Some(clone_bytes(color));
                    },
                    None => {},
                },
                None => {},
            }
            i += 1;
        }
        match own.get_point_color() {
            Some(color) => Some(clone_bytes(color)),
            None => None,
        }
    }

    /// The size of a point under a configuration: that of the first group
    /// that holds the point and overrides the size, else the
    /// configuration's own. Under a name that is no configuration there is
    /// none.
    pub fn get_point_size(&self, label: &str, config: &str) -> (size: Option<Real>)
        ensures
            size == self@.point_size(label@, config@),
    {
        let own = match self.get_config(config) {
            Some(c) => c,
            None => {
                return None;
            },
        };
        let mut i: usize = 0;
        while i < self.point_groups.len()
            invariant
                i <= self@.groups.len(),
                self@.config(config@) == Some(own@),
                group_point_size_from(self@, label@, 0) == group_point_size_from(self@, label@, i as int),
            decreases self@.groups.len() - i,
        {
            match self.override_at(i, label, label) {
                Some(over) => match over.get_point_size() {
                    Some(size) => {
                        return Some(size);
                    },
                    None => {},
                },
                None => {},
            }
            i += 1;
        }
        own.get_point_size()
    }

    /// The thickness of the line between two points under a configuration:
    /// that of the first group that holds both points and overrides the
    /// thickness, else the configuration's own. The order of the two points
    /// does not matter. Under a name that is no configuration there is
    /// none.
    pub fn get_line_thickness(&self, point1: &str, point2: &str, config: &str) -> (thickness: Option<Real>)
        ensures
            thickness == self@.line_thickness(point1@, point2@, config@),
    {
        let own = match self.get_config(config) {
            Some(c) => c,
            None => {
                return None;
            },
        };
        let mut i: usize = 0;
        while i < self.point_groups.len()
            invariant
                i <= self@.groups.len(),
                self@.config(config@) == Some(own@),
                group_line_thickness_from(self@, point1@, point2@, 0) == group_line_thickness_from(
                    self@,
                    point1@,
                    point2@,
                    i as int,
                ),
            decreases self@.groups.len() - i,
        {
            match self.override_at(i, point1, point2) {
                Some(over) => match over.get_line_thickness() {
                    Some(thickness) => {
                        return Some(thickness);
                    },
                    None => {},
                },
                None => {},
            }
            i += 1;
        }
        own.get_line_thickness()
    }

    /// The colour of the join between two points under a configuration:
    /// that of the first group that holds both points and overrides the
    /// colour, else the configuration's own. The order of the two points
    /// does not matter. Under a name that is no configuration there is
    /// none.
    pub fn get_join_color(&self, point1: &str, point2: &str, config: &str) -> (color: Option<Vec<u8>>)
        ensures
            optional(color) == self@.join_color(point1@, point2@, config@),
    {
        let own = match self.get_config(config) {
            Some(c) => c,
            None => {
                return None;
            },
        };
        let mut i: usize = 0;
        while i < self.point_groups.len()
            invariant
                i <= self@.groups.len(),
                self@.config(config@) == Some(own@),
                group_join_color_from(self@, point1@, point2@, 0) == group_join_color_from(
                    self@,
                    point1@,
                    point2@,
                    i as int,
                ),
            decreases self@.groups.len() - i,
        {
            match self.override_at(i, point1, point2) {
                Some(over) => match over.get_join_color() {
                    Some(color) => {
                        return Some(clone_bytes(color));
                    },
                    None => {},
                },
                None => {},
            }
            i += 1;
        }
        match own.get_join_color() {
            Some(color) => Some(clone_bytes(color)),
            None => None,
        }
    }

    /// Whether a label is visible under a configuration.
    pub fn contains_point(&self, config: &str, label: &str) -> (found: bool)
        ensures
            found == self@.is_visible(config@, label@),
    {
        self.contains_point_regex(config, label)
    }

    /// Whether a label is visible under a configuration: whether it
    /// matches one of the configuration's patterns. Under a name that is no
    /// configuration nothing is visible.
    pub fn contains_point_regex(&self, config: &str, label: &str) -> (found: bool)
        ensures
            found == self@.is_visible(config@, label@),
    {
        match self.get_config(config) {
            Some(c) => c.contains_point_regex(label),
            None => false,
        }
    }

    /// The patterns of a configuration that a label matches, in their
    /// order; none under a name that is no configuration.
    pub fn get_all_points_that_match(&self, config: &str, label: &str) -> (matching: Vec<String>)
        ensures
            labels_of(matching@) == self@.matching_patterns(config@, label@),
    {
        match self.get_config(config) {
            Some(c) => c.get_all_points_that_match(label),
            None => {
                let matching: Vec<String> = Vec::new();
                assert(labels_of(matching@) =~= Seq::empty());
                matching
            },
        }
    }

    /// The joins of a configuration; none under a name that is no
    /// configuration.
    pub fn joins(&self, config: &str) -> (joins: Option<&Vec<(Vec<String>, JoinShape)>>)
        ensures
            match joins {
                Some(j) => self@.config(config@) is Some && self@.config(config@)->0.joins == Some(joins_of(j@)),
                None => self@.config(config@) is None || self@.config(config@)->0.joins is None,
            },
    {
        match self.get_config(config) {
            Some(c) => c.get_joins(),
            None => None,
        }
    }

    /// The vector overlays that a point owns under a configuration.
    pub fn vectors_for_point(&self, config: &str, label: &str) -> (overlays: Option<&Vec<(String, Real)>>)
        ensures
            match overlays {
                Some(o) => self@.config(config@) is Some && self@.config(config@)->0.vectors is Some && value_of(
                    self@.config(config@)->0.vectors->0,
                    label@,
                ) == Some(overlays_of(o@)),
                None => self@.config(config@) is None || self@.config(config@)->0.vectors is None || value_of(
                    self@.config(config@)->0.vectors->0,
                    label@,
                ) is None,
            },
    {
        match self.get_config(config) {
            Some(c) => c.get_vectors_for_point(label),
            None => None,
        }
    }

    /// The configurations, in their order.
    pub fn get_all_configs(&self) -> (configs: Vec<&Config>)
        ensures
            configs@.len() == self@.configs.len(),
            forall|i: int| 0 <= i < configs@.len() ==> configs@[i]@ == self@.configs[i].1,
    {
        let mut configs: Vec<&Config> = Vec::new();
        let mut i: usize = 0;
        while i < self.config_name.len()
            invariant
                i <= self@.configs.len(),
                configs@.len() == i,
                forall|k: int| 0 <= k < i ==> configs@[k]@ == self@.configs[k].1,
            decreases self@.configs.len() - i,
        {
            configs.push(self.config_name.value_at(i));
            i += 1;
        }
        configs
    }

    /// The configurations in which a label is visible, in their order.
    pub fn get_all_configs_that_contain_point(&self, label: &str) -> (configs: Vec<&Config>)
        ensures
            configs@.len() == visible_positions_upto(self@.configs, label@, self@.configs.len() as int).len(),
            forall|k: int|
                0 <= k < configs@.len() ==> (#[trigger] configs@[k])@ == self@.configs[visible_positions_upto(
                    self@.configs,
                    label@,
                    self@.configs.len() as int,
                )[k]].1,
    {
        let mut configs: Vec<&Config> = Vec::new();
        let mut i: usize = 0;
        let ghost mut places: Seq<int> = Seq::empty();
        while i < self.config_name.len()
            invariant
                i <= self@.configs.len(),
                places == visible_positions_upto(self@.configs, label@, i as int),
                configs@.len() == places.len(),
                forall|k: int|
                    0 <= k < configs@.len() ==> 0 <= #[trigger] places[k] < i && configs@[k]@
                        == self@.configs[places[k]].1,
            decreases self@.configs.len() - i,
        {
            let config = self.config_name.value_at(i);
            if config.contains_point_regex(label) {
                configs.push(config);
                proof {
                    places = places.push(i as int);
                }
            }
            i += 1;
        }
        configs
    }

    /// The names of the configurations, in the strict order of a
    /// dictionary: every name of the file, each once.
    pub fn get_all_config_names(&self) -> (names: Vec<String>)
        ensures
            strictly_in_order(labels_of(names@)),
            names@.len() == self@.configs.len(),
            labels_of(names@).to_multiset() == names_of(self@.configs).to_multiset(),
            distinct_keys(self@.configs),
    {
        let mut keys: Vec<String> = Vec::new();
        let mut i: usize = 0;
        while i < self.config_name.len()
            invariant
                i <= self@.configs.len(),
                keys@.len() == i,
                forall|k: int| 0 <= k < i ==> keys@[k]@ == self@.configs[k].0,
            decreases self@.configs.len() - i,
        {
            keys.push(self.config_name.key_at(i).clone());
            i += 1;
        }
        let n = self.config_name.len();
        assert(labels_of(keys@) =~= names_of(self@.configs));
        let names = sorted_labels(&keys);
        proof {
            let given = names_of(self@.configs);
            let sorted = labels_of(names@);
            assert(distinct_keys(self@.configs)) by {
                assert forall|a: int, b: int| 0 <= a < b < self@.configs.len() implies self@.configs[a].0
                    != self@.configs[b].0 by {
                    assert(self@.configs[a].0 == self.config_name@[a].0);
                    assert(self@.configs[b].0 == self.config_name@[b].0);
                }
            }
            assert(given.no_duplicates()) by {
                assert forall|a: int, b: int| 0 <= a < given.len() && 0 <= b < given.len() && a != b implies given[a]
                    != given[b] by {
                    if a < b {
                        assert(self@.configs[a].0 != self@.configs[b].0);
                    } else {
                        assert(self@.configs[b].0 != self@.configs[a].0);
                    }
                }
            }
            given.lemma_multiset_has_no_duplicates();
            sorted.lemma_multiset_has_no_duplicates_conv();
            lemma_in_order_without_duplicates(sorted);
            given.to_multiset_ensures();
            sorted.to_multiset_ensures();
        }
        names
    }

    /// The name of the first configuration that has the value of the given
    /// one; `Others` where none has.
    pub fn get_config_name(&self, config: &Config) -> (name: String)
        ensures
            match first_same_from(self@.configs, config@, 0) {
                Some(i) => name@ == self@.configs[i].0,
                None => name@ == "Others"@,
            },
    {
        let mut i: usize = 0;
        while i < self.config_name.len()
            invariant
                i <= self@.configs.len(),
                first_same_from(self@.configs, config@, 0) == first_same_from(self@.configs, config@, i as int),
            decreases self@.configs.len() - i,
        {
            if self.config_name.value_at(i).same(config) {
                return self.config_name.key_at(i).clone();
            }
            i += 1;
        }
        "Others".to_string()
    }

    /// The names of the configurations in which a label is visible, in the
    /// order of the configurations.
    pub fn get_all_config_names_that_contain_point(&self, label: &str) -> (names: Vec<String>)
        ensures
            labels_of(names@) == visible_names_upto(self@.configs, label@, self@.configs.len() as int),
    {
        let mut names: Vec<String> = Vec::new();
        assert(labels_of(names@) =~= Seq::empty());
        let mut i: usize = 0;
        while i < self.config_name.len()
            invariant
                i <= self@.configs.len(),
                labels_of(names@) == visible_names_upto(self@.configs, label@, i as int),
            decreases self@.configs.len() - i,
        {
            if self.config_name.value_at(i).contains_point_regex(label) {
                let ghost before = names@;
                names.push(self.config_name.key_at(i).clone());
                assert(labels_of(names@) =~= labels_of(before).push(self@.configs[i as int].0));
            }
            i += 1;
        }
        names
    }

    /// Puts a group under a name, in the place of the group that the name
    /// held, if it held one.
    pub fn add_point_group(&mut self, point_group_name: String, points: Vec<String>)
        ensures
            final(self)@ == (FileModel {
                groups: with_entry(old(self)@.groups, point_group_name@, labels_of(points@)),
                ..old(self)@
            }),
    {
        proof {
            lemma_groups_with_entry(self.point_groups@, point_group_name@, points);
        }
        self.point_groups.insert(point_group_name, points);
    }

    /// Puts an override under the name of a group, in the place of the
    /// override that the name held, if it held one.
    pub fn add_point_group_config(&mut self, point_group_name: String, config: PointGroupConfig)
        ensures
            final(self)@ == (FileModel {
                overrides: with_entry(old(self)@.overrides, point_group_name@, config@),
                ..old(self)@
            }),
    {
        proof {
            lemma_overrides_with_entry(self.point_groups_config@, point_group_name@, config);
        }
        self.point_groups_config.insert(point_group_name, config);
    }

    /// Puts a configuration under a name, in the place of the configuration
    /// that the name held, if it held one.
    pub fn add_config(&mut self, config_name: String, config: Config)
        ensures
            final(self)@ == (FileModel {
                configs: with_entry(old(self)@.configs, config_name@, config@),
                ..old(self)@
            }),
    {
        proof {
            lemma_configs_with_entry(self.config_name@, config_name@, config);
        }
        self.config_name.insert(config_name, config);
    }
}

/// Merges the override into every configuration whose name is one of the
/// labels.
pub fn apply_to_labels(configs: &mut Dict<Config>, labels: &Vec<String>, override_config: &PointGroupConfig)
    ensures
        configs_model(final(configs)@) == applied_upto(
            configs_model(old(configs)@),
            labels_of(labels@),
            override_config@,
            labels@.len() as int,
        ),
{
    let mut k: usize = 0;
    while k < labels.len()
        invariant
            k <= labels.len(),
            configs_model(configs@) == applied_upto(
                configs_model(old(configs)@),
                labels_of(labels@),
                override_config@,
                k as int,
            ),
        decreases labels.len() - k,
    {
        proof {
            crate::assoc::lemma_same_keys_position(configs@, configs_model(configs@), labels@[k as int]@);
        }
        match configs.find(labels[k].as_str()) {
            Some(i) => {
                let ghost before = configs@;
                let config = merge_configs(configs.value_at(i), override_config);
                configs.set_value_at(i, config);
                assert(configs_model(configs@) =~= configs_model(before).update(
                    i as int,
                    (configs_model(before)[i as int].0, merged(configs_model(before)[i as int].1, override_config@)),
                ));
            },
            None => {},
        }
        k += 1;
    }
}

/// Builds what a document describes. The groups are read first, out of the
/// whole document, so that a configuration may refer to a group that the
/// document defines behind it. Then every other table is read, as the
/// override of a group or as a configuration. At the end each override is
/// merged into the configurations that bear the name of a label of its
/// group.
pub fn parse_document(doc: &Vec<(String, Node)>) -> (file: ConfigFile)
    ensures
        file@ == file_of(entries_of(doc@)),
{
    let groups = parse_groups(doc);
    let mut configs: Dict<Config> = Dict::new();
    let mut overrides: Dict<PointGroupConfig> = Dict::new();
    assert(configs_model(configs@) =~= Seq::empty());
    assert(overrides_model(overrides@) =~= Seq::empty());
    let ghost entries = entries_of(doc@);
    let mut i: usize = 0;
    while i < doc.len()
        invariant
            i <= doc.len(),
            entries == entries_of(doc@),
            groups_model(groups@) == groups_of(entries),
            (FileModel {
                configs: configs_model(configs@),
                groups: groups_model(groups@),
                overrides: overrides_model(overrides@),
            }) == sections_upto(entries, i as int),
        decreases doc.len() - i,
    {
        assert(entries[i as int] == (doc@[i as int].0@, doc@[i as int].1@));
        if !str_equal(doc[i].0.as_str(), "point_groups") {
            match &doc[i].1 {
                Node::Table(table) => match lookup(table, "config") {
                    Some(Node::Table(over)) => {
                        let config = parse_point_group_config(over);
                        proof {
                            lemma_overrides_with_entry(overrides@, doc@[i as int].0@, config);
                        }
                        overrides.insert(doc[i].0.clone(), config);
                    },
                    _ => {
                        let config = parse_individual_config(table, &groups);
                        proof {
                            lemma_configs_with_entry(configs@, doc@[i as int].0@, config);
                        }
                        configs.insert(doc[i].0.clone(), config);
                    },
                },
                _ => {},
            }
        }
        i += 1;
    }
    let ghost sections = sections_upto(entries, entries.len() as int);
    let mut n: usize = 0;
    while n < overrides.len()
        invariant
            n <= overrides@.len(),
            sections.groups == groups_model(groups@),
            sections.overrides == overrides_model(overrides@),
            configs_model(configs@) == overridden_upto(sections, n as int),
        decreases overrides@.len() - n,
    {
        proof {
            lemma_groups_value(groups@, overrides@[n as int].0);
        }
        match groups.get(overrides.key_at(n).as_str()) {
            Some(labels) => {
                apply_to_labels(&mut configs, labels, overrides.value_at(n));
            },
            None => {},
        }
        n += 1;
    }
    ConfigFile { config_name: configs, point_groups: groups, point_groups_config: overrides }
}

/// Whether `r` is what reading a text gives: the file that the document
/// describes, or an error where the text is no TOML document. A document
/// holds each of its keys once.
pub open spec fn reads(text: Seq<char>, r: Result<ConfigFile, ConfigParseError>) -> bool {
    match r {
        Ok(file) => {
            &&& toml_document(text) is Some
            &&& distinct_keys(toml_document(text)->0)
            &&& file@ == file_of(toml_document(text)->0)
        },
        Err(_) => toml_document(text) is None,
    }
}

/// Reads a TOML text into what it describes. The only failure is a text
/// that is no TOML document; whatever is odd inside a document is skipped
/// or read as a default.
pub fn parse_config(text: &str) -> (r: Result<ConfigFile, ConfigParseError>)
    ensures
        reads(text@, r),
{
    match read_document(text) {
        Ok(doc) => Ok(parse_document(&doc)),
        Err(e) => Err(e),
    }
}

} // verus!
