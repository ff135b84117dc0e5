use vstd::prelude::*;
use crate::assoc::{lemma_position_from, lemma_same_keys_position, value_of, with_entry};
use crate::config::{Config, ConfigModel, OverrideModel, PointGroupConfig, labels_of};
use crate::grammar::Groups;

verus! {

/// The labels of each group.
pub open spec fn groups_model(groups: Seq<(Seq<char>, Vec<String>)>) -> Groups {
    Seq::new(groups.len(), |i: int| (groups[i].0, labels_of(groups[i].1@)))
}

/// The value of each configuration.
pub open spec fn configs_model(configs: Seq<(Seq<char>, Config)>) -> Seq<(Seq<char>, ConfigModel)> {
    Seq::new(configs.len(), |i: int| (configs[i].0, configs[i].1@))
}

/// The value of each override.
pub open spec fn overrides_model(overrides: Seq<(Seq<char>, PointGroupConfig)>) -> Seq<
    (Seq<char>, OverrideModel),
> {
    Seq::new(overrides.len(), |i: int| (overrides[i].0, overrides[i].1@))
}

/// The labels that a name holds in the model are those of the group that
/// it holds in the list.
pub proof fn lemma_groups_value(groups: Seq<(Seq<char>, Vec<String>)>, name: Seq<char>)
    ensures
        value_of(groups_model(groups), name) == match value_of(groups, name) {
            Some(labels) => Some(labels_of(labels@)),
            None => None,
        },
{
    lemma_same_keys_position(groups, groups_model(groups), name);
    lemma_position_from(groups, name, 0);
}

/// Putting a group under a name puts its labels under the name in the
/// model.
pub proof fn lemma_groups_with_entry(groups: Seq<(Seq<char>, Vec<String>)>, name: Seq<char>, labels: Vec<String>)
    ensures
        groups_model(with_entry(groups, name, labels)) == with_entry(
            groups_model(groups),
            name,
            labels_of(labels@),
        ),
{
    lemma_same_keys_position(groups, groups_model(groups), name);
    lemma_position_from(groups, name, 0);
    assert(groups_model(with_entry(groups, name, labels)) =~= with_entry(
        groups_model(groups),
        name,
        labels_of(labels@),
    ));
}

/// The value that a name holds in the model is that of the configuration
/// that it holds in the list.
pub proof fn lemma_configs_value(configs: Seq<(Seq<char>, Config)>, name: Seq<char>)
    ensures
        value_of(configs_model(configs), name) == match value_of(configs, name) {
            Some(c) => Some(c@),
            None => None,
        },
{
    lemma_same_keys_position(configs, configs_model(configs), name);
    lemma_position_from(configs, name, 0);
}

/// Putting a configuration under a name puts its value under the name in
/// the model.
pub proof fn lemma_configs_with_entry(configs: Seq<(Seq<char>, Config)>, name: Seq<char>, config: Config)
    ensures
        configs_model(with_entry(configs, name, config)) == with_entry(configs_model(configs), name, config@),
{
    lemma_same_keys_position(configs, configs_model(configs), name);
    lemma_position_from(configs, name, 0);
    assert(configs_model(with_entry(configs, name, config)) =~= with_entry(
        configs_model(configs),
        name,
        config@,
    ));
}

/// The value that a name holds in the model is that of the override that
/// it holds in the list.
pub proof fn lemma_overrides_value(overrides: Seq<(Seq<char>, PointGroupConfig)>, name: Seq<char>)
    ensures
        value_of(overrides_model(overrides), name) == match value_of(overrides, name) {
            Some(o) => Some(o@),
            None => None,
        },
{
    lemma_same_keys_position(overrides, overrides_model(overrides), name);
    lemma_position_from(overrides, name, 0);
}

/// Putting an override under a name puts its value under the name in the
/// model.
pub proof fn lemma_overrides_with_entry(
    overrides: Seq<(Seq<char>, PointGroupConfig)>,
    name: Seq<char>,
    over: PointGroupConfig,
)
    ensures
        overrides_model(with_entry(overrides, name, over)) == with_entry(overrides_model(overrides), name, over@),
{
    lemma_same_keys_position(overrides, overrides_model(overrides), name);
    lemma_position_from(overrides, name, 0);
    assert(overrides_model(with_entry(overrides, name, over)) =~= with_entry(
        overrides_model(overrides),
        name,
        over@,
    ));
}

} // verus!
