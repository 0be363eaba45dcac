//! Names given to game objects in the generated code, with a fallback
//! name made of a prefix and the object's id.
use crate::decimal::{nat_text, push_u64};
use crate::text::push_str;
use std::collections::BTreeMap;
use vstd::prelude::*;

verus! {

broadcast use {vstd::std_specs::btree::group_btree_axioms, vstd::laws_cmp::group_laws_cmp};

/// Names for the switches, variables, common events, actors, skills, items,
/// states, troops, armors and classes of a game, each by its id.
pub struct Config {
    pub switches: BTreeMap<u32, String>,
    pub variables: BTreeMap<u32, String>,
    pub common_events: BTreeMap<u32, String>,
    pub actors: BTreeMap<u32, String>,
    pub skills: BTreeMap<u32, String>,
    pub items: BTreeMap<u32, String>,
    pub states: BTreeMap<u32, String>,
    pub troops: BTreeMap<u32, String>,
    pub armors: BTreeMap<u32, String>,
    pub classes: BTreeMap<u32, String>,
}

/// The name that `names` gives `id`, or `prefix` followed by the id.
pub open spec fn name_or(names: Map<u32, String>, id: u32, prefix: Seq<char>) -> Seq<char> {
    if names.contains_key(id) {
        names[id]@
    } else {
        prefix + nat_text(id as nat)
    }
}

/// The kinds of named objects.
#[derive(Clone, Copy, PartialEq, Eq, Debug)]
pub enum NameKind {
    Switch,
    Variable,
    CommonEvent,
    Actor,
    Skill,
    Item,
    State,
    Troop,
    Armor,
    Class,
}

/// The fallback prefix of each kind of name.
pub open spec fn kind_prefix(kind: NameKind) -> Seq<char> {
    match kind {
        NameKind::Switch => "game_switch_"@,
        NameKind::Variable => "game_variable_"@,
        NameKind::CommonEvent => "common_event_"@,
        NameKind::Actor => "game_actor_"@,
        NameKind::Skill => "game_skill_"@,
        NameKind::Item => "game_item_"@,
        NameKind::State => "game_state_"@,
        NameKind::Troop => "game_troop_"@,
        NameKind::Armor => "game_armor_"@,
        NameKind::Class => "game_class_"@,
    }
}

impl Config {
    /// The map that holds the names of `kind`.
    pub open spec fn names_of(&self, kind: NameKind) -> Map<u32, String> {
        match kind {
            NameKind::Switch => self.switches@,
            NameKind::Variable => self.variables@,
            NameKind::CommonEvent => self.common_events@,
            NameKind::Actor => self.actors@,
            NameKind::Skill => self.skills@,
            NameKind::Item => self.items@,
            NameKind::State => self.states@,
            NameKind::Troop => self.troops@,
            NameKind::Armor => self.armors@,
            NameKind::Class => self.classes@,
        }
    }

    /// The name of the object of `kind` with the given id.
    pub open spec fn name(&self, kind: NameKind, id: u32) -> Seq<char> {
        name_or(self.names_of(kind), id, kind_prefix(kind))
    }

    /// A configuration that names nothing.
    pub fn new() -> (c: Self)
        ensures
            forall|k: NameKind| #[trigger] c.names_of(k) == Map::<u32, String>::empty(),
    {
        Config {
            switches: BTreeMap::new(),
            variables: BTreeMap::new(),
            common_events: BTreeMap::new(),
            actors: BTreeMap::new(),
            skills: BTreeMap::new(),
            items: BTreeMap::new(),
            states: BTreeMap::new(),
            troops: BTreeMap::new(),
            armors: BTreeMap::new(),
            classes: BTreeMap::new(),
        }
    }

    /// Appends the name of the object of `kind` with the given id to `out`.
    pub fn push_name(&self, out: &mut String, kind: NameKind, id: u32)
        ensures
            final(out)@ == old(out)@ + self.name(kind, id),
    {
        let names = match kind {
            NameKind::Switch => &self.switches,
            NameKind::Variable => &self.variables,
            NameKind::CommonEvent => &self.common_events,
            NameKind::Actor => &self.actors,
            NameKind::Skill => &self.skills,
            NameKind::Item => &self.items,
            NameKind::State => &self.states,
            NameKind::Troop => &self.troops,
            NameKind::Armor => &self.armors,
            NameKind::Class => &self.classes,
        };
        assert(names@ == self.names_of(kind));
        match names.get(&id) {
            Some(name) => {
                push_str(out, name.as_str());
            },
            None => {
                let prefix = match kind {
                    NameKind::Switch => "game_switch_",
                    NameKind::Variable => "game_variable_",
                    NameKind::CommonEvent => "common_event_",
                    NameKind::Actor => "game_actor_",
                    NameKind::Skill => "game_skill_",
                    NameKind::Item => "game_item_",
                    NameKind::State => "game_state_",
                    NameKind::Troop => "game_troop_",
                    NameKind::Armor => "game_armor_",
                    NameKind::Class => "game_class_",
                };
                assert(prefix@ == kind_prefix(kind));
                push_str(out, prefix);
                push_u64(out, id as u64);
                assert(final(out)@ =~= old(out)@ + self.name(kind, id));
            },
        }
    }

    /// The name of the object of `kind` with the given id.
    pub fn get_name(&self, kind: NameKind, id: u32) -> (r: String)
        ensures
            r@ == self.name(kind, id),
    {
        let mut r = String::new();
        self.push_name(&mut r, kind, id);
        assert(r@ =~= self.name(kind, id));
        r
    }

    /// Get a switch name.
    pub fn get_switch_name(&self, id: u32) -> (r: String)
        ensures
            r@ == self.name(NameKind::Switch, id),
    {
        self.get_name(NameKind::Switch, id)
    }

    /// Get a variable name.
    pub fn get_variable_name(&self, id: u32) -> (r: String)
        ensures
            r@ == self.name(NameKind::Variable, id),
    {
        self.get_name(NameKind::Variable, id)
    }

    /// Get a common event name.
    pub fn get_common_event_name(&self, id: u32) -> (r: String)
        ensures
            r@ == self.name(NameKind::CommonEvent, id),
    {
        self.get_name(NameKind::CommonEvent, id)
    }

    /// Get an actor name.
    pub fn get_actor_name(&self, id: u32) -> (r: String)
        ensures
            r@ == self.name(NameKind::Actor, id),
    {
        self.get_name(NameKind::Actor, id)
    }

    /// Get a skill name.
    pub fn get_skill_name(&self, id: u32) -> (r: String)
        ensures
            r@ == self.name(NameKind::Skill, id),
    {
        self.get_name(NameKind::Skill, id)
    }

    /// Get an item name.
    pub fn get_item_name(&self, id: u32) -> (r: String)
        ensures
            r@ == self.name(NameKind::Item, id),
    {
        self.get_name(NameKind::Item, id)
    }

    /// Get a state name.
    pub fn get_state_name(&self, id: u32) -> (r: String)
        ensures
            r@ == self.name(NameKind::State, id),
    {
        self.get_name(NameKind::State, id)
    }

    /// Get a troop name.
    pub fn get_troop_name(&self, id: u32) -> (r: String)
        ensures
            r@ == self.name(NameKind::Troop, id),
    {
        self.get_name(NameKind::Troop, id)
    }

    /// Get an armor name.
    pub fn get_armor_name(&self, id: u32) -> (r: String)
        ensures
            r@ == self.name(NameKind::Armor, id),
    {
        self.get_name(NameKind::Armor, id)
    }

    /// Get a class name.
    pub fn get_class_name(&self, id: u32) -> (r: String)
        ensures
            r@ == self.name(NameKind::Class, id),
    {
        self.get_name(NameKind::Class, id)
    }
}

impl Default for Config {
    /// A configuration that names nothing.
    fn default() -> (c: Self)
        ensures
            forall|k: NameKind| #[trigger] c.names_of(k) == Map::<u32, String>::empty(),
    {
        Config::new()
    }
}

/// A name given in the configuration is the one used; an id without one is
/// named by its kind's prefix and the id.
pub proof fn lemma_given_name_is_used(config: Config, kind: NameKind, id: u32)
    ensures
        config.names_of(kind).contains_key(id) ==> config.name(kind, id) == config.names_of(
            kind,
        )[id]@,
        !config.names_of(kind).contains_key(id) ==> config.name(kind, id) == kind_prefix(kind)
            + nat_text(id as nat),
{
}

} // verus!

verus! {

/// An id without a configured name is named after its kind: `game_switch_`,
/// `game_variable_`, `common_event_`, `game_actor_`, `game_skill_`,
/// `game_item_`, `game_state_`, `game_troop_`, `game_armor_` or `game_class_`,
/// followed by the id.
pub proof fn lemma_default_names(config: Config, id: u32)
    ensures
        !config.switches@.contains_key(id) ==> config.name(NameKind::Switch, id) == "game_switch_"@
            + nat_text(id as nat),
        !config.variables@.contains_key(id) ==> config.name(NameKind::Variable, id)
            == "game_variable_"@ + nat_text(id as nat),
        !config.common_events@.contains_key(id) ==> config.name(NameKind::CommonEvent, id)
            == "common_event_"@ + nat_text(id as nat),
        !config.actors@.contains_key(id) ==> config.name(NameKind::Actor, id) == "game_actor_"@
            + nat_text(id as nat),
        !config.skills@.contains_key(id) ==> config.name(NameKind::Skill, id) == "game_skill_"@
            + nat_text(id as nat),
        !config.items@.contains_key(id) ==> config.name(NameKind::Item, id) == "game_item_"@
            + nat_text(id as nat),
        !config.states@.contains_key(id) ==> config.name(NameKind::State, id) == "game_state_"@
            + nat_text(id as nat),
        !config.troops@.contains_key(id) ==> config.name(NameKind::Troop, id) == "game_troop_"@
            + nat_text(id as nat),
        !config.armors@.contains_key(id) ==> config.name(NameKind::Armor, id) == "game_armor_"@
            + nat_text(id as nat),
        !config.classes@.contains_key(id) ==> config.name(NameKind::Class, id) == "game_class_"@
            + nat_text(id as nat),
{
}

} // verus!
