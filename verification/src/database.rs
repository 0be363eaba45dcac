//! The database entries whose descriptions the line check reads: armors,
//! items, skills and weapons. Numbers that the game stores as floating point
//! are held as their decimal text.
use crate::text::owned;
use vstd::prelude::*;

verus! {

/// A trait of an armor.
#[derive(Debug, PartialEq, Clone)]
pub struct ArmorTrait {
    pub code: u32,
    pub data_id: u32,
    /// The value, as decimal text.
    pub value: String,
}

/// An armor.
#[derive(Debug, PartialEq, Clone)]
pub struct Armor {
    pub id: u32,
    pub a_type_id: u32,
    pub description: String,
    pub e_type_id: u32,
    pub traits: Vec<ArmorTrait>,
    pub icon_index: u32,
    pub name: String,
    pub note: String,
    pub params: Vec<i32>,
    /// The cost of the armor.
    pub price: u32,
}

/// The damage an item deals.
#[derive(Debug, PartialEq, Clone)]
pub struct ItemDamage {
    pub critical: bool,
    pub element_id: u32,
    pub formula: String,
    pub kind: u32,
    pub variance: u32,
}

/// An effect of an item.
#[derive(Debug, PartialEq, Clone)]
pub struct ItemEffect {
    pub code: u32,
    pub data_id: u32,
    /// The first value, as decimal text.
    pub value1: String,
    pub value2: u32,
}

/// An item.
#[derive(Debug, PartialEq, Clone)]
pub struct Item {
    pub id: u32,
    pub animation_id: u32,
    pub consumable: bool,
    pub damage: ItemDamage,
    pub description: String,
    pub effects: Vec<ItemEffect>,
    pub hit_type: u32,
    pub icon_index: u32,
    pub i_type_id: u32,
    pub name: String,
    pub note: String,
    pub occasion: u32,
    pub price: u32,
    pub repeats: u32,
    pub scope: u32,
    pub speed: u32,
    pub success_rate: u32,
    pub tp_gain: u32,
}

/// The damage a skill deals.
#[derive(Debug, PartialEq, Clone)]
pub struct SkillDamage {
    pub critical: bool,
    pub element_id: i32,
    pub formula: String,
    pub kind: u32,
    pub variance: u32,
}

/// An effect of a skill.
#[derive(Debug, PartialEq, Clone)]
pub struct SkillEffect {
    pub code: u32,
    pub data_id: u32,
    /// The first value, as decimal text.
    pub value1: String,
    pub value2: u32,
}

/// A skill.
#[derive(Debug, PartialEq, Clone)]
pub struct Skill {
    pub id: u32,
    pub animation_id: i32,
    pub damage: SkillDamage,
    pub description: String,
    pub effects: Vec<SkillEffect>,
    pub hit_type: u32,
    pub icon_index: u32,
    pub message1: String,
    pub message2: String,
    pub mp_cost: u32,
    pub name: String,
    pub note: String,
    pub occasion: u32,
    pub repeats: u32,
    pub required_w_type_id_1: u32,
    pub required_w_type_id_2: u32,
    pub scope: u32,
    pub speed: i32,
    pub s_type_id: u32,
    pub success_rate: u32,
    pub tp_cost: u32,
    pub tp_gain: u32,
    /// Only MZ games have it.
    pub message_type: Option<u32>,
}

/// A trait of a weapon.
#[derive(Debug, PartialEq, Clone)]
pub struct WeaponTrait {
    pub code: u32,
    pub data_id: u32,
    /// The value, as decimal text.
    pub value: String,
}

/// A weapon.
#[derive(Debug, PartialEq, Clone)]
pub struct Weapon {
    pub id: u32,
    pub animation_id: u32,
    pub description: String,
    pub e_type_id: u32,
    pub traits: Vec<WeaponTrait>,
    pub icon_index: u32,
    pub name: String,
    pub note: String,
    pub params: Vec<u32>,
    /// The weapon's price.
    pub price: u32,
    pub w_type_id: u32,
}

/// A database entry with a description.
pub trait HasDescription {
    /// The description.
    spec fn spec_description(&self) -> Seq<char>;

    /// The description.
    fn description(&self) -> (r: &str)
        ensures
            r@ == self.spec_description(),
    ;
}

impl HasDescription for Armor {
    open spec fn spec_description(&self) -> Seq<char> {
        self.description@
    }

    fn description(&self) -> (r: &str) {
        self.description.as_str()
    }
}

impl HasDescription for Item {
    open spec fn spec_description(&self) -> Seq<char> {
        self.description@
    }

    fn description(&self) -> (r: &str) {
        self.description.as_str()
    }
}

impl HasDescription for Skill {
    open spec fn spec_description(&self) -> Seq<char> {
        self.description@
    }

    fn description(&self) -> (r: &str) {
        self.description.as_str()
    }
}

impl HasDescription for Weapon {
    open spec fn spec_description(&self) -> Seq<char> {
        self.description@
    }

    fn description(&self) -> (r: &str) {
        self.description.as_str()
    }
}

/// The descriptions of the entries that are there, in order.
pub open spec fn descriptions_of<T: HasDescription>(entries: Seq<Option<T>>) -> Seq<Seq<char>>
    decreases entries.len(),
{
    if entries.len() == 0 {
        seq![]
    } else {
        let rest = descriptions_of(entries.drop_last());
        match entries.last() {
            Some(e) => rest.push(e.spec_description()),
            None => rest,
        }
    }
}

/// The descriptions of a database file's entries, skipping the empty slots.
pub fn entry_descriptions<T: HasDescription>(entries: &Vec<Option<T>>) -> (r: Vec<String>)
    ensures
        r@.map_values(|s: String| s@) == descriptions_of(entries@),
{
    let mut r: Vec<String> = Vec::new();
    let mut i: usize = 0;
    while i < entries.len()
        invariant
            i <= entries@.len(),
            r@.map_values(|s: String| s@) == descriptions_of(entries@.subrange(0, i as int)),
        decreases entries@.len() - i,
    {
        let ghost prefix = entries@.subrange(0, i + 1);
        assert(prefix.drop_last() =~= entries@.subrange(0, i as int));
        assert(prefix.last() == entries@[i as int]);
        match &entries[i] {
            Some(e) => {
                let d = owned(e.description());
                let ghost before = r@;
                r.push(d);
                assert(r@.map_values(|s: String| s@) =~= before.map_values(|s: String| s@).push(
                    d@,
                ));
            },
            None => {},
        }
        i = i + 1;
    }
    assert(entries@.subrange(0, entries@.len() as int) =~= entries@);
    r
}

} // verus!

verus! {

/// The description of every kind of database entry is its `description`
/// field, never its name or note.
pub proof fn lemma_description_is_description_field(a: Armor, i: Item, s: Skill, w: Weapon)
    ensures
        a.spec_description() == a.description@,
        i.spec_description() == i.description@,
        s.spec_description() == s.description@,
        w.spec_description() == w.description@,
{
}

/// The descriptions of a file's entries are the `description` fields of the
/// entries that are there, in order, and one for each such entry.
pub proof fn lemma_armor_descriptions(entries: Seq<Option<Armor>>)
    ensures
        descriptions_of(entries).len() == entries.filter(|e: Option<Armor>| e is Some).len(),
        forall|k: int|
            0 <= k < descriptions_of(entries).len() ==> descriptions_of(entries)[k]
                == entries.filter(|e: Option<Armor>| e is Some)[k]->0.description@,
    decreases entries.len(),
{
    reveal(Seq::filter);
    if entries.len() > 0 {
        lemma_armor_descriptions(entries.drop_last());
    }
}

} // verus!
