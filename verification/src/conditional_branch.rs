//! The conditions of conditional-branch commands.
use crate::command::{
    flag_at, i32_at, make_ref, maybe_ref, read_flag, read_i32, read_string, read_u32, read_u8,
    str_at, u32_at, u8_at, MaybeRef,
};
use crate::json::{json_views, JsonValue, JsonView};
use vstd::prelude::*;

verus! {

/// What a conditional branch tests.
#[derive(Debug, Clone, Copy, PartialEq, Eq)]
pub enum ConditionalBranchKind {
    Switch,
    Variable,
    SelfSwitch,
    Timer,
    Actor,
    Enemy,
    Character,
    Gold,
    Item,
    Weapon,
    Armor,
    Button,
    Script,
}

/// The branch kind numbered `value`.
pub open spec fn branch_kind(value: u8) -> Option<ConditionalBranchKind> {
    if value == 0 {
        Some(ConditionalBranchKind::Switch)
    } else if value == 1 {
        Some(ConditionalBranchKind::Variable)
    } else if value == 2 {
        Some(ConditionalBranchKind::SelfSwitch)
    } else if value == 3 {
        Some(ConditionalBranchKind::Timer)
    } else if value == 4 {
        Some(ConditionalBranchKind::Actor)
    } else if value == 5 {
        Some(ConditionalBranchKind::Enemy)
    } else if value == 6 {
        Some(ConditionalBranchKind::Character)
    } else if value == 7 {
        Some(ConditionalBranchKind::Gold)
    } else if value == 8 {
        Some(ConditionalBranchKind::Item)
    } else if value == 9 {
        Some(ConditionalBranchKind::Weapon)
    } else if value == 10 {
        Some(ConditionalBranchKind::Armor)
    } else if value == 11 {
        Some(ConditionalBranchKind::Button)
    } else if value == 12 {
        Some(ConditionalBranchKind::Script)
    } else {
        None
    }
}

impl ConditionalBranchKind {
    /// Get this from a u8.
    pub fn from_u8(value: u8) -> (r: Option<Self>)
        ensures
            r == branch_kind(value),
    {
        match value {
            0 => Some(Self::Switch),
            1 => Some(Self::Variable),
            2 => Some(Self::SelfSwitch),
            3 => Some(Self::Timer),
            4 => Some(Self::Actor),
            5 => Some(Self::Enemy),
            6 => Some(Self::Character),
            7 => Some(Self::Gold),
            8 => Some(Self::Item),
            9 => Some(Self::Weapon),
            10 => Some(Self::Armor),
            11 => Some(Self::Button),
            12 => Some(Self::Script),
            _ => None,
        }
    }
}

/// The type of actor check
#[derive(Debug, Clone, Copy, PartialEq, Eq)]
pub enum ConditionalBranchKindActorCheck {
    InParty,
    Name,
    Class,
    Skill,
    Weapon,
    Armor,
    State,
}

/// The actor check numbered `value`.
pub open spec fn actor_check(value: u8) -> Option<ConditionalBranchKindActorCheck> {
    if value == 0 {
        Some(ConditionalBranchKindActorCheck::InParty)
    } else if value == 1 {
        Some(ConditionalBranchKindActorCheck::Name)
    } else if value == 2 {
        Some(ConditionalBranchKindActorCheck::Class)
    } else if value == 3 {
        Some(ConditionalBranchKindActorCheck::Skill)
    } else if value == 4 {
        Some(ConditionalBranchKindActorCheck::Weapon)
    } else if value == 5 {
        Some(ConditionalBranchKindActorCheck::Armor)
    } else if value == 6 {
        Some(ConditionalBranchKindActorCheck::State)
    } else {
        None
    }
}

impl ConditionalBranchKindActorCheck {
    /// Get this from a u8.
    pub fn from_u8(value: u8) -> (r: Option<Self>)
        ensures
            r == actor_check(value),
    {
        match value {
            0 => Some(Self::InParty),
            1 => Some(Self::Name),
            2 => Some(Self::Class),
            3 => Some(Self::Skill),
            4 => Some(Self::Weapon),
            5 => Some(Self::Armor),
            6 => Some(Self::State),
            _ => None,
        }
    }
}

/// The type of enemy check
#[derive(Debug, Clone, Copy, PartialEq, Eq)]
pub enum ConditionalBranchKindEnemyCheck {
    Appeared,
    State,
}

/// The enemy check numbered `value`.
pub open spec fn enemy_check(value: u8) -> Option<ConditionalBranchKindEnemyCheck> {
    if value == 0 {
        Some(ConditionalBranchKindEnemyCheck::Appeared)
    } else if value == 1 {
        Some(ConditionalBranchKindEnemyCheck::State)
    } else {
        None
    }
}

impl ConditionalBranchKindEnemyCheck {
    /// Get this from a u8.
    pub fn from_u8(value: u8) -> (r: Option<Self>)
        ensures
            r == enemy_check(value),
    {
        match value {
            0 => Some(Self::Appeared),
            1 => Some(Self::State),
            _ => None,
        }
    }
}

/// The type of gold check
#[derive(Debug, Clone, Copy, PartialEq, Eq)]
pub enum ConditionalBranchKindGoldCheck {
    Gte,
    Lte,
    Lt,
}

/// The gold check numbered `value`.
pub open spec fn gold_check(value: u8) -> Option<ConditionalBranchKindGoldCheck> {
    if value == 0 {
        Some(ConditionalBranchKindGoldCheck::Gte)
    } else if value == 1 {
        Some(ConditionalBranchKindGoldCheck::Lte)
    } else if value == 2 {
        Some(ConditionalBranchKindGoldCheck::Lt)
    } else {
        None
    }
}

/// The operator of a gold check.
pub open spec fn gold_check_text(c: ConditionalBranchKindGoldCheck) -> Seq<char> {
    match c {
        ConditionalBranchKindGoldCheck::Gte => ">="@,
        ConditionalBranchKindGoldCheck::Lte => "<="@,
        ConditionalBranchKindGoldCheck::Lt => "<"@,
    }
}

impl ConditionalBranchKindGoldCheck {
    /// Get this from a u8.
    pub fn from_u8(value: u8) -> (r: Option<Self>)
        ensures
            r == gold_check(value),
    {
        match value {
            0 => Some(Self::Gte),
            1 => Some(Self::Lte),
            2 => Some(Self::Lt),
            _ => None,
        }
    }

    /// Get this as a string.
    pub fn as_str(self) -> (r: &'static str)
        ensures
            r@ == gold_check_text(self),
    {
        match self {
            Self::Gte => ">=",
            Self::Lte => "<=",
            Self::Lt => "<",
        }
    }
}

/// The type of variable compare operation
#[derive(Debug, Clone, Copy, PartialEq, Eq)]
pub enum ConditionalBranchVariableOperation {
    /// ==
    EqualTo,
    /// >=
    Gte,
    /// <=
    Lte,
    /// >
    Gt,
    /// <
    Lt,
    /// !=
    Neq,
}

/// The comparison numbered `value`.
pub open spec fn variable_operation(value: u8) -> Option<ConditionalBranchVariableOperation> {
    if value == 0 {
        Some(ConditionalBranchVariableOperation::EqualTo)
    } else if value == 1 {
        Some(ConditionalBranchVariableOperation::Gte)
    } else if value == 2 {
        Some(ConditionalBranchVariableOperation::Lte)
    } else if value == 3 {
        Some(ConditionalBranchVariableOperation::Gt)
    } else if value == 4 {
        Some(ConditionalBranchVariableOperation::Lt)
    } else if value == 5 {
        Some(ConditionalBranchVariableOperation::Neq)
    } else {
        None
    }
}

/// The operator of a comparison.
pub open spec fn variable_operation_text(o: ConditionalBranchVariableOperation) -> Seq<char> {
    match o {
        ConditionalBranchVariableOperation::EqualTo => "=="@,
        ConditionalBranchVariableOperation::Gte => ">="@,
        ConditionalBranchVariableOperation::Lte => "<="@,
        ConditionalBranchVariableOperation::Gt => ">"@,
        ConditionalBranchVariableOperation::Lt => "<"@,
        ConditionalBranchVariableOperation::Neq => "!="@,
    }
}

impl ConditionalBranchVariableOperation {
    /// Get this from a u8.
    pub fn from_u8(value: u8) -> (r: Option<Self>)
        ensures
            r == variable_operation(value),
    {
        match value {
            0 => Some(Self::EqualTo),
            1 => Some(Self::Gte),
            2 => Some(Self::Lte),
            3 => Some(Self::Gt),
            4 => Some(Self::Lt),
            5 => Some(Self::Neq),
            _ => None,
        }
    }

    /// Get this as a str.
    pub fn as_str(self) -> (r: &'static str)
        ensures
            r@ == variable_operation_text(self),
    {
        match self {
            Self::EqualTo => "==",
            Self::Gte => ">=",
            Self::Lte => "<=",
            Self::Gt => ">",
            Self::Lt => "<",
            Self::Neq => "!=",
        }
    }
}

/// The condition of a conditional branch.
#[derive(Debug)]
pub enum ConditionalBranchCommand {
    Switch { id: u32, check_true: bool },
    Variable { lhs_id: u32, rhs_id: MaybeRef<u32>, operation: ConditionalBranchVariableOperation },
    SelfSwitch { name: String, check_true: bool },
    Timer { value: u32, is_gte: bool },
    ActorInParty { actor_id: u32 },
    ActorSkill { actor_id: u32, skill_id: u32 },
    ActorArmor { actor_id: u32, armor_id: u32 },
    ActorState { actor_id: u32, state_id: u32 },
    EnemyState { enemy_index: u32, state_id: u32 },
    Character { character_id: i32, direction: u8 },
    Gold { value: u32, check: ConditionalBranchKindGoldCheck },
    Item { item_id: u32 },
    Script { value: String },
}

/// The abstract value of a condition.
pub enum ConditionalBranchView {
    Switch { id: u32, check_true: bool },
    Variable { lhs_id: u32, rhs_id: MaybeRef<u32>, operation: ConditionalBranchVariableOperation },
    SelfSwitch { name: Seq<char>, check_true: bool },
    Timer { value: u32, is_gte: bool },
    ActorInParty { actor_id: u32 },
    ActorSkill { actor_id: u32, skill_id: u32 },
    ActorArmor { actor_id: u32, armor_id: u32 },
    ActorState { actor_id: u32, state_id: u32 },
    EnemyState { enemy_index: u32, state_id: u32 },
    Character { character_id: i32, direction: u8 },
    Gold { value: u32, check: ConditionalBranchKindGoldCheck },
    Item { item_id: u32 },
    Script { value: Seq<char> },
}

impl View for ConditionalBranchCommand {
    type V = ConditionalBranchView;

    open spec fn view(&self) -> ConditionalBranchView {
        match *self {
            ConditionalBranchCommand::Switch { id, check_true } =>
                ConditionalBranchView::Switch { id, check_true },
            ConditionalBranchCommand::Variable { lhs_id, rhs_id, operation } =>
                ConditionalBranchView::Variable { lhs_id, rhs_id, operation },
            ConditionalBranchCommand::SelfSwitch { name, check_true } =>
                ConditionalBranchView::SelfSwitch { name: name@, check_true },
            ConditionalBranchCommand::Timer { value, is_gte } =>
                ConditionalBranchView::Timer { value, is_gte },
            ConditionalBranchCommand::ActorInParty { actor_id } =>
                ConditionalBranchView::ActorInParty { actor_id },
            ConditionalBranchCommand::ActorSkill { actor_id, skill_id } =>
                ConditionalBranchView::ActorSkill { actor_id, skill_id },
            ConditionalBranchCommand::ActorArmor { actor_id, armor_id } =>
                ConditionalBranchView::ActorArmor { actor_id, armor_id },
            ConditionalBranchCommand::ActorState { actor_id, state_id } =>
                ConditionalBranchView::ActorState { actor_id, state_id },
            ConditionalBranchCommand::EnemyState { enemy_index, state_id } =>
                ConditionalBranchView::EnemyState { enemy_index, state_id },
            ConditionalBranchCommand::Character { character_id, direction } =>
                ConditionalBranchView::Character { character_id, direction },
            ConditionalBranchCommand::Gold { value, check } =>
                ConditionalBranchView::Gold { value, check },
            ConditionalBranchCommand::Item { item_id } => ConditionalBranchView::Item { item_id },
            ConditionalBranchCommand::Script { value } =>
                ConditionalBranchView::Script { value: value@ },
        }
    }
}

/// The condition that the parameters `p` of a conditional branch give, where
/// they give a supported one. The first parameter is the kind of condition.
pub open spec fn decode_conditional_branch(p: Seq<JsonView>) -> Option<ConditionalBranchView> {
    if p.len() == 0 {
        None
    } else {
        match u8_at(p, 0) {
            None => None,
            Some(k) => match branch_kind(k) {
                None => None,
                Some(kind) => decode_branch_of_kind(kind, p),
            },
        }
    }
}

/// The condition of the given kind that `p` gives.
pub open spec fn decode_branch_of_kind(kind: ConditionalBranchKind, p: Seq<JsonView>) -> Option<
    ConditionalBranchView,
> {
    match kind {
        ConditionalBranchKind::Switch => if p.len() == 3 {
            match (u32_at(p, 1), flag_at(p, 2)) {
                (Some(id), Some(check_true)) => Some(
                    ConditionalBranchView::Switch { id, check_true },
                ),
                _ => None,
            }
        } else {
            None
        },
        ConditionalBranchKind::Variable => if p.len() == 5 {
            match (u32_at(p, 1), u8_at(p, 2), u32_at(p, 3), u8_at(p, 4)) {
                (Some(lhs_id), Some(c), Some(rhs), Some(op)) => match variable_operation(op) {
                    Some(operation) => Some(
                        ConditionalBranchView::Variable {
                            lhs_id,
                            rhs_id: maybe_ref(c == 0, rhs),
                            operation,
                        },
                    ),
                    None => None,
                },
                _ => None,
            }
        } else {
            None
        },
        ConditionalBranchKind::SelfSwitch => if p.len() == 3 {
            match (str_at(p, 1), flag_at(p, 2)) {
                (Some(name), Some(check_true)) => Some(
                    ConditionalBranchView::SelfSwitch { name, check_true },
                ),
                _ => None,
            }
        } else {
            None
        },
        ConditionalBranchKind::Timer => if p.len() == 3 {
            match (u32_at(p, 1), flag_at(p, 2)) {
                (Some(value), Some(is_gte)) => Some(ConditionalBranchView::Timer { value, is_gte }),
                _ => None,
            }
        } else {
            None
        },
        ConditionalBranchKind::Actor => if p.len() >= 3 {
            match (u32_at(p, 1), u8_at(p, 2)) {
                (Some(actor_id), Some(c)) => match actor_check(c) {
                    Some(ConditionalBranchKindActorCheck::InParty) => if p.len() == 3 {
                        Some(ConditionalBranchView::ActorInParty { actor_id })
                    } else {
                        None
                    },
                    Some(ConditionalBranchKindActorCheck::Skill) => if p.len() == 4 {
                        match u32_at(p, 3) {
                            Some(skill_id) => Some(
                                ConditionalBranchView::ActorSkill { actor_id, skill_id },
                            ),
                            None => None,
                        }
                    } else {
                        None
                    },
                    Some(ConditionalBranchKindActorCheck::Armor) => if p.len() == 4 {
                        match u32_at(p, 3) {
                            Some(armor_id) => Some(
                                ConditionalBranchView::ActorArmor { actor_id, armor_id },
                            ),
                            None => None,
                        }
                    } else {
                        None
                    },
                    Some(ConditionalBranchKindActorCheck::State) => if p.len() == 4 {
                        match u32_at(p, 3) {
                            Some(state_id) => Some(
                                ConditionalBranchView::ActorState { actor_id, state_id },
                            ),
                            None => None,
                        }
                    } else {
                        None
                    },
                    _ => None,
                },
                _ => None,
            }
        } else {
            None
        },
        ConditionalBranchKind::Enemy => if p.len() >= 3 {
            match (u32_at(p, 1), u8_at(p, 2)) {
                (Some(enemy_index), Some(c)) => match enemy_check(c) {
                    Some(ConditionalBranchKindEnemyCheck::State) => if p.len() == 4 {
                        // The state id is read from the check's own slot.
                        match u32_at(p, 2) {
                            Some(state_id) => Some(
                                ConditionalBranchView::EnemyState { enemy_index, state_id },
                            ),
                            None => None,
                        }
                    } else {
                        None
                    },
                    _ => None,
                },
                _ => None,
            }
        } else {
            None
        },
        ConditionalBranchKind::Character => if p.len() == 3 {
            match (i32_at(p, 1), u8_at(p, 2)) {
                (Some(character_id), Some(direction)) => Some(
                    ConditionalBranchView::Character { character_id, direction },
                ),
                _ => None,
            }
        } else {
            None
        },
        ConditionalBranchKind::Gold => if p.len() == 3 {
            match (u32_at(p, 1), u8_at(p, 2)) {
                (Some(value), Some(c)) => match gold_check(c) {
                    Some(check) => Some(ConditionalBranchView::Gold { value, check }),
                    None => None,
                },
                _ => None,
            }
        } else {
            None
        },
        ConditionalBranchKind::Item => if p.len() == 2 {
            match u32_at(p, 1) {
                Some(item_id) => Some(ConditionalBranchView::Item { item_id }),
                None => None,
            }
        } else {
            None
        },
        ConditionalBranchKind::Script => if p.len() == 2 {
            match str_at(p, 1) {
                Some(value) => Some(ConditionalBranchView::Script { value }),
                None => None,
            }
        } else {
            None
        },
        _ => None,
    }
}

/// Decodes the parameters of a conditional branch.
pub fn parse_conditional_branch(p: &Vec<JsonValue>) -> (r: Option<ConditionalBranchCommand>)
    ensures
        match r {
            Some(c) => decode_conditional_branch(json_views(p@)) == Some(c@),
            None => decode_conditional_branch(json_views(p@)) is None,
        },
{
    let ghost v = json_views(p@);
    proof {
        crate::json::lemma_json_views(p@);
    }
    if p.len() == 0 {
        return None;
    }
    let k = read_u8(p, 0)?;
    let kind = ConditionalBranchKind::from_u8(k)?;
    let len = p.len();
    match kind {
        ConditionalBranchKind::Switch => {
            if len != 3 {
                return None;
            }
            let id = read_u32(p, 1)?;
            let check_true = read_flag(p, 2)?;
            Some(ConditionalBranchCommand::Switch { id, check_true })
        },
        ConditionalBranchKind::Variable => {
            if len != 5 {
                return None;
            }
            let lhs_id = read_u32(p, 1)?;
            let c = read_u8(p, 2)?;
            let rhs = read_u32(p, 3)?;
            let op = read_u8(p, 4)?;
            let operation = ConditionalBranchVariableOperation::from_u8(op)?;
            Some(ConditionalBranchCommand::Variable { lhs_id, rhs_id: make_ref(c == 0, rhs), operation })
        },
        ConditionalBranchKind::SelfSwitch => {
            if len != 3 {
                return None;
            }
            let name = read_string(p, 1)?;
            let check_true = read_flag(p, 2)?;
            Some(ConditionalBranchCommand::SelfSwitch { name, check_true })
        },
        ConditionalBranchKind::Timer => {
            if len != 3 {
                return None;
            }
            let value = read_u32(p, 1)?;
            let is_gte = read_flag(p, 2)?;
            Some(ConditionalBranchCommand::Timer { value, is_gte })
        },
        ConditionalBranchKind::Actor => {
            if len < 3 {
                return None;
            }
            let actor_id = read_u32(p, 1)?;
            let c = read_u8(p, 2)?;
            let check = ConditionalBranchKindActorCheck::from_u8(c)?;
            match check {
                ConditionalBranchKindActorCheck::InParty => {
                    if len != 3 {
                        return None;
                    }
                    Some(ConditionalBranchCommand::ActorInParty { actor_id })
                },
                ConditionalBranchKindActorCheck::Skill => {
                    if len != 4 {
                        return None;
                    }
                    let skill_id = read_u32(p, 3)?;
                    Some(ConditionalBranchCommand::ActorSkill { actor_id, skill_id })
                },
                ConditionalBranchKindActorCheck::Armor => {
                    if len != 4 {
                        return None;
                    }
                    let armor_id = read_u32(p, 3)?;
                    Some(ConditionalBranchCommand::ActorArmor { actor_id, armor_id })
                },
                ConditionalBranchKindActorCheck::State => {
                    if len != 4 {
                        return None;
                    }
                    let state_id = read_u32(p, 3)?;
                    Some(ConditionalBranchCommand::ActorState { actor_id, state_id })
                },
                _ => None,
            }
        },
        ConditionalBranchKind::Enemy => {
            if len < 3 {
                return None;
            }
            let enemy_index = read_u32(p, 1)?;
            let c = read_u8(p, 2)?;
            let check = ConditionalBranchKindEnemyCheck::from_u8(c)?;
            match check {
                ConditionalBranchKindEnemyCheck::State => {
                    if len != 4 {
                        return None;
                    }
                    let state_id = read_u32(p, 2)?;
                    Some(ConditionalBranchCommand::EnemyState { enemy_index, state_id })
                },
                _ => None,
            }
        },
        ConditionalBranchKind::Character => {
            if len != 3 {
                return None;
            }
            let character_id = read_i32(p, 1)?;
            let direction = read_u8(p, 2)?;
            Some(ConditionalBranchCommand::Character { character_id, direction })
        },
        ConditionalBranchKind::Gold => {
            if len != 3 {
                return None;
            }
            let value = read_u32(p, 1)?;
            let c = read_u8(p, 2)?;
            let check = ConditionalBranchKindGoldCheck::from_u8(c)?;
            Some(ConditionalBranchCommand::Gold { value, check })
        },
        ConditionalBranchKind::Item => {
            if len != 2 {
                return None;
            }
            let item_id = read_u32(p, 1)?;
            Some(ConditionalBranchCommand::Item { item_id })
        },
        ConditionalBranchKind::Script => {
            if len != 2 {
                return None;
            }
            let value = read_string(p, 1)?;
            Some(ConditionalBranchCommand::Script { value })
        },
        _ => None,
    }
}

} // verus!

verus! {

/// The comparison numbers of a variable branch: 0 `==`, 1 `>=`, 2 `<=`,
/// 3 `>`, 4 `<`, 5 `!=`; no other number is a comparison.
pub proof fn lemma_variable_operation_numbers(n: u8)
    ensures
        n == 0 ==> variable_operation_text(variable_operation(n)->0) == "=="@,
        n == 1 ==> variable_operation_text(variable_operation(n)->0) == ">="@,
        n == 2 ==> variable_operation_text(variable_operation(n)->0) == "<="@,
        n == 3 ==> variable_operation_text(variable_operation(n)->0) == ">"@,
        n == 4 ==> variable_operation_text(variable_operation(n)->0) == "<"@,
        n == 5 ==> variable_operation_text(variable_operation(n)->0) == "!="@,
        (variable_operation(n) is Some) == (n <= 5),
{
}

/// The gold check numbers: 0 `>=`, 1 `<=`, 2 `<`; no other number is a check.
pub proof fn lemma_gold_check_numbers(n: u8)
    ensures
        n == 0 ==> gold_check_text(gold_check(n)->0) == ">="@,
        n == 1 ==> gold_check_text(gold_check(n)->0) == "<="@,
        n == 2 ==> gold_check_text(gold_check(n)->0) == "<"@,
        (gold_check(n) is Some) == (n <= 2),
{
}

/// A timer branch `[3, value, op]` compares at least the value for op 0 and
/// at most the value for op 1.
pub proof fn lemma_timer_branch_decodes(value: u32, op: i64)
    requires
        0 <= op <= 1,
    ensures
        decode_conditional_branch(
            seq![JsonView::Int(3), JsonView::Int(value as i64), JsonView::Int(op)],
        ) == Some(ConditionalBranchView::Timer { value, is_gte: op == 0 }),
{
}

/// A switch branch `[0, id, op]` tests that the switch is on for op 0 and off
/// for op 1.
pub proof fn lemma_switch_branch_decodes(id: u32, op: i64)
    requires
        0 <= op <= 1,
    ensures
        decode_conditional_branch(
            seq![JsonView::Int(0), JsonView::Int(id as i64), JsonView::Int(op)],
        ) == Some(ConditionalBranchView::Switch { id, check_true: op == 0 }),
{
}

} // verus!
