//! The commands of an event, as decoded from the code and parameters of
//! each event command.
use crate::conditional_branch::{ConditionalBranchCommand, ConditionalBranchView};
use crate::json::{json_views, lemma_json_views, view_as_bool, view_as_i64, view_as_str, JsonValue, JsonView};
use crate::types::{AudioFile, AudioFileView, MoveRoute, MoveRouteView};
use vstd::prelude::*;

verus! {

/// A value given either directly or by the id of the variable that holds it.
#[derive(Debug, Clone, Copy, PartialEq, Eq)]
pub enum MaybeRef<T> {
    Constant(T),
    Ref(u32),
}

/// What a get-location-info command reads.
#[derive(Debug, Clone, Copy, PartialEq, Eq)]
pub enum GetLocationInfoKind {
    TerrainTag,
    EventId,
}

/// The kind of location info numbered `value`.
pub open spec fn location_info_kind(value: u8) -> Option<GetLocationInfoKind> {
    if value == 0 {
        Some(GetLocationInfoKind::TerrainTag)
    } else if value == 1 {
        Some(GetLocationInfoKind::EventId)
    } else {
        None
    }
}

impl GetLocationInfoKind {
    /// Get this from a u8.
    pub fn from_u8(value: u8) -> (r: Option<Self>)
        ensures
            r == location_info_kind(value),
    {
        match value {
            0 => Some(Self::TerrainTag),
            1 => Some(Self::EventId),
            _ => None,
        }
    }
}

/// How a battle names its troop.
#[derive(Debug, Clone, Copy, PartialEq, Eq)]
pub enum TroopIdKind {
    Constant,
    Variable,
    Random,
}

/// The troop id kind numbered `value`: any value past the known ones is random.
pub open spec fn troop_id_kind(value: u8) -> TroopIdKind {
    if value == 0 {
        TroopIdKind::Constant
    } else if value == 1 {
        TroopIdKind::Variable
    } else {
        TroopIdKind::Random
    }
}

impl TroopIdKind {
    /// Get this from a u8.
    pub fn from_u8(value: u8) -> (r: Self)
        ensures
            r == troop_id_kind(value),
    {
        match value {
            0 => Self::Constant,
            1 => Self::Variable,
            _ => Self::Random,
        }
    }
}

/// A command
#[derive(Debug)]
pub enum Command {
    Nop,
    ShowText {
        face_name: String,
        face_index: u32,
        background: u32,
        position_type: u32,
        lines: Vec<String>,
    },
    ShowChoices {
        choices: Vec<String>,
        cancel_type: i32,
        default_type: i64,
        position_type: u32,
        background: u32,
    },
    ShowScrollingText { speed: u32, no_fast: bool, lines: Vec<String> },
    Comment { comment: String },
    ConditionalBranch(ConditionalBranchCommand),
    ExitEventProcessing,
    CommonEvent { id: u32 },
    Label { name: String },
    JumpToLabel { name: String },
    ControlSwitches { start_id: u32, end_id: u32, value: bool },
    ControlSelfSwitch { key: String, value: bool },
    ControlTimer { start_seconds: Option<u32> },
    ChangeGold { is_add: bool, value: MaybeRef<u32> },
    ChangeItems { item_id: u32, is_add: bool, value: MaybeRef<u32> },
    ChangeArmors { armor_id: u32, is_add: bool, value: MaybeRef<u32>, include_equipped: bool },
    ChangePartyMember { actor_id: u32, is_add: bool, initialize: bool },
    ChangeSaveAccess { disable: bool },
    SetEventLocation {
        character_id: i32,
        x: MaybeRef<u32>,
        y: MaybeRef<u32>,
        direction: Option<u8>,
    },
    TransferPlayer {
        map_id: MaybeRef<u32>,
        x: MaybeRef<u32>,
        y: MaybeRef<u32>,
        direction: u8,
        fade_type: u8,
    },
    SetMovementRoute { character_id: i32, route: MoveRoute },
    ChangeTransparency { set_transparent: bool },
    ShowAnimation { character_id: i32, animation_id: u32, wait: bool },
    ShowBalloonIcon { character_id: i32, balloon_id: u32, wait: bool },
    ChangePlayerFollowers { is_show: bool },
    FadeoutScreen,
    FadeinScreen,
    TintScreen { tone: [i16; 4], duration: u32, wait: bool },
    FlashScreen { color: [u8; 4], duration: u32, wait: bool },
    ShakeScreen { power: u32, speed: u32, duration: u32, wait: bool },
    Wait { duration: u32 },
    ShowPicture {
        picture_id: u32,
        picture_name: String,
        origin: u32,
        x: MaybeRef<i32>,
        y: MaybeRef<i32>,
        scale_x: u32,
        scale_y: u32,
        opacity: u8,
        blend_mode: u8,
    },
    ErasePicture { picture_id: u32 },
    PlayBgm { audio: AudioFile },
    FadeoutBgm { duration: u32 },
    SaveBgm,
    ResumeBgm,
    PlayBgs { audio: AudioFile },
    FadeoutBgs { duration: u32 },
    PlaySe { audio: AudioFile },
    GetLocationInfo {
        variable_id: u32,
        kind: GetLocationInfoKind,
        x: MaybeRef<u32>,
        y: MaybeRef<u32>,
    },
    /// A battle; a troop of `None` is a random encounter's troop.
    BattleProcessing { troop_id: Option<MaybeRef<u32>>, can_escape: bool, can_lose: bool },
    NameInputProcessing { actor_id: u32, max_len: u32 },
    ChangeHp { actor_id: MaybeRef<u32>, is_add: bool, value: MaybeRef<u32>, allow_death: bool },
    ChangeMp { actor_id: MaybeRef<u32>, is_add: bool, value: MaybeRef<u32> },
    ChangeState { actor_id: MaybeRef<u32>, is_add_state: bool, state_id: u32 },
    ChangeLevel {
        actor_id: MaybeRef<u32>,
        is_add: bool,
        value: MaybeRef<u32>,
        show_level_up: bool,
    },
    ChangeSkill { actor_id: MaybeRef<u32>, is_learn_skill: bool, skill_id: u32 },
    ChangeClass { actor_id: u32, class_id: u32, keep_exp: bool },
    ChangeActorImages {
        actor_id: u32,
        character_name: String,
        character_index: u32,
        face_name: String,
        face_index: u32,
        battler_name: String,
    },
    ForceAction { is_enemy: bool, id: u32, skill_id: u32, target_index: u32 },
    AbortBattle,
    ReturnToTitleScreen,
    Script { lines: Vec<String> },
    PluginCommand { params: Vec<String> },
    When { choice_index: u32, choice_name: String },
    WhenCancel { choice_index: u32, choice_name: Option<String> },
    WhenEnd,
    Else,
    ConditionalBranchEnd,
    IfWin,
    IfEscape,
    IfLose,
    BattleResultEnd,
    Unknown { code: u32, parameters: Vec<JsonValue> },
}

/// The abstract value of a command: its texts as character sequences.
pub enum CommandView {
    Nop,
    ShowText {
        face_name: Seq<char>,
        face_index: u32,
        background: u32,
        position_type: u32,
        lines: Seq<Seq<char>>,
    },
    ShowChoices {
        choices: Seq<Seq<char>>,
        cancel_type: i32,
        default_type: i64,
        position_type: u32,
        background: u32,
    },
    ShowScrollingText { speed: u32, no_fast: bool, lines: Seq<Seq<char>> },
    Comment { comment: Seq<char> },
    ConditionalBranch(ConditionalBranchView),
    ExitEventProcessing,
    CommonEvent { id: u32 },
    Label { name: Seq<char> },
    JumpToLabel { name: Seq<char> },
    ControlSwitches { start_id: u32, end_id: u32, value: bool },
    ControlSelfSwitch { key: Seq<char>, value: bool },
    ControlTimer { start_seconds: Option<u32> },
    ChangeGold { is_add: bool, value: MaybeRef<u32> },
    ChangeItems { item_id: u32, is_add: bool, value: MaybeRef<u32> },
    ChangeArmors { armor_id: u32, is_add: bool, value: MaybeRef<u32>, include_equipped: bool },
    ChangePartyMember { actor_id: u32, is_add: bool, initialize: bool },
    ChangeSaveAccess { disable: bool },
    SetEventLocation {
        character_id: i32,
        x: MaybeRef<u32>,
        y: MaybeRef<u32>,
        direction: Option<u8>,
    },
    TransferPlayer {
        map_id: MaybeRef<u32>,
        x: MaybeRef<u32>,
        y: MaybeRef<u32>,
        direction: u8,
        fade_type: u8,
    },
    SetMovementRoute { character_id: i32, route: MoveRouteView },
    ChangeTransparency { set_transparent: bool },
    ShowAnimation { character_id: i32, animation_id: u32, wait: bool },
    ShowBalloonIcon { character_id: i32, balloon_id: u32, wait: bool },
    ChangePlayerFollowers { is_show: bool },
    FadeoutScreen,
    FadeinScreen,
    TintScreen { tone: Seq<i16>, duration: u32, wait: bool },
    FlashScreen { color: Seq<u8>, duration: u32, wait: bool },
    ShakeScreen { power: u32, speed: u32, duration: u32, wait: bool },
    Wait { duration: u32 },
    ShowPicture {
        picture_id: u32,
        picture_name: Seq<char>,
        origin: u32,
        x: MaybeRef<i32>,
        y: MaybeRef<i32>,
        scale_x: u32,
        scale_y: u32,
        opacity: u8,
        blend_mode: u8,
    },
    ErasePicture { picture_id: u32 },
    PlayBgm { audio: AudioFileView },
    FadeoutBgm { duration: u32 },
    SaveBgm,
    ResumeBgm,
    PlayBgs { audio: AudioFileView },
    FadeoutBgs { duration: u32 },
    PlaySe { audio: AudioFileView },
    GetLocationInfo {
        variable_id: u32,
        kind: GetLocationInfoKind,
        x: MaybeRef<u32>,
        y: MaybeRef<u32>,
    },
    BattleProcessing { troop_id: Option<MaybeRef<u32>>, can_escape: bool, can_lose: bool },
    NameInputProcessing { actor_id: u32, max_len: u32 },
    ChangeHp { actor_id: MaybeRef<u32>, is_add: bool, value: MaybeRef<u32>, allow_death: bool },
    ChangeMp { actor_id: MaybeRef<u32>, is_add: bool, value: MaybeRef<u32> },
    ChangeState { actor_id: MaybeRef<u32>, is_add_state: bool, state_id: u32 },
    ChangeLevel {
        actor_id: MaybeRef<u32>,
        is_add: bool,
        value: MaybeRef<u32>,
        show_level_up: bool,
    },
    ChangeSkill { actor_id: MaybeRef<u32>, is_learn_skill: bool, skill_id: u32 },
    ChangeClass { actor_id: u32, class_id: u32, keep_exp: bool },
    ChangeActorImages {
        actor_id: u32,
        character_name: Seq<char>,
        character_index: u32,
        face_name: Seq<char>,
        face_index: u32,
        battler_name: Seq<char>,
    },
    ForceAction { is_enemy: bool, id: u32, skill_id: u32, target_index: u32 },
    AbortBattle,
    ReturnToTitleScreen,
    Script { lines: Seq<Seq<char>> },
    PluginCommand { params: Seq<Seq<char>> },
    When { choice_index: u32, choice_name: Seq<char> },
    WhenCancel { choice_index: u32, choice_name: Option<Seq<char>> },
    WhenEnd,
    Else,
    ConditionalBranchEnd,
    IfWin,
    IfEscape,
    IfLose,
    BattleResultEnd,
    Unknown { code: u32, parameters: Seq<JsonView> },
}

/// The texts of a list of strings.
pub open spec fn texts(v: Seq<String>) -> Seq<Seq<char>> {
    v.map_values(|s: String| s@)
}

/// The texts of an optional string.
pub open spec fn opt_text(v: Option<String>) -> Option<Seq<char>> {
    match v {
        Some(s) => Some(s@),
        None => None,
    }
}

impl View for Command {
    type V = CommandView;

    open spec fn view(&self) -> CommandView {
        match *self {
            Command::Nop => CommandView::Nop,
            Command::ShowText { face_name, face_index, background, position_type, lines } =>
                CommandView::ShowText {
                face_name: face_name@,
                face_index,
                background,
                position_type,
                lines: texts(lines@),
            },
            Command::ShowChoices {
                choices,
                cancel_type,
                default_type,
                position_type,
                background,
            } => CommandView::ShowChoices {
                choices: texts(choices@),
                cancel_type,
                default_type,
                position_type,
                background,
            },
            Command::ShowScrollingText { speed, no_fast, lines } =>
                CommandView::ShowScrollingText { speed, no_fast, lines: texts(lines@) },
            Command::Comment { comment } => CommandView::Comment { comment: comment@ },
            Command::ConditionalBranch(c) => CommandView::ConditionalBranch(c@),
            Command::ExitEventProcessing => CommandView::ExitEventProcessing,
            Command::CommonEvent { id } => CommandView::CommonEvent { id },
            Command::Label { name } => CommandView::Label { name: name@ },
            Command::JumpToLabel { name } => CommandView::JumpToLabel { name: name@ },
            Command::ControlSwitches { start_id, end_id, value } =>
                CommandView::ControlSwitches { start_id, end_id, value },
            Command::ControlSelfSwitch { key, value } =>
                CommandView::ControlSelfSwitch { key: key@, value },
            Command::ControlTimer { start_seconds } => CommandView::ControlTimer { start_seconds },
            Command::ChangeGold { is_add, value } => CommandView::ChangeGold { is_add, value },
            Command::ChangeItems { item_id, is_add, value } =>
                CommandView::ChangeItems { item_id, is_add, value },
            Command::ChangeArmors { armor_id, is_add, value, include_equipped } =>
                CommandView::ChangeArmors { armor_id, is_add, value, include_equipped },
            Command::ChangePartyMember { actor_id, is_add, initialize } =>
                CommandView::ChangePartyMember { actor_id, is_add, initialize },
            Command::ChangeSaveAccess { disable } => CommandView::ChangeSaveAccess { disable },
            Command::SetEventLocation { character_id, x, y, direction } =>
                CommandView::SetEventLocation { character_id, x, y, direction },
            Command::TransferPlayer { map_id, x, y, direction, fade_type } =>
                CommandView::TransferPlayer { map_id, x, y, direction, fade_type },
            Command::SetMovementRoute { character_id, route } =>
                CommandView::SetMovementRoute { character_id, route: route@ },
            Command::ChangeTransparency { set_transparent } =>
                CommandView::ChangeTransparency { set_transparent },
            Command::ShowAnimation { character_id, animation_id, wait } =>
                CommandView::ShowAnimation { character_id, animation_id, wait },
            Command::ShowBalloonIcon { character_id, balloon_id, wait } =>
                CommandView::ShowBalloonIcon { character_id, balloon_id, wait },
            Command::ChangePlayerFollowers { is_show } =>
                CommandView::ChangePlayerFollowers { is_show },
            Command::FadeoutScreen => CommandView::FadeoutScreen,
            Command::FadeinScreen => CommandView::FadeinScreen,
            Command::TintScreen { tone, duration, wait } =>
                CommandView::TintScreen { tone: tone@, duration, wait },
            Command::FlashScreen { color, duration, wait } =>
                CommandView::FlashScreen { color: color@, duration, wait },
            Command::ShakeScreen { power, speed, duration, wait } =>
                CommandView::ShakeScreen { power, speed, duration, wait },
            Command::Wait { duration } => CommandView::Wait { duration },
            Command::ShowPicture {
                picture_id,
                picture_name,
                origin,
                x,
                y,
                scale_x,
                scale_y,
                opacity,
                blend_mode,
            } => CommandView::ShowPicture {
                picture_id,
                picture_name: picture_name@,
                origin,
                x,
                y,
                scale_x,
                scale_y,
                opacity,
                blend_mode,
            },
            Command::ErasePicture { picture_id } => CommandView::ErasePicture { picture_id },
            Command::PlayBgm { audio } => CommandView::PlayBgm { audio: audio@ },
            Command::FadeoutBgm { duration } => CommandView::FadeoutBgm { duration },
            Command::SaveBgm => CommandView::SaveBgm,
            Command::ResumeBgm => CommandView::ResumeBgm,
            Command::PlayBgs { audio } => CommandView::PlayBgs { audio: audio@ },
            Command::FadeoutBgs { duration } => CommandView::FadeoutBgs { duration },
            Command::PlaySe { audio } => CommandView::PlaySe { audio: audio@ },
            Command::GetLocationInfo { variable_id, kind, x, y } =>
                CommandView::GetLocationInfo { variable_id, kind, x, y },
            Command::BattleProcessing { troop_id, can_escape, can_lose } =>
                CommandView::BattleProcessing { troop_id, can_escape, can_lose },
            Command::NameInputProcessing { actor_id, max_len } =>
                CommandView::NameInputProcessing { actor_id, max_len },
            Command::ChangeHp { actor_id, is_add, value, allow_death } =>
                CommandView::ChangeHp { actor_id, is_add, value, allow_death },
            Command::ChangeMp { actor_id, is_add, value } =>
                CommandView::ChangeMp { actor_id, is_add, value },
            Command::ChangeState { actor_id, is_add_state, state_id } =>
                CommandView::ChangeState { actor_id, is_add_state, state_id },
            Command::ChangeLevel { actor_id, is_add, value, show_level_up } =>
                CommandView::ChangeLevel { actor_id, is_add, value, show_level_up },
            Command::ChangeSkill { actor_id, is_learn_skill, skill_id } =>
                CommandView::ChangeSkill { actor_id, is_learn_skill, skill_id },
            Command::ChangeClass { actor_id, class_id, keep_exp } =>
                CommandView::ChangeClass { actor_id, class_id, keep_exp },
            Command::ChangeActorImages {
                actor_id,
                character_name,
                character_index,
                face_name,
                face_index,
                battler_name,
            } => CommandView::ChangeActorImages {
                actor_id,
                character_name: character_name@,
                character_index,
                face_name: face_name@,
                face_index,
                battler_name: battler_name@,
            },
            Command::ForceAction { is_enemy, id, skill_id, target_index } =>
                CommandView::ForceAction { is_enemy, id, skill_id, target_index },
            Command::AbortBattle => CommandView::AbortBattle,
            Command::ReturnToTitleScreen => CommandView::ReturnToTitleScreen,
            Command::Script { lines } => CommandView::Script { lines: texts(lines@) },
            Command::PluginCommand { params } => CommandView::PluginCommand {
                params: texts(params@),
            },
            Command::When { choice_index, choice_name } =>
                CommandView::When { choice_index, choice_name: choice_name@ },
            Command::WhenCancel { choice_index, choice_name } =>
                CommandView::WhenCancel { choice_index, choice_name: opt_text(choice_name) },
            Command::WhenEnd => CommandView::WhenEnd,
            Command::Else => CommandView::Else,
            Command::ConditionalBranchEnd => CommandView::ConditionalBranchEnd,
            Command::IfWin => CommandView::IfWin,
            Command::IfEscape => CommandView::IfEscape,
            Command::IfLose => CommandView::IfLose,
            Command::BattleResultEnd => CommandView::BattleResultEnd,
            Command::Unknown { code, parameters } =>
                CommandView::Unknown { code, parameters: json_views(parameters@) },
        }
    }
}

// Reading parameters.

/// The integer at index `i`, where there is one that fits an `i64`.
pub open spec fn int_at(p: Seq<JsonView>, i: int) -> Option<i64> {
    if 0 <= i < p.len() {
        view_as_i64(p[i])
    } else {
        None
    }
}

/// The integer at index `i`, where it fits a `u32`.
pub open spec fn u32_at(p: Seq<JsonView>, i: int) -> Option<u32> {
    match int_at(p, i) {
        Some(v) => if 0 <= v <= u32::MAX {
            Some(v as u32)
        } else {
            None
        },
        None => None,
    }
}

/// The integer at index `i`, where it fits a `u8`.
pub open spec fn u8_at(p: Seq<JsonView>, i: int) -> Option<u8> {
    match int_at(p, i) {
        Some(v) => if 0 <= v <= u8::MAX {
            Some(v as u8)
        } else {
            None
        },
        None => None,
    }
}

/// The integer at index `i`, where it fits an `i32`.
pub open spec fn i32_at(p: Seq<JsonView>, i: int) -> Option<i32> {
    match int_at(p, i) {
        Some(v) => if i32::MIN <= v <= i32::MAX {
            Some(v as i32)
        } else {
            None
        },
        None => None,
    }
}

/// A 0-or-1 switch at index `i`: 0 reads as `true`, 1 as `false`.
pub open spec fn flag_at(p: Seq<JsonView>, i: int) -> Option<bool> {
    match u8_at(p, i) {
        Some(v) => if v <= 1 {
            Some(v == 0)
        } else {
            None
        },
        None => None,
    }
}

/// The boolean at index `i`.
pub open spec fn bool_at(p: Seq<JsonView>, i: int) -> Option<bool> {
    if 0 <= i < p.len() {
        view_as_bool(p[i])
    } else {
        None
    }
}

/// The string at index `i`.
pub open spec fn str_at(p: Seq<JsonView>, i: int) -> Option<Seq<char>> {
    if 0 <= i < p.len() {
        view_as_str(p[i])
    } else {
        None
    }
}

/// A value that is given directly where `constant` holds, else by variable id.
pub open spec fn maybe_ref(constant: bool, v: u32) -> MaybeRef<u32> {
    if constant {
        MaybeRef::Constant(v)
    } else {
        MaybeRef::Ref(v)
    }
}

/// Builds `maybe_ref(constant, v)`.
pub fn make_ref(constant: bool, v: u32) -> (r: MaybeRef<u32>)
    ensures
        r == maybe_ref(constant, v),
{
    if constant {
        MaybeRef::Constant(v)
    } else {
        MaybeRef::Ref(v)
    }
}

/// Reads `int_at`.
pub fn read_int(p: &Vec<JsonValue>, i: usize) -> (r: Option<i64>)
    ensures
        r == int_at(json_views(p@), i as int),
{
    proof {
        lemma_json_views(p@);
    }
    if i < p.len() {
        p[i].as_i64()
    } else {
        None
    }
}

/// Reads `u32_at`.
pub fn read_u32(p: &Vec<JsonValue>, i: usize) -> (r: Option<u32>)
    ensures
        r == u32_at(json_views(p@), i as int),
{
    match read_int(p, i) {
        Some(v) => if 0 <= v && v <= 4294967295 {
            Some(v as u32)
        } else {
            None
        },
        None => None,
    }
}

/// Reads `u8_at`.
pub fn read_u8(p: &Vec<JsonValue>, i: usize) -> (r: Option<u8>)
    ensures
        r == u8_at(json_views(p@), i as int),
{
    match read_int(p, i) {
        Some(v) => if 0 <= v && v <= 255 {
            Some(v as u8)
        } else {
            None
        },
        None => None,
    }
}

/// Reads `i32_at`.
pub fn read_i32(p: &Vec<JsonValue>, i: usize) -> (r: Option<i32>)
    ensures
        r == i32_at(json_views(p@), i as int),
{
    match read_int(p, i) {
        Some(v) => if -2147483648 <= v && v <= 2147483647 {
            Some(v as i32)
        } else {
            None
        },
        None => None,
    }
}

/// Reads `flag_at`.
pub fn read_flag(p: &Vec<JsonValue>, i: usize) -> (r: Option<bool>)
    ensures
        r == flag_at(json_views(p@), i as int),
{
    match read_u8(p, i) {
        Some(v) => if v <= 1 {
            Some(v == 0)
        } else {
            None
        },
        None => None,
    }
}

/// Reads `bool_at`.
pub fn read_bool(p: &Vec<JsonValue>, i: usize) -> (r: Option<bool>)
    ensures
        r == bool_at(json_views(p@), i as int),
{
    proof {
        lemma_json_views(p@);
    }
    if i < p.len() {
        p[i].as_bool()
    } else {
        None
    }
}

/// Reads `str_at`, as an owned string.
pub fn read_string(p: &Vec<JsonValue>, i: usize) -> (r: Option<String>)
    ensures
        match r {
            Some(s) => str_at(json_views(p@), i as int) == Some(s@),
            None => str_at(json_views(p@), i as int) is None,
        },
{
    proof {
        lemma_json_views(p@);
    }
    if i < p.len() {
        match p[i].as_str() {
            Some(s) => Some(s.clone()),
            None => None,
        }
    } else {
        None
    }
}

} // verus!
