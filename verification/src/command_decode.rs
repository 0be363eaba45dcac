//! Decoding one event command, by its code, from its parameters.
use crate::code;
use crate::command::{
    bool_at, flag_at, i32_at, int_at, make_ref, maybe_ref, read_bool, read_flag, read_i32,
    read_int, read_string, read_u32, read_u8, str_at, u32_at, u8_at, Command, CommandView,
    GetLocationInfoKind, MaybeRef, location_info_kind, troop_id_kind, TroopIdKind,
};
use crate::conditional_branch::{decode_conditional_branch, parse_conditional_branch};
use crate::json::{json_views, lemma_json_views, JsonValue, JsonView};
use crate::param_reader::ParamReader;
use crate::text::{chars_of, push_char};
use crate::types::{
    clone_values, decode_audio_file, decode_audio_file_exec, decode_i16x4, decode_i16x4_exec,
    decode_move_route, decode_move_route_exec, decode_opt_string, decode_opt_string_exec,
    decode_strings, decode_strings_exec, decode_u8x4, decode_u8x4_exec, EventCommand,
};
use vstd::prelude::*;

verus! {

/// The pieces of `s` between its spaces, as `str::split(' ')` gives them.
pub open spec fn split_on_space(s: Seq<char>) -> Seq<Seq<char>>
    decreases s.len(),
{
    if s.len() == 0 {
        seq![seq![]]
    } else {
        let rest = split_on_space(s.drop_last());
        if s.last() == ' ' {
            rest.push(seq![])
        } else {
            rest.update(rest.len() - 1, rest.last().push(s.last()))
        }
    }
}

/// The list of strings in the array at index `i`.
pub open spec fn strings_at(p: Seq<JsonView>, i: int) -> Option<Seq<Seq<char>>> {
    if 0 <= i < p.len() {
        match p[i] {
            JsonView::Array(a) => decode_strings(a),
            _ => None,
        }
    } else {
        None
    }
}

/// A command without parameters.
pub open spec fn bare(p: Seq<JsonView>, c: CommandView) -> Option<CommandView> {
    if p.len() == 0 {
        Some(c)
    } else {
        None
    }
}

/// The command that an event command with the given code and parameters
/// stands for, where the parameters fit the code. A code without a decoding
/// of its own stands for an unknown command that keeps its parameters.
pub open spec fn decode_command(code: u32, p: Seq<JsonView>) -> Option<CommandView> {
    if code < 200 {
        decode_low(code, p)
    } else if code < 300 {
        decode_mid(code, p)
    } else {
        decode_high(code, p)
    }
}

/// An unknown command.
pub open spec fn unknown(code: u32, p: Seq<JsonView>) -> Option<CommandView> {
    Some(CommandView::Unknown { code, parameters: p })
}

/// `decode_command` for the codes below 200.
pub open spec fn decode_low(code: u32, p: Seq<JsonView>) -> Option<CommandView> {
    if code == code::NOP {
        bare(p, CommandView::Nop)
    } else if code == code::SHOW_TEXT {
        if p.len() == 4 {
            match (str_at(p, 0), u32_at(p, 1), u32_at(p, 2), u32_at(p, 3)) {
                (Some(face_name), Some(face_index), Some(background), Some(position_type)) => Some(
                    CommandView::ShowText {
                        face_name,
                        face_index,
                        background,
                        position_type,
                        lines: seq![],
                    },
                ),
                _ => None,
            }
        } else {
            None
        }
    } else if code == code::SHOW_CHOICES {
        if p.len() == 5 {
            match (strings_at(p, 0), i32_at(p, 1), int_at(p, 2), u32_at(p, 3), u32_at(p, 4)) {
                (
                    Some(choices),
                    Some(cancel_type),
                    Some(default_type),
                    Some(position_type),
                    Some(background),
                ) => Some(
                    CommandView::ShowChoices {
                        choices,
                        cancel_type,
                        default_type,
                        position_type,
                        background,
                    },
                ),
                _ => None,
            }
        } else {
            None
        }
    } else if code == code::SHOW_SCROLLING_TEXT {
        match (u32_at(p, 0), bool_at(p, 1)) {
            (Some(speed), Some(no_fast)) => Some(
                CommandView::ShowScrollingText { speed, no_fast, lines: seq![] },
            ),
            _ => None,
        }
    } else if code == code::COMMENT {
        if p.len() == 1 {
            match str_at(p, 0) {
                Some(comment) => Some(CommandView::Comment { comment }),
                None => None,
            }
        } else {
            None
        }
    } else if code == code::CONDITONAL_BRANCH {
        match decode_conditional_branch(p) {
            Some(c) => Some(CommandView::ConditionalBranch(c)),
            None => None,
        }
    } else if code == code::EXIT_EVENT_PROCESSING {
        bare(p, CommandView::ExitEventProcessing)
    } else if code == code::COMMON_EVENT {
        if p.len() == 1 {
            match u32_at(p, 0) {
                Some(id) => Some(CommandView::CommonEvent { id }),
                None => None,
            }
        } else {
            None
        }
    } else if code == code::LABEL {
        if p.len() == 1 {
            match str_at(p, 0) {
                Some(name) => Some(CommandView::Label { name }),
                None => None,
            }
        } else {
            None
        }
    } else if code == code::JUMP_TO_LABEL {
        if p.len() == 1 {
            match str_at(p, 0) {
                Some(name) => Some(CommandView::JumpToLabel { name }),
                None => None,
            }
        } else {
            None
        }
    } else if code == code::CONTROL_SWITCHES {
        if p.len() == 3 {
            match (u32_at(p, 0), u32_at(p, 1), flag_at(p, 2)) {
                (Some(start_id), Some(end_id), Some(value)) => Some(
                    CommandView::ControlSwitches { start_id, end_id, value },
                ),
                _ => None,
            }
        } else {
            None
        }
    } else if code == code::CONTROL_SELF_SWITCH {
        if p.len() == 2 {
            match (str_at(p, 0), flag_at(p, 1)) {
                (Some(key), Some(value)) => Some(CommandView::ControlSelfSwitch { key, value }),
                _ => None,
            }
        } else {
            None
        }
    } else if code == code::CONTROL_TIMER {
        if p.len() == 0 {
            None
        } else {
            match flag_at(p, 0) {
                Some(true) => if p.len() == 2 {
                    match u32_at(p, 1) {
                        Some(s) => Some(CommandView::ControlTimer { start_seconds: Some(s) }),
                        None => None,
                    }
                } else {
                    None
                },
                Some(false) => if p.len() == 1 {
                    Some(CommandView::ControlTimer { start_seconds: None })
                } else {
                    None
                },
                None => None,
            }
        }
    } else if code == code::CHANGE_GOLD {
        if p.len() == 3 {
            match (flag_at(p, 0), flag_at(p, 1), u32_at(p, 2)) {
                (Some(is_add), Some(c), Some(v)) => Some(
                    CommandView::ChangeGold { is_add, value: maybe_ref(c, v) },
                ),
                _ => None,
            }
        } else {
            None
        }
    } else if code == code::CHANGE_ITEMS {
        if p.len() == 4 {
            match (u32_at(p, 0), flag_at(p, 1), flag_at(p, 2), u32_at(p, 3)) {
                (Some(item_id), Some(is_add), Some(c), Some(v)) => Some(
                    CommandView::ChangeItems { item_id, is_add, value: maybe_ref(c, v) },
                ),
                _ => None,
            }
        } else {
            None
        }
    } else if code == code::CHANGE_ARMORS {
        if p.len() == 5 {
            match (u32_at(p, 0), flag_at(p, 1), flag_at(p, 2), u32_at(p, 3), bool_at(p, 4)) {
                (Some(armor_id), Some(is_add), Some(c), Some(v), Some(include_equipped)) => Some(
                    CommandView::ChangeArmors {
                        armor_id,
                        is_add,
                        value: maybe_ref(c, v),
                        include_equipped,
                    },
                ),
                _ => None,
            }
        } else {
            None
        }
    } else if code == code::CHANGE_PARTY_MEMBER {
        if p.len() == 3 {
            match (u32_at(p, 0), flag_at(p, 1), bool_at(p, 2)) {
                (Some(actor_id), Some(is_add), Some(initialize)) => Some(
                    CommandView::ChangePartyMember { actor_id, is_add, initialize },
                ),
                _ => None,
            }
        } else {
            None
        }
    } else if code == code::CHANGE_SAVE_ACCESS {
        if p.len() == 1 {
            match flag_at(p, 0) {
                Some(disable) => Some(CommandView::ChangeSaveAccess { disable }),
                None => None,
            }
        } else {
            None
        }
    } else {
        unknown(code, p)
    }
}

/// `decode_command` for the codes from 200 to 299.
pub open spec fn decode_mid(code: u32, p: Seq<JsonView>) -> Option<CommandView> {
    if code == code::TRANSFER_PLAYER {
        if p.len() == 6 {
            // The direction and the fade type are read from the slot of `y`.
            match (flag_at(p, 0), u32_at(p, 1), u32_at(p, 2), u32_at(p, 3), u8_at(p, 3)) {
                (Some(c), Some(map_id), Some(x), Some(y), Some(d)) => Some(
                    CommandView::TransferPlayer {
                        map_id: maybe_ref(c, map_id),
                        x: maybe_ref(c, x),
                        y: maybe_ref(c, y),
                        direction: d,
                        fade_type: d,
                    },
                ),
                _ => None,
            }
        } else {
            None
        }
    } else if code == code::SET_EVENT_LOCATION {
        if p.len() == 5 {
            match (i32_at(p, 0), flag_at(p, 1), u32_at(p, 2), u32_at(p, 3), u8_at(p, 4)) {
                (Some(character_id), Some(c), Some(x), Some(y), Some(d)) => Some(
                    CommandView::SetEventLocation {
                        character_id,
                        x: maybe_ref(c, x),
                        y: maybe_ref(c, y),
                        direction: if d == 0 {
                            None
                        } else {
                            Some(d)
                        },
                    },
                ),
                _ => None,
            }
        } else {
            None
        }
    } else if code == code::SET_MOVEMENT_ROUTE {
        if p.len() == 2 {
            match (i32_at(p, 0), decode_move_route(p[1])) {
                (Some(character_id), Some(route)) => Some(
                    CommandView::SetMovementRoute { character_id, route },
                ),
                _ => None,
            }
        } else {
            None
        }
    } else if code == code::CHANGE_TRANSPARENCY {
        if p.len() == 1 {
            match flag_at(p, 0) {
                Some(set_transparent) => Some(CommandView::ChangeTransparency { set_transparent }),
                None => None,
            }
        } else {
            None
        }
    } else if code == code::SHOW_ANIMATION {
        if p.len() == 3 {
            match (i32_at(p, 0), u32_at(p, 1), bool_at(p, 2)) {
                (Some(character_id), Some(animation_id), Some(wait)) => Some(
                    CommandView::ShowAnimation { character_id, animation_id, wait },
                ),
                _ => None,
            }
        } else {
            None
        }
    } else if code == code::SHOW_BALLOON_ICON {
        if p.len() == 3 {
            match (i32_at(p, 0), u32_at(p, 1), bool_at(p, 2)) {
                (Some(character_id), Some(balloon_id), Some(wait)) => Some(
                    CommandView::ShowBalloonIcon { character_id, balloon_id, wait },
                ),
                _ => None,
            }
        } else {
            None
        }
    } else if code == code::CHANGE_PLAYER_FOLLOWERS {
        if p.len() == 1 {
            match flag_at(p, 0) {
                Some(is_show) => Some(CommandView::ChangePlayerFollowers { is_show }),
                None => None,
            }
        } else {
            None
        }
    } else if code == code::FADEOUT_SCREEN {
        bare(p, CommandView::FadeoutScreen)
    } else if code == code::FADEIN_SCREEN {
        bare(p, CommandView::FadeinScreen)
    } else if code == code::TINT_SCREEN {
        if p.len() == 3 {
            match (decode_i16x4(p[0]), u32_at(p, 1), bool_at(p, 2)) {
                (Some(tone), Some(duration), Some(wait)) => Some(
                    CommandView::TintScreen { tone, duration, wait },
                ),
                _ => None,
            }
        } else {
            None
        }
    } else if code == code::FLASH_SCREEN {
        if p.len() == 3 {
            match (decode_u8x4(p[0]), u32_at(p, 1), bool_at(p, 2)) {
                (Some(color), Some(duration), Some(wait)) => Some(
                    CommandView::FlashScreen { color, duration, wait },
                ),
                _ => None,
            }
        } else {
            None
        }
    } else if code == code::SHAKE_SCREEN {
        if p.len() == 4 {
            match (u32_at(p, 0), u32_at(p, 1), u32_at(p, 2), bool_at(p, 3)) {
                (Some(power), Some(speed), Some(duration), Some(wait)) => Some(
                    CommandView::ShakeScreen { power, speed, duration, wait },
                ),
                _ => None,
            }
        } else {
            None
        }
    } else if code == code::WAIT {
        if p.len() == 1 {
            match u32_at(p, 0) {
                Some(duration) => Some(CommandView::Wait { duration }),
                None => None,
            }
        } else {
            None
        }
    } else if code == code::SHOW_PICTURE {
        decode_show_picture(p)
    } else if code == code::ERASE_PICTURE {
        if p.len() == 1 {
            match u32_at(p, 0) {
                Some(picture_id) => Some(CommandView::ErasePicture { picture_id }),
                None => None,
            }
        } else {
            None
        }
    } else if code == code::PLAY_BGM {
        if p.len() == 1 {
            match decode_audio_file(p[0]) {
                Some(audio) => Some(CommandView::PlayBgm { audio }),
                None => None,
            }
        } else {
            None
        }
    } else if code == code::FADEOUT_BGM {
        if p.len() == 1 {
            match u32_at(p, 0) {
                Some(duration) => Some(CommandView::FadeoutBgm { duration }),
                None => None,
            }
        } else {
            None
        }
    } else if code == code::SAVE_BGM {
        bare(p, CommandView::SaveBgm)
    } else if code == code::RESUME_BGM {
        bare(p, CommandView::ResumeBgm)
    } else if code == code::PLAY_BGS {
        if p.len() == 1 {
            match decode_audio_file(p[0]) {
                Some(audio) => Some(CommandView::PlayBgs { audio }),
                None => None,
            }
        } else {
            None
        }
    } else if code == code::FADEOUT_BGS {
        if p.len() == 1 {
            match u32_at(p, 0) {
                Some(duration) => Some(CommandView::FadeoutBgs { duration }),
                None => None,
            }
        } else {
            None
        }
    } else if code == code::PLAY_SE {
        if p.len() == 1 {
            match decode_audio_file(p[0]) {
                Some(audio) => Some(CommandView::PlaySe { audio }),
                None => None,
            }
        } else {
            None
        }
    } else if code == code::GET_LOCATION_INFO {
        if p.len() == 5 {
            match (u32_at(p, 0), u8_at(p, 1), flag_at(p, 2), u32_at(p, 3), u32_at(p, 4)) {
                (Some(variable_id), Some(k), Some(c), Some(x), Some(y)) => match location_info_kind(k) {
                    Some(kind) => Some(
                        CommandView::GetLocationInfo {
                            variable_id,
                            kind,
                            x: maybe_ref(c, x),
                            y: maybe_ref(c, y),
                        },
                    ),
                    None => None,
                },
                _ => None,
            }
        } else {
            None
        }
    } else {
        unknown(code, p)
    }
}

/// A show-picture command: a position given directly is signed, one given by
/// variables names the variables.
pub open spec fn decode_show_picture(p: Seq<JsonView>) -> Option<CommandView> {
    if p.len() == 10 {
        match (
            u32_at(p, 0),
            str_at(p, 1),
            u32_at(p, 2),
            flag_at(p, 3),
            int_at(p, 4),
            int_at(p, 5),
            u32_at(p, 6),
            u32_at(p, 7),
            u8_at(p, 8),
            u8_at(p, 9),
        ) {
            (
                Some(picture_id),
                Some(picture_name),
                Some(origin),
                Some(c),
                Some(x),
                Some(y),
                Some(scale_x),
                Some(scale_y),
                Some(opacity),
                Some(blend_mode),
            ) => {
                let fits = if c {
                    i32::MIN <= x <= i32::MAX && i32::MIN <= y <= i32::MAX
                } else {
                    0 <= x <= u32::MAX && 0 <= y <= u32::MAX
                };
                if fits {
                    Some(
                        CommandView::ShowPicture {
                            picture_id,
                            picture_name,
                            origin,
                            x: if c {
                                MaybeRef::Constant(x as i32)
                            } else {
                                MaybeRef::Ref(x as u32)
                            },
                            y: if c {
                                MaybeRef::Constant(y as i32)
                            } else {
                                MaybeRef::Ref(y as u32)
                            },
                            scale_x,
                            scale_y,
                            opacity,
                            blend_mode,
                        },
                    )
                } else {
                    None
                }
            },
            _ => None,
        }
    } else {
        None
    }
}

/// The troop of a battle, by the kind read from its first parameter.
pub open spec fn battle_troop(kind: TroopIdKind, id: u32) -> Option<MaybeRef<u32>> {
    match kind {
        TroopIdKind::Constant => Some(MaybeRef::Constant(id)),
        TroopIdKind::Variable => Some(MaybeRef::Ref(id)),
        TroopIdKind::Random => None,
    }
}

/// A change of an actor's value: the actor and the value are each given
/// directly or by variable.
pub open spec fn decode_change(p: Seq<JsonView>) -> Option<(MaybeRef<u32>, bool, MaybeRef<u32>)> {
    match (flag_at(p, 0), u32_at(p, 1), flag_at(p, 2), flag_at(p, 3), u32_at(p, 4)) {
        (Some(ca), Some(a), Some(is_add), Some(c), Some(v)) => Some(
            (maybe_ref(ca, a), is_add, maybe_ref(c, v)),
        ),
        _ => None,
    }
}

/// `decode_command` for the codes from 300 on.
pub open spec fn decode_high(code: u32, p: Seq<JsonView>) -> Option<CommandView> {
    if code == code::BATTLE_PROCESSING {
        if p.len() == 4 {
            match (u8_at(p, 0), u32_at(p, 1), bool_at(p, 2), bool_at(p, 3)) {
                (Some(k), Some(id), Some(can_escape), Some(can_lose)) => Some(
                    CommandView::BattleProcessing {
                        troop_id: battle_troop(troop_id_kind(k), id),
                        can_escape,
                        can_lose,
                    },
                ),
                _ => None,
            }
        } else {
            None
        }
    } else if code == code::NAME_INPUT_PROCESSING {
        if p.len() == 2 {
            match (u32_at(p, 0), u32_at(p, 1)) {
                (Some(actor_id), Some(max_len)) => Some(
                    CommandView::NameInputProcessing { actor_id, max_len },
                ),
                _ => None,
            }
        } else {
            None
        }
    } else if code == code::CHANGE_HP {
        if p.len() == 6 {
            match (decode_change(p), bool_at(p, 5)) {
                (Some((actor_id, is_add, value)), Some(allow_death)) => Some(
                    CommandView::ChangeHp { actor_id, is_add, value, allow_death },
                ),
                _ => None,
            }
        } else {
            None
        }
    } else if code == code::CHANGE_MP {
        if p.len() == 5 {
            match decode_change(p) {
                Some((actor_id, is_add, value)) => Some(
                    CommandView::ChangeMp { actor_id, is_add, value },
                ),
                None => None,
            }
        } else {
            None
        }
    } else if code == code::CHANGE_STATE {
        if p.len() == 4 {
            match (flag_at(p, 0), u32_at(p, 1), flag_at(p, 2), u32_at(p, 3)) {
                (Some(c), Some(a), Some(is_add_state), Some(state_id)) => Some(
                    CommandView::ChangeState { actor_id: maybe_ref(c, a), is_add_state, state_id },
                ),
                _ => None,
            }
        } else {
            None
        }
    } else if code == code::CHANGE_LEVEL {
        if p.len() == 6 {
            match (decode_change(p), bool_at(p, 5)) {
                (Some((actor_id, is_add, value)), Some(show_level_up)) => Some(
                    CommandView::ChangeLevel { actor_id, is_add, value, show_level_up },
                ),
                _ => None,
            }
        } else {
            None
        }
    } else if code == code::CHANGE_SKILL {
        if p.len() == 4 {
            match (flag_at(p, 0), u32_at(p, 1), flag_at(p, 2), u32_at(p, 3)) {
                (Some(c), Some(a), Some(is_learn_skill), Some(skill_id)) => Some(
                    CommandView::ChangeSkill {
                        actor_id: maybe_ref(c, a),
                        is_learn_skill,
                        skill_id,
                    },
                ),
                _ => None,
            }
        } else {
            None
        }
    } else if code == code::CHANGE_CLASS {
        if p.len() == 3 {
            match (u32_at(p, 0), u32_at(p, 1), bool_at(p, 2)) {
                (Some(actor_id), Some(class_id), Some(keep_exp)) => Some(
                    CommandView::ChangeClass { actor_id, class_id, keep_exp },
                ),
                _ => None,
            }
        } else {
            None
        }
    } else if code == code::CHANGE_ACTOR_IMAGES {
        if p.len() == 6 {
            match (
                u32_at(p, 0),
                str_at(p, 1),
                u32_at(p, 2),
                str_at(p, 3),
                u32_at(p, 4),
                str_at(p, 5),
            ) {
                (
                    Some(actor_id),
                    Some(character_name),
                    Some(character_index),
                    Some(face_name),
                    Some(face_index),
                    Some(battler_name),
                ) => Some(
                    CommandView::ChangeActorImages {
                        actor_id,
                        character_name,
                        character_index,
                        face_name,
                        face_index,
                        battler_name,
                    },
                ),
                _ => None,
            }
        } else {
            None
        }
    } else if code == code::FORCE_ACTION {
        if p.len() == 4 {
            // The id, the skill and the target are all read from the second slot.
            match (flag_at(p, 0), u32_at(p, 1)) {
                (Some(is_enemy), Some(id)) => Some(
                    CommandView::ForceAction { is_enemy, id, skill_id: id, target_index: id },
                ),
                _ => None,
            }
        } else {
            None
        }
    } else if code == code::ABORT_BATTLE {
        bare(p, CommandView::AbortBattle)
    } else if code == code::RETURN_TO_TITLE_SCREEN {
        bare(p, CommandView::ReturnToTitleScreen)
    } else if code == code::SCRIPT {
        if p.len() == 1 {
            match str_at(p, 0) {
                Some(line) => Some(CommandView::Script { lines: seq![line] }),
                None => None,
            }
        } else {
            None
        }
    } else if code == code::PLUGIN_COMMAND {
        if p.len() == 1 {
            match str_at(p, 0) {
                Some(s) => Some(CommandView::PluginCommand { params: split_on_space(s) }),
                None => None,
            }
        } else {
            None
        }
    } else if code == code::WHEN {
        if p.len() == 2 {
            match (u32_at(p, 0), str_at(p, 1)) {
                (Some(choice_index), Some(choice_name)) => Some(
                    CommandView::When { choice_index, choice_name },
                ),
                _ => None,
            }
        } else {
            None
        }
    } else if code == code::WHEN_CANCEL {
        if p.len() == 2 {
            match (u32_at(p, 0), decode_opt_string(p[1])) {
                (Some(choice_index), Some(choice_name)) => Some(
                    CommandView::WhenCancel { choice_index, choice_name },
                ),
                _ => None,
            }
        } else {
            None
        }
    } else if code == code::WHEN_END {
        bare(p, CommandView::WhenEnd)
    } else if code == code::ELSE {
        bare(p, CommandView::Else)
    } else if code == code::CONDITONAL_BRANCH_END {
        bare(p, CommandView::ConditionalBranchEnd)
    } else if code == code::IF_WIN {
        bare(p, CommandView::IfWin)
    } else if code == code::IF_ESCAPE {
        bare(p, CommandView::IfEscape)
    } else if code == code::IF_LOSE {
        bare(p, CommandView::IfLose)
    } else if code == code::BATTLE_RESULT_END {
        bare(p, CommandView::BattleResultEnd)
    } else {
        unknown(code, p)
    }
}

/// Whether decoding a command of this code and these parameters stays within
/// what can be read: a scrolling text reads its speed, and then its second
/// parameter, without checking that they are there.
pub open spec fn readable(code: u32, p: Seq<JsonView>) -> bool {
    code == code::SHOW_SCROLLING_TEXT ==> p.len() >= 2 || (p.len() == 1 && u32_at(p, 0) is None)
}

/// The pieces of `s` between its spaces.
pub fn split_spaces(s: &str) -> (r: Vec<String>)
    ensures
        texts_of(r@) == split_on_space(s@),
{
    let chars = chars_of(s);
    let mut parts: Vec<String> = Vec::new();
    let mut cur = String::new();
    let mut i: usize = 0;
    while i < chars.len()
        invariant
            i <= chars@.len(),
            chars@ == s@,
            texts_of(parts@).push(cur@) == split_on_space(s@.subrange(0, i as int)),
        decreases chars@.len() - i,
    {
        let c = chars[i];
        let ghost prefix = s@.subrange(0, i + 1);
        assert(prefix.drop_last() =~= s@.subrange(0, i as int));
        assert(prefix.last() == c);
        if c == ' ' {
            let done = cur;
            parts.push(done);
            cur = String::new();
            assert(texts_of(parts@) =~= texts_of(parts@.drop_last()).push(done@));
            assert(texts_of(parts@).push(cur@) =~= split_on_space(prefix));
        } else {
            let ghost before = cur@;
            push_char(&mut cur, c);
            assert(texts_of(parts@).push(cur@) =~= split_on_space(prefix));
        }
        i = i + 1;
    }
    assert(s@.subrange(0, chars@.len() as int) =~= s@);
    let ghost before = texts_of(parts@);
    parts.push(cur);
    assert(texts_of(parts@) =~= before.push(cur@));
    parts
}

/// The texts of a list of strings.
pub open spec fn texts_of(v: Seq<String>) -> Seq<Seq<char>> {
    v.map_values(|s: String| s@)
}

/// Reads `strings_at`.
fn read_strings(p: &Vec<JsonValue>, i: usize) -> (r: Option<Vec<String>>)
    ensures
        match r {
            Some(l) => strings_at(json_views(p@), i as int) == Some(texts_of(l@)),
            None => strings_at(json_views(p@), i as int) is None,
        },
{
    proof {
        lemma_json_views(p@);
    }
    if i < p.len() {
        decode_strings_exec(&p[i])
    } else {
        None
    }
}

/// Decodes one event command, by its code, from its parameters.
pub fn decode_event_command(e: &EventCommand) -> (r: Option<Command>)
    requires
        readable(e@.code, e@.parameters),
    ensures
        match r {
            Some(c) => decode_command(e@.code, e@.parameters) == Some(c@),
            None => decode_command(e@.code, e@.parameters) is None,
        },
{
    let code = e.code;
    let p = &e.parameters;
    if code < 200 {
        decode_low_exec(code, p)
    } else if code < 300 {
        decode_mid_exec(code, p)
    } else if code == code::BATTLE_PROCESSING {
        parse_battle_processing(e)
    } else {
        decode_high_exec(code, p)
    }
}

/// A copy of the parameters, as an unknown command keeps them.
fn unknown_exec(code: u32, p: &Vec<JsonValue>) -> (r: Option<Command>)
    ensures
        match r {
            Some(c) => unknown(code, json_views(p@)) == Some(c@),
            None => false,
        },
{
    let parameters = clone_values(p);
    Some(Command::Unknown { code, parameters })
}

/// Decodes the commands with codes below 200.
#[verifier::rlimit(40)]
fn decode_low_exec(code: u32, p: &Vec<JsonValue>) -> (r: Option<Command>)
    requires
        code < 200,
        readable(code, json_views(p@)),
    ensures
        match r {
            Some(c) => decode_low(code, json_views(p@)) == Some(c@),
            None => decode_low(code, json_views(p@)) is None,
        },
{
    let ghost v = json_views(p@);
    proof {
        lemma_json_views(p@);
    }
    let len = p.len();
    if code == code::NOP {
        if len != 0 {
            return None;
        }
        Some(Command::Nop)
    } else if code == code::SHOW_TEXT {
        if len != 4 {
            return None;
        }
        let face_name = read_string(p, 0)?;
        let face_index = read_u32(p, 1)?;
        let background = read_u32(p, 2)?;
        let position_type = read_u32(p, 3)?;
        let lines: Vec<String> = Vec::new();
        assert(texts_of(lines@) =~= seq![]);
        Some(Command::ShowText { face_name, face_index, background, position_type, lines })
    } else if code == code::SHOW_CHOICES {
        if len != 5 {
            return None;
        }
        let choices = read_strings(p, 0)?;
        let cancel_type = read_i32(p, 1)?;
        let default_type = read_int(p, 2)?;
        let position_type = read_u32(p, 3)?;
        let background = read_u32(p, 4)?;
        Some(Command::ShowChoices { choices, cancel_type, default_type, position_type, background })
    } else if code == code::SHOW_SCROLLING_TEXT {
        let speed = read_u32(p, 0)?;
        let no_fast = read_bool(p, 1)?;
        let lines: Vec<String> = Vec::new();
        assert(texts_of(lines@) =~= seq![]);
        Some(Command::ShowScrollingText { speed, no_fast, lines })
    } else if code == code::COMMENT {
        if len != 1 {
            return None;
        }
        let comment = read_string(p, 0)?;
        Some(Command::Comment { comment })
    } else if code == code::CONDITONAL_BRANCH {
        let c = parse_conditional_branch(p)?;
        Some(Command::ConditionalBranch(c))
    } else if code == code::EXIT_EVENT_PROCESSING {
        if len != 0 {
            return None;
        }
        Some(Command::ExitEventProcessing)
    } else if code == code::COMMON_EVENT {
        if len != 1 {
            return None;
        }
        let id = read_u32(p, 0)?;
        Some(Command::CommonEvent { id })
    } else if code == code::LABEL {
        if len != 1 {
            return None;
        }
        let name = read_string(p, 0)?;
        Some(Command::Label { name })
    } else if code == code::JUMP_TO_LABEL {
        if len != 1 {
            return None;
        }
        let name = read_string(p, 0)?;
        Some(Command::JumpToLabel { name })
    } else if code == code::CONTROL_SWITCHES {
        if len != 3 {
            return None;
        }
        let start_id = read_u32(p, 0)?;
        let end_id = read_u32(p, 1)?;
        let value = read_flag(p, 2)?;
        Some(Command::ControlSwitches { start_id, end_id, value })
    } else if code == code::CONTROL_SELF_SWITCH {
        if len != 2 {
            return None;
        }
        let key = read_string(p, 0)?;
        let value = read_flag(p, 1)?;
        Some(Command::ControlSelfSwitch { key, value })
    } else if code == code::CONTROL_TIMER {
        if len == 0 {
            return None;
        }
        let is_start = read_flag(p, 0)?;
        if is_start {
            if len != 2 {
                return None;
            }
            let s = read_u32(p, 1)?;
            Some(Command::ControlTimer { start_seconds: Some(s) })
        } else {
            if len != 1 {
                return None;
            }
            Some(Command::ControlTimer { start_seconds: None })
        }
    } else if code == code::CHANGE_GOLD {
        if len != 3 {
            return None;
        }
        let is_add = read_flag(p, 0)?;
        let c = read_flag(p, 1)?;
        let value = read_u32(p, 2)?;
        Some(Command::ChangeGold { is_add, value: make_ref(c, value) })
    } else if code == code::CHANGE_ITEMS {
        if len != 4 {
            return None;
        }
        let item_id = read_u32(p, 0)?;
        let is_add = read_flag(p, 1)?;
        let c = read_flag(p, 2)?;
        let value = read_u32(p, 3)?;
        Some(Command::ChangeItems { item_id, is_add, value: make_ref(c, value) })
    } else if code == code::CHANGE_ARMORS {
        if len != 5 {
            return None;
        }
        let armor_id = read_u32(p, 0)?;
        let is_add = read_flag(p, 1)?;
        let c = read_flag(p, 2)?;
        let value = read_u32(p, 3)?;
        let include_equipped = read_bool(p, 4)?;
        Some(Command::ChangeArmors { armor_id, is_add, value: make_ref(c, value), include_equipped })
    } else if code == code::CHANGE_PARTY_MEMBER {
        if len != 3 {
            return None;
        }
        let actor_id = read_u32(p, 0)?;
        let is_add = read_flag(p, 1)?;
        let initialize = read_bool(p, 2)?;
        Some(Command::ChangePartyMember { actor_id, is_add, initialize })
    } else if code == code::CHANGE_SAVE_ACCESS {
        if len != 1 {
            return None;
        }
        let disable = read_flag(p, 0)?;
        Some(Command::ChangeSaveAccess { disable })
    } else {
        unknown_exec(code, p)
    }
}

/// Decodes a show-picture command.
fn decode_show_picture_exec(p: &Vec<JsonValue>) -> (r: Option<Command>)
    ensures
        match r {
            Some(c) => decode_show_picture(json_views(p@)) == Some(c@),
            None => decode_show_picture(json_views(p@)) is None,
        },
{
    proof {
        lemma_json_views(p@);
    }
    if p.len() != 10 {
        return None;
    }
    let picture_id = read_u32(p, 0)?;
    let picture_name = read_string(p, 1)?;
    let origin = read_u32(p, 2)?;
    let c = read_flag(p, 3)?;
    let x = read_int(p, 4)?;
    let y = read_int(p, 5)?;
    let scale_x = read_u32(p, 6)?;
    let scale_y = read_u32(p, 7)?;
    let opacity = read_u8(p, 8)?;
    let blend_mode = read_u8(p, 9)?;
    let (x, y) = if c {
        if !(-2147483648 <= x && x <= 2147483647 && -2147483648 <= y && y <= 2147483647) {
            return None;
        }
        (MaybeRef::Constant(x as i32), MaybeRef::Constant(y as i32))
    } else {
        if !(0 <= x && x <= 4294967295 && 0 <= y && y <= 4294967295) {
            return None;
        }
        (MaybeRef::Ref(x as u32), MaybeRef::Ref(y as u32))
    };
    Some(
        Command::ShowPicture {
            picture_id,
            picture_name,
            origin,
            x,
            y,
            scale_x,
            scale_y,
            opacity,
            blend_mode,
        },
    )
}

/// Decodes the commands with codes from 200 to 299.
#[verifier::rlimit(40)]
fn decode_mid_exec(code: u32, p: &Vec<JsonValue>) -> (r: Option<Command>)
    requires
        200 <= code < 300,
    ensures
        match r {
            Some(c) => decode_mid(code, json_views(p@)) == Some(c@),
            None => decode_mid(code, json_views(p@)) is None,
        },
{
    let ghost v = json_views(p@);
    proof {
        lemma_json_views(p@);
    }
    let len = p.len();
    if code == code::TRANSFER_PLAYER {
        if len != 6 {
            return None;
        }
        let c = read_flag(p, 0)?;
        let map_id = read_u32(p, 1)?;
        let x = read_u32(p, 2)?;
        let y = read_u32(p, 3)?;
        let direction = read_u8(p, 3)?;
        let fade_type = read_u8(p, 3)?;
        Some(
            Command::TransferPlayer {
                map_id: make_ref(c, map_id),
                x: make_ref(c, x),
                y: make_ref(c, y),
                direction,
                fade_type,
            },
        )
    } else if code == code::SET_EVENT_LOCATION {
        if len != 5 {
            return None;
        }
        let character_id = read_i32(p, 0)?;
        let c = read_flag(p, 1)?;
        let x = read_u32(p, 2)?;
        let y = read_u32(p, 3)?;
        let d = read_u8(p, 4)?;
        let direction = if d == 0 {
            None
        } else {
            Some(d)
        };
        Some(
            Command::SetEventLocation {
                character_id,
                x: make_ref(c, x),
                y: make_ref(c, y),
                direction,
            },
        )
    } else if code == code::SET_MOVEMENT_ROUTE {
        if len != 2 {
            return None;
        }
        let character_id = read_i32(p, 0)?;
        let route = decode_move_route_exec(&p[1])?;
        Some(Command::SetMovementRoute { character_id, route })
    } else if code == code::CHANGE_TRANSPARENCY {
        if len != 1 {
            return None;
        }
        let set_transparent = read_flag(p, 0)?;
        Some(Command::ChangeTransparency { set_transparent })
    } else if code == code::SHOW_ANIMATION {
        if len != 3 {
            return None;
        }
        let character_id = read_i32(p, 0)?;
        let animation_id = read_u32(p, 1)?;
        let wait = read_bool(p, 2)?;
        Some(Command::ShowAnimation { character_id, animation_id, wait })
    } else if code == code::SHOW_BALLOON_ICON {
        if len != 3 {
            return None;
        }
        let character_id = read_i32(p, 0)?;
        let balloon_id = read_u32(p, 1)?;
        let wait = read_bool(p, 2)?;
        Some(Command::ShowBalloonIcon { character_id, balloon_id, wait })
    } else if code == code::CHANGE_PLAYER_FOLLOWERS {
        if len != 1 {
            return None;
        }
        let is_show = read_flag(p, 0)?;
        Some(Command::ChangePlayerFollowers { is_show })
    } else if code == code::FADEOUT_SCREEN {
        if len != 0 {
            return None;
        }
        Some(Command::FadeoutScreen)
    } else if code == code::FADEIN_SCREEN {
        if len != 0 {
            return None;
        }
        Some(Command::FadeinScreen)
    } else if code == code::TINT_SCREEN {
        if len != 3 {
            return None;
        }
        let tone = decode_i16x4_exec(&p[0])?;
        let duration = read_u32(p, 1)?;
        let wait = read_bool(p, 2)?;
        Some(Command::TintScreen { tone, duration, wait })
    } else if code == code::FLASH_SCREEN {
        if len != 3 {
            return None;
        }
        let color = decode_u8x4_exec(&p[0])?;
        let duration = read_u32(p, 1)?;
        let wait = read_bool(p, 2)?;
        Some(Command::FlashScreen { color, duration, wait })
    } else if code == code::SHAKE_SCREEN {
        if len != 4 {
            return None;
        }
        let power = read_u32(p, 0)?;
        let speed = read_u32(p, 1)?;
        let duration = read_u32(p, 2)?;
        let wait = read_bool(p, 3)?;
        Some(Command::ShakeScreen { power, speed, duration, wait })
    } else if code == code::WAIT {
        if len != 1 {
            return None;
        }
        let duration = read_u32(p, 0)?;
        Some(Command::Wait { duration })
    } else if code == code::SHOW_PICTURE {
        decode_show_picture_exec(p)
    } else if code == code::ERASE_PICTURE {
        if len != 1 {
            return None;
        }
        let picture_id = read_u32(p, 0)?;
        Some(Command::ErasePicture { picture_id })
    } else if code == code::PLAY_BGM {
        if len != 1 {
            return None;
        }
        let audio = decode_audio_file_exec(&p[0])?;
        Some(Command::PlayBgm { audio })
    } else if code == code::FADEOUT_BGM {
        if len != 1 {
            return None;
        }
        let duration = read_u32(p, 0)?;
        Some(Command::FadeoutBgm { duration })
    } else if code == code::SAVE_BGM {
        if len != 0 {
            return None;
        }
        Some(Command::SaveBgm)
    } else if code == code::RESUME_BGM {
        if len != 0 {
            return None;
        }
        Some(Command::ResumeBgm)
    } else if code == code::PLAY_BGS {
        if len != 1 {
            return None;
        }
        let audio = decode_audio_file_exec(&p[0])?;
        Some(Command::PlayBgs { audio })
    } else if code == code::FADEOUT_BGS {
        if len != 1 {
            return None;
        }
        let duration = read_u32(p, 0)?;
        Some(Command::FadeoutBgs { duration })
    } else if code == code::PLAY_SE {
        if len != 1 {
            return None;
        }
        let audio = decode_audio_file_exec(&p[0])?;
        Some(Command::PlaySe { audio })
    } else if code == code::GET_LOCATION_INFO {
        if len != 5 {
            return None;
        }
        let variable_id = read_u32(p, 0)?;
        let k = read_u8(p, 1)?;
        let kind = GetLocationInfoKind::from_u8(k)?;
        let c = read_flag(p, 2)?;
        let x = read_u32(p, 3)?;
        let y = read_u32(p, 4)?;
        Some(Command::GetLocationInfo { variable_id, kind, x: make_ref(c, x), y: make_ref(c, y) })
    } else {
        unknown_exec(code, p)
    }
}

/// Decodes a battle command.
fn parse_battle_processing(e: &EventCommand) -> (r: Option<Command>)
    requires
        e@.code == code::BATTLE_PROCESSING,
    ensures
        match r {
            Some(c) => decode_high(e@.code, e@.parameters) == Some(c@),
            None => decode_high(e@.code, e@.parameters) is None,
        },
{
    let reader = ParamReader::new(e);
    proof {
        lemma_json_views(e.parameters@);
        assert(reader.command@ == e@);
    }
    if reader.ensure_len_is(4).is_err() {
        return None;
    }
    let k = match reader.read_u8_at(0) {
        Ok(k) => k,
        Err(_) => return None,
    };
    let kind = TroopIdKind::from_u8(k);
    let id = match reader.read_u32_at(1) {
        Ok(id) => id,
        Err(_) => return None,
    };
    let troop_id = match kind {
        TroopIdKind::Constant => Some(MaybeRef::Constant(id)),
        TroopIdKind::Variable => Some(MaybeRef::Ref(id)),
        TroopIdKind::Random => None,
    };
    let can_escape = match reader.read_bool_at(2) {
        Ok(b) => b,
        Err(_) => return None,
    };
    let can_lose = match reader.read_bool_at(3) {
        Ok(b) => b,
        Err(_) => return None,
    };
    Some(Command::BattleProcessing { troop_id, can_escape, can_lose })
}

/// Decodes the actor, the sign and the value of a change of an actor's value.
fn read_change(p: &Vec<JsonValue>) -> (r: Option<(MaybeRef<u32>, bool, MaybeRef<u32>)>)
    ensures
        r == decode_change(json_views(p@)),
{
    let ca = read_flag(p, 0)?;
    let a = read_u32(p, 1)?;
    let is_add = read_flag(p, 2)?;
    let c = read_flag(p, 3)?;
    let v = read_u32(p, 4)?;
    Some((make_ref(ca, a), is_add, make_ref(c, v)))
}

/// Decodes the commands with codes from 300 on.
#[verifier::rlimit(40)]
fn decode_high_exec(code: u32, p: &Vec<JsonValue>) -> (r: Option<Command>)
    requires
        300 <= code,
        code != code::BATTLE_PROCESSING,
    ensures
        match r {
            Some(c) => decode_high(code, json_views(p@)) == Some(c@),
            None => decode_high(code, json_views(p@)) is None,
        },
{
    let ghost v = json_views(p@);
    proof {
        lemma_json_views(p@);
    }
    let len = p.len();
    if code == code::NAME_INPUT_PROCESSING {
        if len != 2 {
            return None;
        }
        let actor_id = read_u32(p, 0)?;
        let max_len = read_u32(p, 1)?;
        Some(Command::NameInputProcessing { actor_id, max_len })
    } else if code == code::CHANGE_HP {
        if len != 6 {
            return None;
        }
        let (actor_id, is_add, value) = read_change(p)?;
        let allow_death = read_bool(p, 5)?;
        Some(Command::ChangeHp { actor_id, is_add, value, allow_death })
    } else if code == code::CHANGE_MP {
        if len != 5 {
            return None;
        }
        let (actor_id, is_add, value) = read_change(p)?;
        Some(Command::ChangeMp { actor_id, is_add, value })
    } else if code == code::CHANGE_STATE {
        if len != 4 {
            return None;
        }
        let c = read_flag(p, 0)?;
        let a = read_u32(p, 1)?;
        let is_add_state = read_flag(p, 2)?;
        let state_id = read_u32(p, 3)?;
        Some(Command::ChangeState { actor_id: make_ref(c, a), is_add_state, state_id })
    } else if code == code::CHANGE_LEVEL {
        if len != 6 {
            return None;
        }
        let (actor_id, is_add, value) = read_change(p)?;
        let show_level_up = read_bool(p, 5)?;
        Some(Command::ChangeLevel { actor_id, is_add, value, show_level_up })
    } else if code == code::CHANGE_SKILL {
        if len != 4 {
            return None;
        }
        let c = read_flag(p, 0)?;
        let a = read_u32(p, 1)?;
        let is_learn_skill = read_flag(p, 2)?;
        let skill_id = read_u32(p, 3)?;
        Some(Command::ChangeSkill { actor_id: make_ref(c, a), is_learn_skill, skill_id })
    } else if code == code::CHANGE_CLASS {
        if len != 3 {
            return None;
        }
        let actor_id = read_u32(p, 0)?;
        let class_id = read_u32(p, 1)?;
        let keep_exp = read_bool(p, 2)?;
        Some(Command::ChangeClass { actor_id, class_id, keep_exp })
    } else if code == code::CHANGE_ACTOR_IMAGES {
        if len != 6 {
            return None;
        }
        let actor_id = read_u32(p, 0)?;
        let character_name = read_string(p, 1)?;
        let character_index = read_u32(p, 2)?;
        let face_name = read_string(p, 3)?;
        let face_index = read_u32(p, 4)?;
        let battler_name = read_string(p, 5)?;
        Some(
            Command::ChangeActorImages {
                actor_id,
                character_name,
                character_index,
                face_name,
                face_index,
                battler_name,
            },
        )
    } else if code == code::FORCE_ACTION {
        if len != 4 {
            return None;
        }
        let is_enemy = read_flag(p, 0)?;
        let id = read_u32(p, 1)?;
        let skill_id = read_u32(p, 1)?;
        let target_index = read_u32(p, 1)?;
        Some(Command::ForceAction { is_enemy, id, skill_id, target_index })
    } else if code == code::ABORT_BATTLE {
        if len != 0 {
            return None;
        }
        Some(Command::AbortBattle)
    } else if code == code::RETURN_TO_TITLE_SCREEN {
        if len != 0 {
            return None;
        }
        Some(Command::ReturnToTitleScreen)
    } else if code == code::SCRIPT {
        if len != 1 {
            return None;
        }
        let line = read_string(p, 0)?;
        let mut lines: Vec<String> = Vec::new();
        lines.push(line);
        assert(crate::command::texts(lines@) =~= seq![line@]);
        Some(Command::Script { lines })
    } else if code == code::PLUGIN_COMMAND {
        if len != 1 {
            return None;
        }
        let s = read_string(p, 0)?;
        let params = split_spaces(s.as_str());
        assert(crate::command::texts(params@) == texts_of(params@));
        Some(Command::PluginCommand { params })
    } else if code == code::WHEN {
        if len != 2 {
            return None;
        }
        let choice_index = read_u32(p, 0)?;
        let choice_name = read_string(p, 1)?;
        Some(Command::When { choice_index, choice_name })
    } else if code == code::WHEN_CANCEL {
        if len != 2 {
            return None;
        }
        let choice_index = read_u32(p, 0)?;
        let choice_name = decode_opt_string_exec(&p[1])?;
        Some(Command::WhenCancel { choice_index, choice_name })
    } else if code == code::WHEN_END {
        if len != 0 {
            return None;
        }
        Some(Command::WhenEnd)
    } else if code == code::ELSE {
        if len != 0 {
            return None;
        }
        Some(Command::Else)
    } else if code == code::CONDITONAL_BRANCH_END {
        if len != 0 {
            return None;
        }
        Some(Command::ConditionalBranchEnd)
    } else if code == code::IF_WIN {
        if len != 0 {
            return None;
        }
        Some(Command::IfWin)
    } else if code == code::IF_ESCAPE {
        if len != 0 {
            return None;
        }
        Some(Command::IfEscape)
    } else if code == code::IF_LOSE {
        if len != 0 {
            return None;
        }
        Some(Command::IfLose)
    } else if code == code::BATTLE_RESULT_END {
        if len != 0 {
            return None;
        }
        Some(Command::BattleResultEnd)
    } else {
        unknown_exec(code, p)
    }
}

} // verus!

verus! {

/// The value an operand type and a number stand for: operand type 0 is a
/// constant, 1 the number of a variable.
pub open spec fn operand_value(operand: i64, v: u32) -> MaybeRef<u32> {
    if operand == 0 {
        MaybeRef::Constant(v)
    } else {
        MaybeRef::Ref(v)
    }
}

/// Change Gold `[op, operand, value]`: operation 0 adds, 1 takes away.
pub proof fn lemma_change_gold_sign(op: i64, operand: i64, value: u32)
    requires
        0 <= op <= 1,
        0 <= operand <= 1,
    ensures
        decode_command(
            125,
            seq![JsonView::Int(op), JsonView::Int(operand), JsonView::Int(value as i64)],
        ) == Some(CommandView::ChangeGold { is_add: op == 0, value: operand_value(operand, value) }),
{
}

/// Change Items `[item, op, operand, value]`: operation 0 gives the party the
/// items, 1 takes them away.
pub proof fn lemma_change_items_sign(item: u32, op: i64, operand: i64, value: u32)
    requires
        0 <= op <= 1,
        0 <= operand <= 1,
    ensures
        decode_command(
            126,
            seq![
                JsonView::Int(item as i64),
                JsonView::Int(op),
                JsonView::Int(operand),
                JsonView::Int(value as i64),
            ],
        ) == Some(
            CommandView::ChangeItems {
                item_id: item,
                is_add: op == 0,
                value: operand_value(operand, value),
            },
        ),
{
}

/// Change Armors `[armor, op, operand, value, include_equipped]`: operation 0
/// gives the party the armors, 1 takes them away.
pub proof fn lemma_change_armors_sign(
    armor: u32,
    op: i64,
    operand: i64,
    value: u32,
    include_equipped: bool,
)
    requires
        0 <= op <= 1,
        0 <= operand <= 1,
    ensures
        decode_command(
            128,
            seq![
                JsonView::Int(armor as i64),
                JsonView::Int(op),
                JsonView::Int(operand),
                JsonView::Int(value as i64),
                JsonView::Bool(include_equipped),
            ],
        ) == Some(
            CommandView::ChangeArmors {
                armor_id: armor,
                is_add: op == 0,
                value: operand_value(operand, value),
                include_equipped,
            },
        ),
{
}

/// Change Party Member `[actor, op, initialize]`: operation 0 adds the actor,
/// 1 removes it.
pub proof fn lemma_change_party_member_sign(actor: u32, op: i64, initialize: bool)
    requires
        0 <= op <= 1,
    ensures
        decode_command(
            129,
            seq![JsonView::Int(actor as i64), JsonView::Int(op), JsonView::Bool(initialize)],
        ) == Some(CommandView::ChangePartyMember { actor_id: actor, is_add: op == 0, initialize }),
{
}

/// An operation other than 0 or 1 does not decode: Change Items with any
/// other operation number is refused.
pub proof fn lemma_change_items_bad_op(item: u32, op: i64, operand: i64, value: u32)
    requires
        op < 0 || op > 1,
    ensures
        decode_command(
            126,
            seq![
                JsonView::Int(item as i64),
                JsonView::Int(op),
                JsonView::Int(operand),
                JsonView::Int(value as i64),
            ],
        ) is None,
{
}

/// Control Switches `[start, end, op]`: operation 0 turns the switches on,
/// 1 turns them off.
pub proof fn lemma_control_switches_value(start: u32, end: u32, op: i64)
    requires
        0 <= op <= 1,
    ensures
        decode_command(
            121,
            seq![JsonView::Int(start as i64), JsonView::Int(end as i64), JsonView::Int(op)],
        ) == Some(CommandView::ControlSwitches { start_id: start, end_id: end, value: op == 0 }),
{
}

/// Control Self Switch `[key, op]`: operation 0 turns the switch on, 1 off.
pub proof fn lemma_control_self_switch_value(key: Seq<char>, op: i64)
    requires
        0 <= op <= 1,
    ensures
        decode_command(123, seq![JsonView::Str(key), JsonView::Int(op)]) == Some(
            CommandView::ControlSelfSwitch { key, value: op == 0 },
        ),
{
}

/// Control Timer: `[0, seconds]` starts the timer, `[1]` stops it.
pub proof fn lemma_control_timer(seconds: u32)
    ensures
        decode_command(124, seq![JsonView::Int(0), JsonView::Int(seconds as i64)]) == Some(
            CommandView::ControlTimer { start_seconds: Some(seconds) },
        ),
        decode_command(124, seq![JsonView::Int(1)]) == Some(
            CommandView::ControlTimer { start_seconds: None },
        ),
{
}

/// Change State `[operand, actor, op, state]`: operation 0 adds the state,
/// 1 removes it.
pub proof fn lemma_change_state_sign(operand: i64, actor: u32, op: i64, state: u32)
    requires
        0 <= op <= 1,
        0 <= operand <= 1,
    ensures
        decode_command(
            313,
            seq![
                JsonView::Int(operand),
                JsonView::Int(actor as i64),
                JsonView::Int(op),
                JsonView::Int(state as i64),
            ],
        ) == Some(
            CommandView::ChangeState {
                actor_id: operand_value(operand, actor),
                is_add_state: op == 0,
                state_id: state,
            },
        ),
{
}

/// Change Skill `[operand, actor, op, skill]`: operation 0 teaches the skill,
/// 1 makes the actor forget it.
pub proof fn lemma_change_skill_sign(operand: i64, actor: u32, op: i64, skill: u32)
    requires
        0 <= op <= 1,
        0 <= operand <= 1,
    ensures
        decode_command(
            318,
            seq![
                JsonView::Int(operand),
                JsonView::Int(actor as i64),
                JsonView::Int(op),
                JsonView::Int(skill as i64),
            ],
        ) == Some(
            CommandView::ChangeSkill {
                actor_id: operand_value(operand, actor),
                is_learn_skill: op == 0,
                skill_id: skill,
            },
        ),
{
}

/// Change Save Access `[op]`: operation 0 disables saving, 1 enables it.
pub proof fn lemma_change_save_access(op: i64)
    requires
        0 <= op <= 1,
    ensures
        decode_command(134, seq![JsonView::Int(op)]) == Some(
            CommandView::ChangeSaveAccess { disable: op == 0 },
        ),
{
}

} // verus!
