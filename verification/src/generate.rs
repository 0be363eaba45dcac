//! Writing decoded commands as Python-like code, one statement per command,
//! indented by the command's indent.
use crate::command::{Command, CommandView, GetLocationInfoKind, MaybeRef};
use crate::conditional_branch::{
    gold_check_text, variable_operation_text, ConditionalBranchCommand, ConditionalBranchView,
};
use crate::config::{Config, NameKind};
use crate::decimal::{int_text, nat_text, push_i64, push_u64};
use crate::function_call_writer::{
    audio_value_text, bool_text, call_close, call_open, escape, escape_string, field_line,
    json_items_debug, param_piece, push_bool, push_json_list_debug, push_quoted, quoted, tabs,
    write_indent, FunctionCallWriter, FunctionParamValue, Ident,
};
use crate::json::json_views;
use crate::text::{push_char, push_str};
use crate::types::AudioFile;
use vstd::prelude::*;

verus! {

/// A line of code: the indent, the text and a new line.
pub open spec fn line(indent: int, text: Seq<char>) -> Seq<char> {
    tabs(indent) + text + seq!['\n']
}

/// A value given directly, as a number, or by variable, as the variable's name.
pub open spec fn ref_text(config: Config, v: MaybeRef<u32>) -> Seq<char> {
    match v {
        MaybeRef::Constant(n) => nat_text(n as nat),
        MaybeRef::Ref(id) => config.name(NameKind::Variable, id),
    }
}

/// A signed position given directly, or by variable.
pub open spec fn ref_text_i32(config: Config, v: MaybeRef<i32>) -> Seq<char> {
    match v {
        MaybeRef::Constant(n) => int_text(n as int),
        MaybeRef::Ref(id) => config.name(NameKind::Variable, id),
    }
}

/// A value with a minus sign where it is taken away.
pub open spec fn signed_text(is_add: bool, t: Seq<char>) -> Seq<char> {
    (if is_add {
        seq![]
    } else {
        seq!['-']
    }) + t
}

/// A call without arguments.
pub open spec fn call0(indent: int, name: Seq<char>) -> Seq<char> {
    call_open(indent, name) + call_close(false, true, indent)
}

/// The argument that names an actor: directly or by variable.
pub open spec fn actor_param(config: Config, actor: MaybeRef<u32>) -> (Seq<char>, Seq<char>) {
    match actor {
        MaybeRef::Constant(id) => ("actor"@, config.name(NameKind::Actor, id)),
        MaybeRef::Ref(id) => ("actor_id"@, config.name(NameKind::Variable, id)),
    }
}

/// The text of a condition.
pub open spec fn condition_text(config: Config, c: ConditionalBranchView) -> Seq<char> {
    match c {
        ConditionalBranchView::Switch { id, check_true } => (if check_true {
            seq![]
        } else {
            "not "@
        }) + config.name(NameKind::Switch, id),
        ConditionalBranchView::Variable { lhs_id, rhs_id, operation } => config.name(
            NameKind::Variable,
            lhs_id,
        ) + seq![' '] + variable_operation_text(operation) + seq![' '] + ref_text(config, rhs_id),
        ConditionalBranchView::SelfSwitch { name, check_true } => (if check_true {
            seq![]
        } else {
            "not "@
        }) + "game_self_switches.get(map_id=self.map_id, event_id=self.event_id, name="@ + quoted(
            name,
        ) + seq![')'],
        ConditionalBranchView::ActorInParty { actor_id } => "game_party.members.contains(actor="@
            + config.name(NameKind::Actor, actor_id) + seq![')'],
        ConditionalBranchView::Timer { value, is_gte } => "game_timer.seconds() "@ + (if is_gte {
            ">="@
        } else {
            "<="@
        }) + seq![' '] + nat_text(value as nat),
        ConditionalBranchView::ActorSkill { actor_id, skill_id } => config.name(
            NameKind::Actor,
            actor_id,
        ) + ".has_skill(skill="@ + config.name(NameKind::Skill, skill_id) + seq![')'],
        ConditionalBranchView::ActorArmor { actor_id, armor_id } => config.name(
            NameKind::Actor,
            actor_id,
        ) + ".has_armor(armor="@ + config.name(NameKind::Armor, armor_id) + seq![')'],
        ConditionalBranchView::ActorState { actor_id, state_id } => config.name(
            NameKind::Actor,
            actor_id,
        ) + ".has_state(state="@ + config.name(NameKind::State, state_id) + seq![')'],
        ConditionalBranchView::EnemyState { enemy_index, state_id } => "game_troop.members["@
            + nat_text(enemy_index as nat) + "].is_state_affected(state="@ + config.name(
            NameKind::State,
            state_id,
        ) + seq![')'],
        ConditionalBranchView::Character { character_id, direction } => (if character_id < 0 {
            "game_player"@
        } else {
            "game_character_"@ + int_text(character_id as int)
        }) + ".direction == "@ + nat_text(direction as nat),
        ConditionalBranchView::Gold { value, check } => "game_party.gold "@ + gold_check_text(
            check,
        ) + seq![' '] + nat_text(value as nat),
        ConditionalBranchView::Item { item_id } => "game_party.has_item(item="@ + config.name(
            NameKind::Item,
            item_id,
        ) + seq![')'],
        ConditionalBranchView::Script { value } => "execute_script("@ + quoted(value) + seq![')'],
    }
}

/// The lines `name = value` for the switches `start..end`.
pub open spec fn switch_lines(config: Config, indent: int, start: int, end: int, value: bool) -> Seq<
    char,
>
    decreases end - start,
{
    if end <= start {
        seq![]
    } else {
        switch_lines(config, indent, start, end - 1, value) + line(
            indent,
            config.name(NameKind::Switch, (end - 1) as u32) + " = "@ + bool_text(value),
        )
    }
}

/// The lines of a list of strings, each quoted and followed by a comma.
pub open spec fn quoted_lines(indent: int, items: Seq<Seq<char>>) -> Seq<char>
    decreases items.len(),
{
    if items.len() == 0 {
        seq![]
    } else {
        quoted_lines(indent, items.drop_last()) + tabs(indent) + quoted(items.last()) + seq![
            ',',
            '\n',
        ]
    }
}

/// The arguments of a plugin command: each quoted, separated by `, `.
pub open spec fn plugin_args(items: Seq<Seq<char>>) -> Seq<char>
    decreases items.len(),
{
    if items.len() == 0 {
        seq![]
    } else {
        plugin_args(items.drop_last()) + (if items.len() > 1 {
            seq![',', ' ']
        } else {
            seq![]
        }) + quoted(items.last())
    }
}

/// A call whose arguments are one per line, in a statement of its own with a
/// list of lines: a scrolling text or a script.
pub open spec fn lines_block(indent: int, head: Seq<char>, lines: Seq<Seq<char>>) -> Seq<char> {
    line(indent, head) + line(indent + 1, "lines=["@) + quoted_lines(indent + 2, lines) + line(
        indent + 1,
        "],"@,
    ) + line(indent, seq![')'])
}

/// A list of four integers in the `Debug` rendering of arrays.
pub open spec fn four_text(a: int, b: int, c: int, d: int) -> Seq<char> {
    seq!['['] + int_text(a) + seq![',', ' '] + int_text(b) + seq![',', ' '] + int_text(c) + seq![
        ',',
        ' ',
    ] + int_text(d) + seq![']']
}

/// The statement that adds or removes a state.
pub open spec fn change_state_text(
    config: Config,
    actor_id: MaybeRef<u32>,
    is_add_state: bool,
    state_id: u32,
) -> Seq<char> {
    (if is_add_state {
        "add_state"@
    } else {
        "remove_state"@
    }) + seq!['('] + (match actor_id {
        MaybeRef::Constant(0) => "actors=game_party"@,
        MaybeRef::Constant(id) => "actor="@ + config.name(NameKind::Actor, id),
        MaybeRef::Ref(id) => "actor_id="@ + config.name(NameKind::Variable, id),
    }) + ", state="@ + config.name(NameKind::State, state_id) + seq![')']
}

/// The statement that changes a level.
pub open spec fn change_level_text(
    config: Config,
    actor_id: MaybeRef<u32>,
    is_add: bool,
    value: MaybeRef<u32>,
    show_level_up: bool,
) -> Seq<char> {
    "gain_level("@ + actor_param(config, actor_id).0 + seq!['='] + actor_param(config, actor_id).1
        + ", value="@ + signed_text(is_add, ref_text(config, value)) + ", show_level_up="@
        + bool_text(show_level_up) + seq![')']
}

/// The statement that teaches or makes an actor forget a skill.
pub open spec fn change_skill_text(
    config: Config,
    actor_id: MaybeRef<u32>,
    is_learn_skill: bool,
    skill_id: u32,
) -> Seq<char> {
    (if is_learn_skill {
        "learn_skill"@
    } else {
        "forget_skill"@
    }) + seq!['('] + actor_param(config, actor_id).0 + seq!['='] + actor_param(config, actor_id).1
        + ", skill="@ + config.name(NameKind::Skill, skill_id) + seq![')']
}

/// The code for one command at `indent`; a cancel branch that names its
/// choice has none.
pub open spec fn py_command(config: Config, indent: int, c: CommandView) -> Option<Seq<char>> {
    match c {
        CommandView::WhenCancel { choice_index, choice_name } => if choice_name is None {
            Some(
                line(
                    indent,
                    "if get_choice_index() == -1: # Cancel, index="@ + nat_text(
                        choice_index as nat,
                    ),
                ),
            )
        } else {
            None
        },
        _ => Some(py_text(config, indent, c)),
    }
}

/// The code for one command other than a cancel branch.
pub open spec fn py_text(config: Config, indent: int, c: CommandView) -> Seq<char> {
    match c {
        CommandView::Nop => seq![],
        CommandView::ShowText { face_name, face_index, background, position_type, lines } =>
            call_open(indent, "show_text"@) + param_piece(
            false,
            true,
            indent,
            "face_name"@,
            quoted(face_name),
        ) + param_piece(true, true, indent, "face_index"@, nat_text(face_index as nat))
            + param_piece(true, true, indent, "background"@, nat_text(background as nat))
            + param_piece(true, true, indent, "position_type"@, nat_text(position_type as nat))
            + param_piece(
            true,
            true,
            indent,
            "lines"@,
            crate::function_call_writer::list_text(indent + 1, lines),
        ) + call_close(true, true, indent),
        CommandView::ShowChoices {
            choices,
            cancel_type,
            default_type,
            position_type,
            background,
        } => call_open(indent, "show_choices"@) + param_piece(
            false,
            true,
            indent,
            "choices"@,
            crate::function_call_writer::list_text(indent + 1, choices),
        ) + param_piece(true, true, indent, "cancel_type"@, int_text(cancel_type as int))
            + param_piece(true, true, indent, "default_type"@, int_text(default_type as int))
            + param_piece(true, true, indent, "position_type"@, nat_text(position_type as nat))
            + param_piece(true, true, indent, "background"@, nat_text(background as nat))
            + call_close(true, true, indent),
        CommandView::ShowScrollingText { speed, no_fast, lines } => line(
            indent,
            "show_scrolling_text("@,
        ) + line(indent + 1, "speed="@ + nat_text(speed as nat) + seq![',']) + line(
            indent + 1,
            "no_fast="@ + bool_text(no_fast) + seq![','],
        ) + line(indent + 1, "lines=["@) + quoted_lines(indent + 2, lines) + line(
            indent + 1,
            "],"@,
        ) + line(indent, seq![')']),
        CommandView::Comment { comment } => line(indent, "# "@ + comment),
        CommandView::ConditionalBranch(cb) => line(
            indent,
            "if "@ + condition_text(config, cb) + seq![':'],
        ),
        CommandView::ExitEventProcessing => line(indent, "exit_event_processing()"@),
        CommandView::CommonEvent { id } => call0(indent, config.name(NameKind::CommonEvent, id)),
        CommandView::Label { name } => call_open(indent, "set_label"@) + param_piece(
            false,
            false,
            indent,
            "name"@,
            quoted(name),
        ) + call_close(true, false, indent),
        CommandView::JumpToLabel { name } => call_open(indent, "jump_to_label"@) + param_piece(
            false,
            false,
            indent,
            "name"@,
            quoted(name),
        ) + call_close(true, false, indent),
        CommandView::ControlSwitches { start_id, end_id, value } => switch_lines(
            config,
            indent,
            start_id as int,
            end_id + 1,
            value,
        ),
        CommandView::ControlSelfSwitch { key, value } => line(
            indent,
            "game_self_switches['"@ + key + "'] = "@ + bool_text(value),
        ),
        CommandView::ControlTimer { start_seconds } => match start_seconds {
            Some(s) => line(indent, "game_timer.start(seconds="@ + nat_text(s as nat) + seq![')']),
            None => line(indent, "game_timer.stop()"@),
        },
        CommandView::ChangeGold { is_add, value } => line(
            indent,
            "game_party.gold "@ + (if is_add {
                "+="@
            } else {
                "-="@
            }) + seq![' '] + ref_text(config, value),
        ),
        CommandView::ChangeItems { item_id, is_add, value } => call_open(indent, "gain_item"@)
            + param_piece(false, false, indent, "item"@, config.name(NameKind::Item, item_id))
            + param_piece(true, false, indent, "value"@, signed_text(is_add, ref_text(config, value)))
            + call_close(true, false, indent),
        CommandView::ChangeArmors { armor_id, is_add, value, include_equipped } => call_open(
            indent,
            "gain_armor"@,
        ) + param_piece(false, false, indent, "armor"@, config.name(NameKind::Armor, armor_id))
            + param_piece(true, false, indent, "value"@, signed_text(is_add, ref_text(config, value)))
            + param_piece(true, false, indent, "include_equipped"@, bool_text(include_equipped))
            + call_close(true, false, indent),
        CommandView::ChangePartyMember { actor_id, is_add, initialize } => call_open(
            indent,
            if is_add {
                "add_party_member"@
            } else {
                "remove_party_member"@
            },
        ) + param_piece(false, false, indent, "actor"@, config.name(NameKind::Actor, actor_id)) + (
        if is_add {
            param_piece(true, false, indent, "initialize"@, bool_text(initialize))
        } else {
            seq![]
        }) + call_close(true, false, indent),
        CommandView::ChangeSaveAccess { disable } => call0(
            indent,
            if disable {
                "disable_saving"@
            } else {
                "enable_saving"@
            },
        ),
        CommandView::SetEventLocation { character_id, x, y, direction } => call_open(
            indent,
            "set_event_location"@,
        ) + param_piece(false, true, indent, "character_id"@, int_text(character_id as int))
            + param_piece(true, true, indent, "x"@, ref_text(config, x)) + param_piece(
            true,
            true,
            indent,
            "y"@,
            ref_text(config, y),
        ) + (match direction {
            Some(d) => param_piece(true, true, indent, "direction"@, nat_text(d as nat)),
            None => seq![],
        }) + call_close(true, true, indent),
        CommandView::TransferPlayer { map_id, x, y, direction, fade_type } => call_open(
            indent,
            "transfer_player"@,
        ) + (match map_id {
            MaybeRef::Constant(id) => param_piece(
                false,
                true,
                indent,
                "map"@,
                "game_map_"@ + nat_text(id as nat),
            ),
            MaybeRef::Ref(id) => param_piece(
                false,
                true,
                indent,
                "map_id"@,
                config.name(NameKind::Variable, id),
            ),
        }) + param_piece(true, true, indent, "x"@, ref_text(config, x)) + param_piece(
            true,
            true,
            indent,
            "y"@,
            ref_text(config, y),
        ) + param_piece(true, true, indent, "direction"@, nat_text(direction as nat))
            + param_piece(true, true, indent, "fade_type"@, nat_text(fade_type as nat))
            + call_close(true, true, indent),
        CommandView::SetMovementRoute { character_id, route } => call_open(
            indent,
            "set_movement_route"@,
        ) + param_piece(false, true, indent, "character_id"@, int_text(character_id as int))
            + param_piece(
            true,
            true,
            indent,
            "route"@,
            crate::function_call_writer::route_value_text(indent + 1, route),
        ) + call_close(true, true, indent),
        CommandView::ChangeTransparency { set_transparent } => line(
            indent,
            "change_transparency(set_transparent="@ + bool_text(set_transparent) + seq![')'],
        ),
        CommandView::ShowAnimation { character_id, animation_id, wait } => call_open(
            indent,
            "show_animation"@,
        ) + param_piece(false, false, indent, "character_id"@, int_text(character_id as int))
            + param_piece(true, false, indent, "animation_id"@, nat_text(animation_id as nat))
            + param_piece(true, false, indent, "wait"@, bool_text(wait)) + call_close(
            true,
            false,
            indent,
        ),
        CommandView::ShowBalloonIcon { character_id, balloon_id, wait } => call_open(
            indent,
            "show_balloon_icon"@,
        ) + param_piece(false, false, indent, "character_id"@, int_text(character_id as int))
            + param_piece(true, false, indent, "balloon_id"@, nat_text(balloon_id as nat))
            + param_piece(true, false, indent, "wait"@, bool_text(wait)) + call_close(
            true,
            false,
            indent,
        ),
        CommandView::ChangePlayerFollowers { is_show } => line(
            indent,
            (if is_show {
                "show_player_followers"@
            } else {
                "hide_player_followers"@
            }) + "()"@,
        ),
        CommandView::FadeoutScreen => call0(indent, "fadeout_screen"@),
        CommandView::FadeinScreen => call0(indent, "fadein_screen"@),
        CommandView::TintScreen { tone, duration, wait } => line(
            indent,
            "tint_screen(tone="@ + four_text(
                tone[0] as int,
                tone[1] as int,
                tone[2] as int,
                tone[3] as int,
            ) + ", duration="@ + nat_text(duration as nat) + ", wait="@ + bool_text(wait) + seq![
                ')',
            ],
        ),
        CommandView::FlashScreen { color, duration, wait } => line(
            indent,
            "flash_screen(color="@ + four_text(
                color[0] as int,
                color[1] as int,
                color[2] as int,
                color[3] as int,
            ) + ", duration="@ + nat_text(duration as nat) + ", wait="@ + bool_text(wait) + seq![
                ')',
            ],
        ),
        CommandView::ShakeScreen { power, speed, duration, wait } => call_open(
            indent,
            "shake_screen"@,
        ) + param_piece(false, false, indent, "power"@, nat_text(power as nat)) + param_piece(
            true,
            false,
            indent,
            "speed"@,
            nat_text(speed as nat),
        ) + param_piece(true, false, indent, "duration"@, nat_text(duration as nat))
            + param_piece(true, false, indent, "wait"@, bool_text(wait)) + call_close(
            true,
            false,
            indent,
        ),
        CommandView::Wait { duration } => call_open(indent, "wait"@) + param_piece(
            false,
            false,
            indent,
            "duration"@,
            nat_text(duration as nat),
        ) + call_close(true, false, indent),
        CommandView::ShowPicture {
            picture_id,
            picture_name,
            origin,
            x,
            y,
            scale_x,
            scale_y,
            opacity,
            blend_mode,
        } => line(indent, "show_picture("@) + field_line(
            indent + 1,
            "picture_id="@,
            nat_text(picture_id as nat),
        ) + field_line(indent + 1, "picture_name="@, quoted(picture_name)) + field_line(
            indent + 1,
            "origin="@,
            nat_text(origin as nat),
        ) + field_line(indent + 1, "x="@, ref_text_i32(config, x)) + field_line(
            indent + 1,
            "y="@,
            ref_text_i32(config, y),
        ) + field_line(indent + 1, "scale_x="@, nat_text(scale_x as nat)) + field_line(
            indent + 1,
            "scale_y="@,
            nat_text(scale_y as nat),
        ) + field_line(indent + 1, "opacity="@, nat_text(opacity as nat)) + field_line(
            indent + 1,
            "blend_mode="@,
            nat_text(blend_mode as nat),
        ) + line(indent, seq![')']),
        CommandView::ErasePicture { picture_id } => call_open(indent, "erase_picture"@)
            + param_piece(false, false, indent, "picture_id"@, nat_text(picture_id as nat))
            + call_close(true, false, indent),
        CommandView::PlayBgm { audio } => call_open(indent, "play_bgm"@) + param_piece(
            false,
            true,
            indent,
            "audio"@,
            audio_value_text(indent + 1, audio),
        ) + call_close(true, true, indent),
        CommandView::FadeoutBgm { duration } => call_open(indent, "fadeout_bgm"@) + param_piece(
            false,
            false,
            indent,
            "duration"@,
            nat_text(duration as nat),
        ) + call_close(true, false, indent),
        CommandView::SaveBgm => line(indent, "save_bgm()"@),
        CommandView::ResumeBgm => line(indent, "resume_bgm()"@),
        CommandView::PlayBgs { audio } => line(indent, "play_bgs("@) + tabs(indent + 1) + "audio="@
            + audio_value_text(indent + 1, audio) + seq![',', '\n'] + line(indent, seq![')']),
        CommandView::FadeoutBgs { duration } => line(
            indent,
            "fadeout_bgs(duration="@ + nat_text(duration as nat) + seq![')'],
        ),
        CommandView::PlaySe { audio } => call_open(indent, "play_se"@) + param_piece(
            false,
            true,
            indent,
            "audio"@,
            audio_value_text(indent + 1, audio),
        ) + call_close(true, true, indent),
        CommandView::GetLocationInfo { variable_id, kind, x, y } => line(
            indent,
            config.name(NameKind::Variable, variable_id) + " = "@ + (match kind {
                GetLocationInfoKind::TerrainTag => "game_map.get_terrain_tag(x="@,
                GetLocationInfoKind::EventId => "game_map.get_event_id(x="@,
            }) + ref_text(config, x) + ", y="@ + ref_text(config, y) + seq![')'],
        ),
        CommandView::BattleProcessing { troop_id, can_escape, can_lose } => call_open(
            indent,
            "battle_processing"@,
        ) + (match troop_id {
            Some(MaybeRef::Constant(id)) => param_piece(
                false,
                true,
                indent,
                "troop"@,
                config.name(NameKind::Troop, id),
            ),
            Some(MaybeRef::Ref(id)) => param_piece(
                false,
                true,
                indent,
                "troop_id"@,
                config.name(NameKind::Variable, id),
            ),
            None => param_piece(
                false,
                true,
                indent,
                "troop_id"@,
                "game.random_encounter_troop_id()"@,
            ),
        }) + param_piece(true, true, indent, "can_escape"@, bool_text(can_escape)) + param_piece(
            true,
            true,
            indent,
            "can_lose"@,
            bool_text(can_lose),
        ) + call_close(true, true, indent),
        CommandView::NameInputProcessing { actor_id, max_len } => call_open(
            indent,
            "name_input_processing"@,
        ) + param_piece(false, false, indent, "actor"@, config.name(NameKind::Actor, actor_id))
            + param_piece(true, false, indent, "max_len"@, nat_text(max_len as nat)) + call_close(
            true,
            false,
            indent,
        ),
        CommandView::ChangeHp { actor_id, is_add, value, allow_death } => call_open(
            indent,
            "gain_hp"@,
        ) + param_piece(
            false,
            false,
            indent,
            actor_param(config, actor_id).0,
            actor_param(config, actor_id).1,
        ) + param_piece(true, false, indent, "value"@, signed_text(is_add, ref_text(config, value)))
            + param_piece(true, false, indent, "allow_death"@, bool_text(allow_death))
            + call_close(true, false, indent),
        CommandView::ChangeMp { actor_id, is_add, value } => call_open(indent, "gain_mp"@)
            + param_piece(
            false,
            false,
            indent,
            actor_param(config, actor_id).0,
            actor_param(config, actor_id).1,
        ) + param_piece(true, false, indent, "value"@, signed_text(is_add, ref_text(config, value)))
            + call_close(true, false, indent),
        CommandView::ChangeState { actor_id, is_add_state, state_id } => line(
            indent,
            change_state_text(config, actor_id, is_add_state, state_id),
        ),
        CommandView::ChangeLevel { actor_id, is_add, value, show_level_up } => line(
            indent,
            change_level_text(config, actor_id, is_add, value, show_level_up),
        ),
        CommandView::ChangeSkill { actor_id, is_learn_skill, skill_id } => line(
            indent,
            change_skill_text(config, actor_id, is_learn_skill, skill_id),
        ),
        CommandView::ChangeClass { actor_id, class_id, keep_exp } => line(
            indent,
            "change_class(actor="@ + config.name(NameKind::Actor, actor_id) + ", klass="@
                + config.name(NameKind::Class, class_id) + ", keep_exp="@ + bool_text(keep_exp)
                + seq![')'],
        ),
        CommandView::ChangeActorImages {
            actor_id,
            character_name,
            character_index,
            face_name,
            face_index,
            battler_name,
        } => line(indent, "change_actor_images("@) + field_line(
            indent + 1,
            "actor="@,
            config.name(NameKind::Actor, actor_id),
        ) + field_line(indent + 1, "character_name="@, quoted(character_name)) + field_line(
            indent + 1,
            "character_index="@,
            nat_text(character_index as nat),
        ) + field_line(indent + 1, "face_name="@, quoted(face_name)) + field_line(
            indent + 1,
            "face_index="@,
            nat_text(face_index as nat),
        ) + field_line(indent + 1, "battler_name="@, quoted(battler_name)) + line(
            indent,
            seq![')'],
        ),
        CommandView::ForceAction { is_enemy, id, skill_id, target_index } => line(
            indent,
            "force_action("@ + (if is_enemy {
                "enemy_index="@ + nat_text(id as nat)
            } else {
                "actor="@ + config.name(NameKind::Actor, id)
            }) + ", skill="@ + config.name(NameKind::Skill, skill_id) + ", target_index="@
                + nat_text(target_index as nat) + seq![')'],
        ),
        CommandView::AbortBattle => call0(indent, "abort_battle"@),
        CommandView::ReturnToTitleScreen => call0(indent, "return_to_title_screen"@),
        CommandView::Script { lines } => line(indent, "script("@) + line(indent + 1, "lines=["@)
            + quoted_lines(indent + 2, lines) + line(indent + 1, "],"@) + line(indent, seq![')']),
        CommandView::PluginCommand { params } => line(
            indent,
            "plugin_command("@ + plugin_args(params) + seq![')'],
        ),
        CommandView::When { choice_index, choice_name } => line(
            indent,
            "if get_choice_index() == "@ + nat_text(choice_index as nat) + ": # "@ + choice_name,
        ),
        CommandView::WhenCancel { choice_index, .. } => line(
            indent,
            "if get_choice_index() == -1: # Cancel, index="@ + nat_text(choice_index as nat),
        ),
        CommandView::WhenEnd => seq![],
        CommandView::Else => line(indent, "else:"@),
        CommandView::ConditionalBranchEnd => seq![],
        CommandView::IfWin => "if game_battle_result.is_win():\n"@,
        CommandView::IfEscape => "if game_battle_result.is_escape():\n"@,
        CommandView::IfLose => "if game_battle_result.is_lose():\n"@,
        CommandView::BattleResultEnd => seq![],
        CommandView::Unknown { code, parameters } => line(
            indent,
            "# Unknown Command Code "@ + crate::code::code_debug_text(code) + ", parameters: "@
                + seq!['['] + json_items_debug(parameters) + seq![']'],
        ),
    }
}

/// The code for a list of commands, each at its own indent; none where one
/// of them has none.
pub open spec fn py_commands(config: Config, cs: Seq<(u16, CommandView)>) -> Option<Seq<char>>
    decreases cs.len(),
{
    if cs.len() == 0 {
        Some(seq![])
    } else {
        match (py_commands(config, cs.drop_last()), py_command(
            config,
            cs.last().0 as int,
            cs.last().1,
        )) {
            (Some(a), Some(b)) => Some(a + b),
            _ => None,
        }
    }
}

/// How far beyond its own indent the code of a command indents a line, or
/// computes the indent of one: one level for the arguments of a call, one
/// more for the entries of a list or the fields of a value.
pub open spec fn nesting(c: CommandView) -> int {
    match c {
        CommandView::ShowText { lines, .. } => if lines.len() > 0 {
            2
        } else {
            1
        },
        CommandView::ShowChoices { choices, .. } => if choices.len() > 0 {
            2
        } else {
            1
        },
        CommandView::ShowScrollingText { lines, .. } => if lines.len() > 0 {
            2
        } else {
            1
        },
        CommandView::Script { lines } => if lines.len() > 0 {
            2
        } else {
            1
        },
        CommandView::SetMovementRoute { route, .. } => if route.list.len() > 0 {
            3
        } else {
            2
        },
        CommandView::PlayBgm { .. } | CommandView::PlayBgs { .. } | CommandView::PlaySe { .. } => 2,
        CommandView::Label { .. }
        | CommandView::JumpToLabel { .. }
        | CommandView::ChangeItems { .. }
        | CommandView::ChangeArmors { .. }
        | CommandView::ChangePartyMember { .. }
        | CommandView::SetEventLocation { .. }
        | CommandView::TransferPlayer { .. }
        | CommandView::ShowAnimation { .. }
        | CommandView::ShowBalloonIcon { .. }
        | CommandView::ShakeScreen { .. }
        | CommandView::Wait { .. }
        | CommandView::ShowPicture { .. }
        | CommandView::ErasePicture { .. }
        | CommandView::FadeoutBgm { .. }
        | CommandView::BattleProcessing { .. }
        | CommandView::NameInputProcessing { .. }
        | CommandView::ChangeHp { .. }
        | CommandView::ChangeMp { .. }
        | CommandView::ChangeActorImages { .. } => 1,
        _ => 0,
    }
}

/// Whether a command can be written: the indents its code computes fit a
/// `u16`, and a range of switches does not end at the largest id.
pub open spec fn writable(indent: u16, c: CommandView) -> bool {
    &&& indent + nesting(c) <= u16::MAX
    &&& c matches CommandView::ControlSwitches { end_id, .. } ==> end_id < u32::MAX
}

/// How far beyond its own indent the code of a command indents a line.
pub fn command_nesting(c: &Command) -> (r: u16)
    ensures
        r == nesting(c@),
{
    match c {
        Command::ShowText { lines, .. } | Command::ShowScrollingText { lines, .. } | Command::Script {
            lines,
        } => {
            assert(crate::command::texts(lines@).len() == lines@.len());
            if lines.len() > 0 {
                2
            } else {
                1
            }
        },
        Command::ShowChoices { choices, .. } => {
            assert(crate::command::texts(choices@).len() == choices@.len());
            if choices.len() > 0 {
                2
            } else {
                1
            }
        },
        Command::SetMovementRoute { route, .. } => {
            assert(route@.list.len() == route.list@.len());
            if route.list.len() > 0 {
                3
            } else {
                2
            }
        },
        Command::PlayBgm { .. } | Command::PlayBgs { .. } | Command::PlaySe { .. } => 2,
        Command::Label { .. }
        | Command::JumpToLabel { .. }
        | Command::ChangeItems { .. }
        | Command::ChangeArmors { .. }
        | Command::ChangePartyMember { .. }
        | Command::SetEventLocation { .. }
        | Command::TransferPlayer { .. }
        | Command::ShowAnimation { .. }
        | Command::ShowBalloonIcon { .. }
        | Command::ShakeScreen { .. }
        | Command::Wait { .. }
        | Command::ShowPicture { .. }
        | Command::ErasePicture { .. }
        | Command::FadeoutBgm { .. }
        | Command::BattleProcessing { .. }
        | Command::NameInputProcessing { .. }
        | Command::ChangeHp { .. }
        | Command::ChangeMp { .. }
        | Command::ChangeActorImages { .. } => 1,
        _ => 0,
    }
}

/// Whether a command can be written at `indent`.
pub fn is_writable(indent: u16, c: &Command) -> (r: bool)
    ensures
        r == writable(indent, c@),
{
    let n = command_nesting(c);
    let fits = indent <= 65535 - n;
    match c {
        Command::ControlSwitches { end_id, .. } => fits && *end_id < 4294967295,
        _ => fits,
    }
}

/// `"True"` or `"False"`.
pub fn stringify_bool(b: bool) -> (r: &'static str)
    ensures
        r@ == bool_text(b),
{
    if b {
        "True"
    } else {
        "False"
    }
}

/// Appends an audio file in a block of its own lines, ending with `),`.
pub fn write_audio_file(out: &mut String, indent: u16, audio: &AudioFile)
    requires
        indent < u16::MAX,
    ensures
        final(out)@ == old(out)@ + audio_value_text(indent as int, audio@) + seq![',', '\n'],
{
    audio.write_param_value(out, indent);
    push_char(out, ',');
    push_char(out, '\n');
    assert(final(out)@ =~= old(out)@ + audio_value_text(indent as int, audio@) + seq![',', '\n']);
}

/// Appends `line(indent, text)`.
fn push_line(out: &mut String, indent: u16, text: &str)
    ensures
        final(out)@ == old(out)@ + line(indent as int, text@),
{
    write_indent(out, indent);
    push_str(out, text);
    push_char(out, '\n');
    assert(final(out)@ =~= old(out)@ + line(indent as int, text@));
}

/// The text of a value given directly or by variable.
fn ref_string(config: &Config, v: MaybeRef<u32>) -> (r: String)
    ensures
        r@ == ref_text(*config, v),
{
    match v {
        MaybeRef::Constant(n) => crate::decimal::u64_text(n as u64),
        MaybeRef::Ref(id) => config.get_name(NameKind::Variable, id),
    }
}

/// The text of a signed position given directly or by variable.
fn ref_string_i32(config: &Config, v: MaybeRef<i32>) -> (r: String)
    ensures
        r@ == ref_text_i32(*config, v),
{
    match v {
        MaybeRef::Constant(n) => crate::decimal::i64_text(n as i64),
        MaybeRef::Ref(id) => config.get_name(NameKind::Variable, id),
    }
}

/// A value with a minus sign where it is taken away.
fn signed_string(is_add: bool, t: String) -> (r: String)
    ensures
        r@ == signed_text(is_add, t@),
{
    let mut r = String::new();
    if !is_add {
        push_char(&mut r, '-');
    }
    push_str(&mut r, t.as_str());
    assert(r@ =~= signed_text(is_add, t@));
    r
}

/// The argument that names an actor.
fn actor_arg(config: &Config, actor: MaybeRef<u32>) -> (r: (&'static str, String))
    ensures
        r.0@ == actor_param(*config, actor).0,
        r.1@ == actor_param(*config, actor).1,
{
    match actor {
        MaybeRef::Constant(id) => ("actor", config.get_name(NameKind::Actor, id)),
        MaybeRef::Ref(id) => ("actor_id", config.get_name(NameKind::Variable, id)),
    }
}

/// Appends the text of a condition.
fn push_condition(out: &mut String, config: &Config, c: &ConditionalBranchCommand)
    ensures
        final(out)@ == old(out)@ + condition_text(*config, c@),
{
    match c {
        ConditionalBranchCommand::Switch { id, check_true } => {
            if !*check_true {
                push_str(out, "not ");
            }
            config.push_name(out, NameKind::Switch, *id);
        },
        ConditionalBranchCommand::Variable { lhs_id, rhs_id, operation } => {
            config.push_name(out, NameKind::Variable, *lhs_id);
            push_char(out, ' ');
            push_str(out, operation.as_str());
            push_char(out, ' ');
            let rhs = ref_string(config, *rhs_id);
            push_str(out, rhs.as_str());
        },
        ConditionalBranchCommand::SelfSwitch { name, check_true } => {
            if !*check_true {
                push_str(out, "not ");
            }
            push_str(
                out,
                "game_self_switches.get(map_id=self.map_id, event_id=self.event_id, name=",
            );
            push_quoted(out, name.as_str());
            push_char(out, ')');
        },
        ConditionalBranchCommand::ActorInParty { actor_id } => {
            push_str(out, "game_party.members.contains(actor=");
            config.push_name(out, NameKind::Actor, *actor_id);
            push_char(out, ')');
        },
        ConditionalBranchCommand::Timer { value, is_gte } => {
            push_str(out, "game_timer.seconds() ");
            if *is_gte {
                push_str(out, ">=");
            } else {
                push_str(out, "<=");
            }
            push_char(out, ' ');
            push_u64(out, *value as u64);
        },
        ConditionalBranchCommand::ActorSkill { actor_id, skill_id } => {
            config.push_name(out, NameKind::Actor, *actor_id);
            push_str(out, ".has_skill(skill=");
            config.push_name(out, NameKind::Skill, *skill_id);
            push_char(out, ')');
        },
        ConditionalBranchCommand::ActorArmor { actor_id, armor_id } => {
            config.push_name(out, NameKind::Actor, *actor_id);
            push_str(out, ".has_armor(armor=");
            config.push_name(out, NameKind::Armor, *armor_id);
            push_char(out, ')');
        },
        ConditionalBranchCommand::ActorState { actor_id, state_id } => {
            config.push_name(out, NameKind::Actor, *actor_id);
            push_str(out, ".has_state(state=");
            config.push_name(out, NameKind::State, *state_id);
            push_char(out, ')');
        },
        ConditionalBranchCommand::EnemyState { enemy_index, state_id } => {
            push_str(out, "game_troop.members[");
            push_u64(out, *enemy_index as u64);
            push_str(out, "].is_state_affected(state=");
            config.push_name(out, NameKind::State, *state_id);
            push_char(out, ')');
        },
        ConditionalBranchCommand::Character { character_id, direction } => {
            if *character_id < 0 {
                push_str(out, "game_player");
            } else {
                push_str(out, "game_character_");
                push_i64(out, *character_id as i64);
            }
            push_str(out, ".direction == ");
            push_u64(out, *direction as u64);
        },
        ConditionalBranchCommand::Gold { value, check } => {
            push_str(out, "game_party.gold ");
            push_str(out, check.as_str());
            push_char(out, ' ');
            push_u64(out, *value as u64);
        },
        ConditionalBranchCommand::Item { item_id } => {
            push_str(out, "game_party.has_item(item=");
            config.push_name(out, NameKind::Item, *item_id);
            push_char(out, ')');
        },
        ConditionalBranchCommand::Script { value } => {
            push_str(out, "execute_script(");
            push_quoted(out, value.as_str());
            push_char(out, ')');
        },
    }
    assert(final(out)@ =~= old(out)@ + condition_text(*config, c@));
}

/// Appends the quoted lines of a list of strings, each followed by a comma.
fn push_quoted_lines(out: &mut String, indent: u16, items: &Vec<String>)
    ensures
        final(out)@ == old(out)@ + quoted_lines(indent as int, crate::command::texts(items@)),
{
    let ghost views = crate::command::texts(items@);
    let ghost start = out@;
    let mut i: usize = 0;
    while i < items.len()
        invariant
            i <= items@.len(),
            views == crate::command::texts(items@),
            out@ == start + quoted_lines(indent as int, views.subrange(0, i as int)),
        decreases items@.len() - i,
    {
        let ghost prefix = views.subrange(0, i + 1);
        assert(prefix.drop_last() =~= views.subrange(0, i as int));
        assert(prefix.last() == items@[i as int]@);
        write_indent(out, indent);
        push_quoted(out, items[i].as_str());
        push_char(out, ',');
        push_char(out, '\n');
        assert(out@ =~= start + quoted_lines(indent as int, prefix));
        i = i + 1;
    }
    assert(views.subrange(0, items@.len() as int) =~= views);
}

/// Appends a block with a list of lines: a scrolling text or a script.
fn push_lines_list(out: &mut String, indent: u16, items: &Vec<String>)
    requires
        indent < u16::MAX,
        items@.len() > 0 ==> indent + 2 <= u16::MAX,
    ensures
        final(out)@ == old(out)@ + line(indent + 1, "lines=["@) + quoted_lines(
            indent + 2,
            crate::command::texts(items@),
        ) + line(indent + 1, "],"@) + line(indent as int, seq![')']),
{
    let ghost s0 = out@;
    push_line(out, indent + 1, "lines=[");
    let ghost s1 = out@;
    if items.len() > 0 {
        push_quoted_lines(out, indent + 2, items);
    } else {
        assert(crate::command::texts(items@).len() == 0);
        assert(out@ =~= s1 + quoted_lines(indent + 2, crate::command::texts(items@)));
    }
    let ghost s2 = out@;
    push_line(out, indent + 1, "],");
    let ghost s3 = out@;
    write_indent(out, indent);
    push_char(out, ')');
    push_char(out, '\n');
    assert(out@ =~= s3 + line(indent as int, seq![')']));
}

/// Appends the lines `name = value` for the switches `start..=end`.
fn push_switch_lines(out: &mut String, config: &Config, indent: u16, start: u32, end: u32, value: bool)
    requires
        end < u32::MAX,
    ensures
        final(out)@ == old(out)@ + switch_lines(*config, indent as int, start as int, end + 1, value),
{
    let ghost s0 = out@;
    let stop: u64 = end as u64 + 1;
    let mut id: u64 = start as u64;
    if id >= stop {
        assert(switch_lines(*config, indent as int, start as int, end + 1, value) =~= seq![]);
        return;
    }
    assert(switch_lines(*config, indent as int, start as int, start as int, value) =~= seq![]);
    while id < stop
        invariant
            start <= id <= stop,
            stop == end + 1,
            end < u32::MAX,
            out@ == s0 + switch_lines(*config, indent as int, start as int, id as int, value),
        decreases stop - id,
    {
        let ghost before = out@;
        write_indent(out, indent);
        config.push_name(out, NameKind::Switch, id as u32);
        push_str(out, " = ");
        push_bool(out, value);
        push_char(out, '\n');
        assert(out@ =~= before + line(
            indent as int,
            config.name(NameKind::Switch, id as u32) + " = "@ + bool_text(value),
        ));
        id = id + 1;
    }
}

/// Appends the arguments of a plugin command.
fn push_plugin_args(out: &mut String, items: &Vec<String>)
    ensures
        final(out)@ == old(out)@ + plugin_args(crate::command::texts(items@)),
{
    let ghost views = crate::command::texts(items@);
    let ghost start = out@;
    let mut i: usize = 0;
    while i < items.len()
        invariant
            i <= items@.len(),
            views == crate::command::texts(items@),
            out@ == start + plugin_args(views.subrange(0, i as int)),
        decreases items@.len() - i,
    {
        let ghost prefix = views.subrange(0, i + 1);
        assert(prefix.drop_last() =~= views.subrange(0, i as int));
        assert(prefix.last() == items@[i as int]@);
        if i != 0 {
            push_char(out, ',');
            push_char(out, ' ');
        }
        push_quoted(out, items[i].as_str());
        assert(out@ =~= start + plugin_args(prefix));
        i = i + 1;
    }
    assert(views.subrange(0, items@.len() as int) =~= views);
}

/// Appends a list of four numbers in the `Debug` rendering of arrays.
fn push_four(out: &mut String, a: i64, b: i64, c: i64, d: i64)
    ensures
        final(out)@ == old(out)@ + four_text(a as int, b as int, c as int, d as int),
{
    push_char(out, '[');
    push_i64(out, a);
    push_str(out, ", ");
    push_i64(out, b);
    push_str(out, ", ");
    push_i64(out, c);
    push_str(out, ", ");
    push_i64(out, d);
    push_char(out, ']');
    proof {
        reveal_strlit(", ");
    }
    assert(final(out)@ =~= old(out)@ + four_text(a as int, b as int, c as int, d as int));
}

/// Appends a `key=value,` line whose value is already text.
fn push_text_line(out: &mut String, indent: u16, key: &str, value: &str)
    ensures
        final(out)@ == old(out)@ + field_line(indent as int, key@, value@),
{
    write_indent(out, indent);
    push_str(out, key);
    push_str(out, value);
    push_char(out, ',');
    push_char(out, '\n');
    assert(final(out)@ =~= old(out)@ + field_line(indent as int, key@, value@));
}

/// The first group of commands, from texts to save access.
pub open spec fn first_group(c: CommandView) -> bool {
    ||| c is Nop
    ||| c is ShowText
    ||| c is ShowChoices
    ||| c is ShowScrollingText
    ||| c is Comment
    ||| c is ConditionalBranch
    ||| c is ExitEventProcessing
    ||| c is CommonEvent
    ||| c is Label
    ||| c is JumpToLabel
    ||| c is ControlSwitches
    ||| c is ControlSelfSwitch
    ||| c is ControlTimer
    ||| c is ChangeGold
    ||| c is ChangeItems
    ||| c is ChangeArmors
    ||| c is ChangePartyMember
    ||| c is ChangeSaveAccess
}

/// The commands that erase pictures and play background music.
pub open spec fn media_group(c: CommandView) -> bool {
    ||| c is ErasePicture
    ||| c is PlayBgm
    ||| c is FadeoutBgm
    ||| c is SaveBgm
    ||| c is ResumeBgm
}

/// The commands of background sounds, sound effects and location info.
pub open spec fn sound_group(c: CommandView) -> bool {
    ||| c is PlayBgs
    ||| c is FadeoutBgs
    ||| c is PlaySe
    ||| c is GetLocationInfo
}

/// Writes a command of the first group.
#[verifier::rlimit(60)]
fn write_first(config: &Config, indent: u16, c: &Command, out: &mut String)
    requires
        writable(indent, c@),
        first_group(c@),
    ensures
        final(out)@ == old(out)@ + py_text(*config, indent as int, c@),
{
    match c {
        Command::Nop => {
            assert(old(out)@ + seq![] =~= old(out)@);
        },
        Command::ShowText { face_name, face_index, background, position_type, lines } => {
            let mut w = FunctionCallWriter::new(indent, "show_text");
            w.write_param("face_name", face_name);
            w.write_param("face_index", face_index);
            w.write_param("background", background);
            w.write_param("position_type", position_type);
            w.write_param("lines", lines);
            w.finish();
            push_str(out, w.text.as_str());
        },
        Command::ShowChoices { choices, cancel_type, default_type, position_type, background } => {
            let mut w = FunctionCallWriter::new(indent, "show_choices");
            w.write_param("choices", choices);
            w.write_param("cancel_type", cancel_type);
            w.write_param("default_type", default_type);
            w.write_param("position_type", position_type);
            w.write_param("background", background);
            w.finish();
            push_str(out, w.text.as_str());
        },
        Command::ShowScrollingText { speed, no_fast, lines } => {
            let ghost s0 = out@;
            push_line(out, indent, "show_scrolling_text(");
            let ghost s1 = out@;
            write_indent(out, indent + 1);
            push_str(out, "speed=");
            push_u64(out, *speed as u64);
            push_char(out, ',');
            push_char(out, '\n');
            assert(out@ =~= s1 + line(indent + 1, "speed="@ + nat_text(*speed as nat) + seq![',']));
            let ghost s2 = out@;
            write_indent(out, indent + 1);
            push_str(out, "no_fast=");
            push_bool(out, *no_fast);
            push_char(out, ',');
            push_char(out, '\n');
            assert(out@ =~= s2 + line(indent + 1, "no_fast="@ + bool_text(*no_fast) + seq![',']));
            push_lines_list(out, indent, lines);
        },
        Command::Comment { comment } => {
            write_indent(out, indent);
            push_str(out, "# ");
            push_str(out, comment.as_str());
            push_char(out, '\n');
        },
        Command::ConditionalBranch(cb) => {
            write_indent(out, indent);
            push_str(out, "if ");
            push_condition(out, config, cb);
            push_char(out, ':');
            push_char(out, '\n');
        },
        Command::ExitEventProcessing => {
            push_line(out, indent, "exit_event_processing()");
        },
        Command::CommonEvent { id } => {
            let name = config.get_common_event_name(*id);
            let mut w = FunctionCallWriter::new(indent, name.as_str());
            w.finish();
            push_str(out, w.text.as_str());
        },
        Command::Label { name } => {
            let mut w = FunctionCallWriter::new(indent, "set_label");
            w.set_multiline(false);
            w.write_param("name", name);
            w.finish();
            push_str(out, w.text.as_str());
        },
        Command::JumpToLabel { name } => {
            let mut w = FunctionCallWriter::new(indent, "jump_to_label");
            w.set_multiline(false);
            w.write_param("name", name);
            w.finish();
            push_str(out, w.text.as_str());
        },
        Command::ControlSwitches { start_id, end_id, value } => {
            push_switch_lines(out, config, indent, *start_id, *end_id, *value);
        },
        Command::ControlSelfSwitch { key, value } => {
            write_indent(out, indent);
            push_str(out, "game_self_switches['");
            push_str(out, key.as_str());
            push_str(out, "'] = ");
            push_bool(out, *value);
            push_char(out, '\n');
        },
        Command::ControlTimer { start_seconds } => {
            match start_seconds {
                Some(s) => {
                    write_indent(out, indent);
                    push_str(out, "game_timer.start(seconds=");
                    push_u64(out, *s as u64);
                    push_char(out, ')');
                    push_char(out, '\n');
                },
                None => {
                    push_line(out, indent, "game_timer.stop()");
                },
            }
        },
        Command::ChangeGold { is_add, value } => {
            write_indent(out, indent);
            push_str(out, "game_party.gold ");
            if *is_add {
                push_str(out, "+=");
            } else {
                push_str(out, "-=");
            }
            push_char(out, ' ');
            let v = ref_string(config, *value);
            push_str(out, v.as_str());
            push_char(out, '\n');
        },
        Command::ChangeItems { item_id, is_add, value } => {
            let item = Ident(config.get_item_name(*item_id));
            let v = Ident(signed_string(*is_add, ref_string(config, *value)));
            let mut w = FunctionCallWriter::new(indent, "gain_item");
            w.set_multiline(false);
            w.write_param("item", &item);
            w.write_param("value", &v);
            w.finish();
            push_str(out, w.text.as_str());
        },
        Command::ChangeArmors { armor_id, is_add, value, include_equipped } => {
            let armor = Ident(config.get_armor_name(*armor_id));
            let v = Ident(signed_string(*is_add, ref_string(config, *value)));
            let mut w = FunctionCallWriter::new(indent, "gain_armor");
            w.set_multiline(false);
            w.write_param("armor", &armor);
            w.write_param("value", &v);
            w.write_param("include_equipped", include_equipped);
            w.finish();
            push_str(out, w.text.as_str());
        },
        Command::ChangePartyMember { actor_id, is_add, initialize } => {
            let actor = Ident(config.get_actor_name(*actor_id));
            let name = if *is_add {
                "add_party_member"
            } else {
                "remove_party_member"
            };
            let mut w = FunctionCallWriter::new(indent, name);
            w.set_multiline(false);
            w.write_param("actor", &actor);
            if *is_add {
                w.write_param("initialize", initialize);
            }
            let ghost before_close = w.text@;
            w.finish();
            push_str(out, w.text.as_str());
        },
        Command::ChangeSaveAccess { disable } => {
            let name = if *disable {
                "disable_saving"
            } else {
                "enable_saving"
            };
            let mut w = FunctionCallWriter::new(indent, name);
            w.finish();
            push_str(out, w.text.as_str());
        },
        _ => {},
    }
    assert(final(out)@ =~= old(out)@ + py_text(*config, indent as int, c@));
}

/// A command is in `first_group` exactly where its abstract value is.
proof fn lemma_first_group(c: &Command)
    ensures
        first_group(c@) == (c is Nop || c is ShowText || c is ShowChoices || c is ShowScrollingText || c is Comment || c is ConditionalBranch || c is ExitEventProcessing || c is CommonEvent || c is Label || c is JumpToLabel || c is ControlSwitches || c is ControlSelfSwitch || c is ControlTimer || c is ChangeGold || c is ChangeItems || c is ChangeArmors || c is ChangePartyMember || c is ChangeSaveAccess),
{
}

/// A command is in `media_group` exactly where its abstract value is.
proof fn lemma_media_group(c: &Command)
    ensures
        media_group(c@) == (c is ErasePicture || c is PlayBgm || c is FadeoutBgm || c is SaveBgm || c is ResumeBgm),
{
}

/// A command is in `sound_group` exactly where its abstract value is.
proof fn lemma_sound_group(c: &Command)
    ensures
        sound_group(c@) == (c is PlayBgs || c is FadeoutBgs || c is PlaySe || c is GetLocationInfo),
{
}

/// A command is in `battle_group` exactly where its abstract value is.
proof fn lemma_battle_group(c: &Command)
    ensures
        battle_group(c@) == (c is BattleProcessing || c is NameInputProcessing || c is ChangeHp || c is ChangeMp),
{
}

/// A command is in `actor_group` exactly where its abstract value is.
proof fn lemma_actor_group(c: &Command)
    ensures
        actor_group(c@) == (c is ChangeState || c is ChangeLevel || c is ChangeSkill || c is ChangeClass),
{
}

/// A command is in `last_group` exactly where its abstract value is.
/// A command is in `script_group` exactly where its abstract value is.
proof fn lemma_script_group(c: &Command)
    ensures
        script_group(c@) == (c is ChangeActorImages || c is ForceAction || c is AbortBattle || c is ReturnToTitleScreen || c is Script || c is PluginCommand),
{
}

proof fn lemma_last_group(c: &Command)
    ensures
        last_group(c@) == (c is When || c is WhenCancel || c is WhenEnd || c is Else || c is ConditionalBranchEnd || c is IfWin || c is IfEscape || c is IfLose || c is BattleResultEnd || c is Unknown),
{
}

/// A command shows a picture exactly where its abstract value does.
proof fn lemma_show_picture(c: &Command)
    ensures
        (c@ is ShowPicture) == (c is ShowPicture),
{
}


/// Writes a command that moves an event or the player.
#[verifier::rlimit(40)]
fn write_movement(config: &Config, indent: u16, c: &Command, out: &mut String)
    requires
        writable(indent, c@),
        c@ is SetEventLocation || c@ is TransferPlayer || c@ is SetMovementRoute,
    ensures
        final(out)@ == old(out)@ + py_text(*config, indent as int, c@),
{
    match c {
        Command::SetEventLocation { character_id, x, y, direction } => {
            let mut w = FunctionCallWriter::new(indent, "set_event_location");
            w.write_param("character_id", character_id);
            w.write_param("x", &Ident(ref_string(config, *x)));
            w.write_param("y", &Ident(ref_string(config, *y)));
            match direction {
                Some(d) => w.write_param("direction", d),
                None => {},
            }
            w.finish();
            push_str(out, w.text.as_str());
            assert(out@ =~= old(out)@ + py_text(*config, indent as int, c@));
        },
        Command::TransferPlayer { map_id, x, y, direction, fade_type } => {
            let mut w = FunctionCallWriter::new(indent, "transfer_player");
            match map_id {
                MaybeRef::Constant(id) => {
                    let mut name = String::new();
                    push_str(&mut name, "game_map_");
                    push_u64(&mut name, *id as u64);
                    w.write_param("map", &Ident(name));
                },
                MaybeRef::Ref(id) => {
                    w.write_param("map_id", &Ident(config.get_variable_name(*id)));
                },
            }
            w.write_param("x", &Ident(ref_string(config, *x)));
            w.write_param("y", &Ident(ref_string(config, *y)));
            w.write_param("direction", direction);
            w.write_param("fade_type", fade_type);
            w.finish();
            push_str(out, w.text.as_str());
            assert(out@ =~= old(out)@ + py_text(*config, indent as int, c@));
        },
        Command::SetMovementRoute { character_id, route } => {
            let mut w = FunctionCallWriter::new(indent, "set_movement_route");
            w.write_param("character_id", character_id);
            w.write_param("route", route);
            w.finish();
            push_str(out, w.text.as_str());
            assert(out@ =~= old(out)@ + py_text(*config, indent as int, c@));
        },
        _ => {
            assert(false);
        },
    }
}

/// Writes a call that shows an effect or waits.
#[verifier::rlimit(40)]
fn write_effect_call(config: &Config, indent: u16, c: &Command, out: &mut String)
    requires
        writable(indent, c@),
        c@ is ShowAnimation || c@ is ShowBalloonIcon || c@ is ShakeScreen || c@ is Wait,
    ensures
        final(out)@ == old(out)@ + py_text(*config, indent as int, c@),
{
    match c {
        Command::ShowAnimation { character_id, animation_id, wait } => {
            let mut w = FunctionCallWriter::new(indent, "show_animation");
            w.set_multiline(false);
            w.write_param("character_id", character_id);
            w.write_param("animation_id", animation_id);
            w.write_param("wait", wait);
            w.finish();
            push_str(out, w.text.as_str());
            assert(out@ =~= old(out)@ + py_text(*config, indent as int, c@));
        },
        Command::ShowBalloonIcon { character_id, balloon_id, wait } => {
            let mut w = FunctionCallWriter::new(indent, "show_balloon_icon");
            w.set_multiline(false);
            w.write_param("character_id", character_id);
            w.write_param("balloon_id", balloon_id);
            w.write_param("wait", wait);
            w.finish();
            push_str(out, w.text.as_str());
            assert(out@ =~= old(out)@ + py_text(*config, indent as int, c@));
        },
        Command::ShakeScreen { power, speed, duration, wait } => {
            let mut w = FunctionCallWriter::new(indent, "shake_screen");
            w.set_multiline(false);
            w.write_param("power", power);
            w.write_param("speed", speed);
            w.write_param("duration", duration);
            w.write_param("wait", wait);
            w.finish();
            push_str(out, w.text.as_str());
            assert(out@ =~= old(out)@ + py_text(*config, indent as int, c@));
        },
        Command::Wait { duration } => {
            let mut w = FunctionCallWriter::new(indent, "wait");
            w.set_multiline(false);
            w.write_param("duration", duration);
            w.finish();
            push_str(out, w.text.as_str());
            assert(out@ =~= old(out)@ + py_text(*config, indent as int, c@));
        },
        _ => {
            assert(false);
        },
    }
}

/// Writes a screen command that is one line of its own.
#[verifier::rlimit(100)]
fn write_screen_line(config: &Config, indent: u16, c: &Command, out: &mut String)
    requires
        c@ is ChangeTransparency || c@ is ChangePlayerFollowers || c@ is FadeoutScreen
            || c@ is FadeinScreen || c@ is TintScreen || c@ is FlashScreen,
    ensures
        final(out)@ == old(out)@ + py_text(*config, indent as int, c@),
{
    match c {
        Command::ChangeTransparency { set_transparent } => {
            write_indent(out, indent);
            push_str(out, "change_transparency(set_transparent=");
            push_bool(out, *set_transparent);
            push_char(out, ')');
            push_char(out, '\n');
            assert(out@ =~= old(out)@ + py_text(*config, indent as int, c@));
        },
        Command::ChangePlayerFollowers { is_show } => {
            write_indent(out, indent);
            if *is_show {
                push_str(out, "show_player_followers");
            } else {
                push_str(out, "hide_player_followers");
            }
            push_str(out, "()");
            push_char(out, '\n');
            assert(out@ =~= old(out)@ + py_text(*config, indent as int, c@));
        },
        Command::FadeoutScreen => {
            let mut w = FunctionCallWriter::new(indent, "fadeout_screen");
            w.finish();
            push_str(out, w.text.as_str());
            assert(out@ =~= old(out)@ + py_text(*config, indent as int, c@));
        },
        Command::FadeinScreen => {
            let mut w = FunctionCallWriter::new(indent, "fadein_screen");
            w.finish();
            push_str(out, w.text.as_str());
            assert(out@ =~= old(out)@ + py_text(*config, indent as int, c@));
        },
        Command::TintScreen { tone, duration, wait } => {
            write_indent(out, indent);
            push_str(out, "tint_screen(tone=");
            push_four(out, tone[0] as i64, tone[1] as i64, tone[2] as i64, tone[3] as i64);
            push_str(out, ", duration=");
            push_u64(out, *duration as u64);
            push_str(out, ", wait=");
            push_bool(out, *wait);
            push_char(out, ')');
            push_char(out, '\n');
            assert(out@ =~= old(out)@ + py_text(*config, indent as int, c@));
        },
        Command::FlashScreen { color, duration, wait } => {
            write_indent(out, indent);
            push_str(out, "flash_screen(color=");
            push_four(out, color[0] as i64, color[1] as i64, color[2] as i64, color[3] as i64);
            push_str(out, ", duration=");
            push_u64(out, *duration as u64);
            push_str(out, ", wait=");
            push_bool(out, *wait);
            push_char(out, ')');
            push_char(out, '\n');
            assert(out@ =~= old(out)@ + py_text(*config, indent as int, c@));
        },
        _ => {
            assert(false);
        },
    }
}

/// Writes a show-picture command.
fn write_show_picture(config: &Config, indent: u16, c: &Command, out: &mut String)
    requires
        writable(indent, c@),
        c@ is ShowPicture,
    ensures
        final(out)@ == old(out)@ + py_text(*config, indent as int, c@),
{
    match c {
        Command::ShowPicture {
            picture_id,
            picture_name,
            origin,
            x,
            y,
            scale_x,
            scale_y,
            opacity,
            blend_mode,
        } => {
            push_line(out, indent, "show_picture(");
            let mut pid = String::new();
            push_u64(&mut pid, *picture_id as u64);
            push_text_line(out, indent + 1, "picture_id=", pid.as_str());
            let mut name = String::new();
            push_quoted(&mut name, picture_name.as_str());
            push_text_line(out, indent + 1, "picture_name=", name.as_str());
            let mut o = String::new();
            push_u64(&mut o, *origin as u64);
            push_text_line(out, indent + 1, "origin=", o.as_str());
            let xs = ref_string_i32(config, *x);
            push_text_line(out, indent + 1, "x=", xs.as_str());
            let ys = ref_string_i32(config, *y);
            push_text_line(out, indent + 1, "y=", ys.as_str());
            let mut sx = String::new();
            push_u64(&mut sx, *scale_x as u64);
            push_text_line(out, indent + 1, "scale_x=", sx.as_str());
            let mut sy = String::new();
            push_u64(&mut sy, *scale_y as u64);
            push_text_line(out, indent + 1, "scale_y=", sy.as_str());
            let mut op = String::new();
            push_u64(&mut op, *opacity as u64);
            push_text_line(out, indent + 1, "opacity=", op.as_str());
            let mut bm = String::new();
            push_u64(&mut bm, *blend_mode as u64);
            push_text_line(out, indent + 1, "blend_mode=", bm.as_str());
            let ghost before = out@;
            write_indent(out, indent);
            push_char(out, ')');
            push_char(out, '\n');
            assert(out@ =~= before + line(indent as int, seq![')']));
            assert(out@ =~= old(out)@ + py_text(*config, indent as int, c@));
        },
        _ => {
            proof {
                lemma_show_picture(c);
            }
        },
    }
}

/// Writes a command that erases a picture or plays background music.
#[verifier::rlimit(60)]
fn write_media(config: &Config, indent: u16, c: &Command, out: &mut String)
    requires
        writable(indent, c@),
        media_group(c@),
    ensures
        final(out)@ == old(out)@ + py_text(*config, indent as int, c@),
{
    match c {
        Command::ErasePicture { picture_id } => {
            let mut w = FunctionCallWriter::new(indent, "erase_picture");
            w.set_multiline(false);
            w.write_param("picture_id", picture_id);
            w.finish();
            push_str(out, w.text.as_str());
            assert(out@ =~= old(out)@ + py_text(*config, indent as int, c@));
        },
        Command::PlayBgm { audio } => {
            let mut w = FunctionCallWriter::new(indent, "play_bgm");
            w.write_param("audio", audio);
            w.finish();
            push_str(out, w.text.as_str());
            assert(out@ =~= old(out)@ + py_text(*config, indent as int, c@));
        },
        Command::FadeoutBgm { duration } => {
            let mut w = FunctionCallWriter::new(indent, "fadeout_bgm");
            w.set_multiline(false);
            w.write_param("duration", duration);
            w.finish();
            push_str(out, w.text.as_str());
            assert(out@ =~= old(out)@ + py_text(*config, indent as int, c@));
        },
        Command::SaveBgm => {
            push_line(out, indent, "save_bgm()");
            assert(out@ =~= old(out)@ + py_text(*config, indent as int, c@));
        },
        Command::ResumeBgm => {
            push_line(out, indent, "resume_bgm()");
            assert(out@ =~= old(out)@ + py_text(*config, indent as int, c@));
        },
        _ => {
            proof {
                lemma_media_group(c);
            }
        },
    }
}

/// Writes a command of background sounds, sound effects and location info.
#[verifier::rlimit(60)]
fn write_sound(config: &Config, indent: u16, c: &Command, out: &mut String)
    requires
        writable(indent, c@),
        sound_group(c@),
    ensures
        final(out)@ == old(out)@ + py_text(*config, indent as int, c@),
{
    match c {
        Command::PlayBgs { audio } => {
            push_line(out, indent, "play_bgs(");
            write_indent(out, indent + 1);
            push_str(out, "audio=");
            write_audio_file(out, indent + 1, audio);
            let ghost before = out@;
            write_indent(out, indent);
            push_char(out, ')');
            push_char(out, '\n');
            assert(out@ =~= before + line(indent as int, seq![')']));
            assert(out@ =~= old(out)@ + py_text(*config, indent as int, c@));
        },
        Command::FadeoutBgs { duration } => {
            write_indent(out, indent);
            push_str(out, "fadeout_bgs(duration=");
            push_u64(out, *duration as u64);
            push_char(out, ')');
            push_char(out, '\n');
            assert(out@ =~= old(out)@ + py_text(*config, indent as int, c@));
        },
        Command::PlaySe { audio } => {
            let mut w = FunctionCallWriter::new(indent, "play_se");
            w.write_param("audio", audio);
            w.finish();
            push_str(out, w.text.as_str());
            assert(out@ =~= old(out)@ + py_text(*config, indent as int, c@));
        },
        Command::GetLocationInfo { variable_id, kind, x, y } => {
            write_indent(out, indent);
            config.push_name(out, NameKind::Variable, *variable_id);
            push_str(out, " = ");
            match kind {
                GetLocationInfoKind::TerrainTag => push_str(out, "game_map.get_terrain_tag(x="),
                GetLocationInfoKind::EventId => push_str(out, "game_map.get_event_id(x="),
            }
            let xs = ref_string(config, *x);
            push_str(out, xs.as_str());
            push_str(out, ", y=");
            let ys = ref_string(config, *y);
            push_str(out, ys.as_str());
            push_char(out, ')');
            push_char(out, '\n');
            assert(out@ =~= old(out)@ + py_text(*config, indent as int, c@));
        },
        _ => {
            proof {
                lemma_sound_group(c);
            }
        },
    }
}

/// The commands of battles and of actors' values.
pub open spec fn battle_group(c: CommandView) -> bool {
    ||| c is BattleProcessing
    ||| c is NameInputProcessing
    ||| c is ChangeHp
    ||| c is ChangeMp
}

/// The commands that change actors' states, levels, skills and classes.
pub open spec fn actor_group(c: CommandView) -> bool {
    ||| c is ChangeState
    ||| c is ChangeLevel
    ||| c is ChangeSkill
    ||| c is ChangeClass
}

/// The commands of actor images, forced actions, scripts and plugins.
pub open spec fn script_group(c: CommandView) -> bool {
    ||| c is ChangeActorImages
    ||| c is ForceAction
    ||| c is AbortBattle
    ||| c is ReturnToTitleScreen
    ||| c is Script
    ||| c is PluginCommand
}

/// The branches, ends of blocks and unknown commands.
pub open spec fn last_group(c: CommandView) -> bool {
    ||| c is When
    ||| c is WhenCancel
    ||| c is WhenEnd
    ||| c is Else
    ||| c is ConditionalBranchEnd
    ||| c is IfWin
    ||| c is IfEscape
    ||| c is IfLose
    ||| c is BattleResultEnd
    ||| c is Unknown
}

/// Writes a command of battles or of actors' values.
#[verifier::rlimit(60)]
fn write_battle(config: &Config, indent: u16, c: &Command, out: &mut String)
    requires
        writable(indent, c@),
        battle_group(c@),
    ensures
        final(out)@ == old(out)@ + py_text(*config, indent as int, c@),
{
    match c {
        Command::BattleProcessing { troop_id, can_escape, can_lose } => {
            let mut w = FunctionCallWriter::new(indent, "battle_processing");
            match troop_id {
                Some(MaybeRef::Constant(id)) => {
                    w.write_param("troop", &Ident(config.get_troop_name(*id)));
                },
                Some(MaybeRef::Ref(id)) => {
                    w.write_param("troop_id", &Ident(config.get_variable_name(*id)));
                },
                None => {
                    let t = crate::text::owned("game.random_encounter_troop_id()");
                    w.write_param("troop_id", &Ident(t));
                },
            }
            w.write_param("can_escape", can_escape);
            w.write_param("can_lose", can_lose);
            w.finish();
            push_str(out, w.text.as_str());
            assert(out@ =~= old(out)@ + py_text(*config, indent as int, c@));
        },
        Command::NameInputProcessing { actor_id, max_len } => {
            let mut w = FunctionCallWriter::new(indent, "name_input_processing");
            w.set_multiline(false);
            w.write_param("actor", &Ident(config.get_actor_name(*actor_id)));
            w.write_param("max_len", max_len);
            w.finish();
            push_str(out, w.text.as_str());
            assert(out@ =~= old(out)@ + py_text(*config, indent as int, c@));
        },
        Command::ChangeHp { actor_id, is_add, value, allow_death } => {
            let mut w = FunctionCallWriter::new(indent, "gain_hp");
            w.set_multiline(false);
            let (key, name) = actor_arg(config, *actor_id);
            w.write_param(key, &Ident(name));
            w.write_param("value", &Ident(signed_string(*is_add, ref_string(config, *value))));
            w.write_param("allow_death", allow_death);
            w.finish();
            push_str(out, w.text.as_str());
            assert(out@ =~= old(out)@ + py_text(*config, indent as int, c@));
        },
        Command::ChangeMp { actor_id, is_add, value } => {
            let mut w = FunctionCallWriter::new(indent, "gain_mp");
            w.set_multiline(false);
            let (key, name) = actor_arg(config, *actor_id);
            w.write_param(key, &Ident(name));
            w.write_param("value", &Ident(signed_string(*is_add, ref_string(config, *value))));
            w.finish();
            push_str(out, w.text.as_str());
            assert(out@ =~= old(out)@ + py_text(*config, indent as int, c@));
        },
        _ => {
            proof {
                lemma_battle_group(c);
            }
        },
    }
}

/// Appends `change_state_text`.
fn push_change_state(
    out: &mut String,
    config: &Config,
    actor_id: MaybeRef<u32>,
    is_add_state: bool,
    state_id: u32,
)
    ensures
        final(out)@ == old(out)@ + change_state_text(*config, actor_id, is_add_state, state_id),
{
    if is_add_state {
        push_str(out, "add_state");
    } else {
        push_str(out, "remove_state");
    }
    push_char(out, '(');
    let ghost s1 = out@;
    match actor_id {
        MaybeRef::Constant(id) => {
            if id == 0 {
                push_str(out, "actors=game_party");
            } else {
                push_str(out, "actor=");
                config.push_name(out, NameKind::Actor, id);
            }
        },
        MaybeRef::Ref(id) => {
            push_str(out, "actor_id=");
            config.push_name(out, NameKind::Variable, id);
        },
    }
    let ghost s2 = out@;
    push_str(out, ", state=");
    config.push_name(out, NameKind::State, state_id);
    push_char(out, ')');
    assert(final(out)@ =~= old(out)@ + change_state_text(*config, actor_id, is_add_state, state_id));
}

/// Appends `actor=name` or `actor_id=name`.
fn push_actor_arg(out: &mut String, config: &Config, actor_id: MaybeRef<u32>)
    ensures
        final(out)@ == old(out)@ + actor_param(*config, actor_id).0 + seq!['='] + actor_param(
            *config,
            actor_id,
        ).1,
{
    let (key, name) = actor_arg(config, actor_id);
    push_str(out, key);
    push_char(out, '=');
    push_str(out, name.as_str());
}

/// Appends `change_level_text`.
fn push_change_level(
    out: &mut String,
    config: &Config,
    actor_id: MaybeRef<u32>,
    is_add: bool,
    value: MaybeRef<u32>,
    show_level_up: bool,
)
    ensures
        final(out)@ == old(out)@ + change_level_text(
            *config,
            actor_id,
            is_add,
            value,
            show_level_up,
        ),
{
    push_str(out, "gain_level(");
    push_actor_arg(out, config, actor_id);
    push_str(out, ", value=");
    let v = signed_string(is_add, ref_string(config, value));
    push_str(out, v.as_str());
    push_str(out, ", show_level_up=");
    push_bool(out, show_level_up);
    push_char(out, ')');
    assert(final(out)@ =~= old(out)@ + change_level_text(
        *config,
        actor_id,
        is_add,
        value,
        show_level_up,
    ));
}

/// Appends `change_skill_text`.
fn push_change_skill(
    out: &mut String,
    config: &Config,
    actor_id: MaybeRef<u32>,
    is_learn_skill: bool,
    skill_id: u32,
)
    ensures
        final(out)@ == old(out)@ + change_skill_text(*config, actor_id, is_learn_skill, skill_id),
{
    if is_learn_skill {
        push_str(out, "learn_skill");
    } else {
        push_str(out, "forget_skill");
    }
    push_char(out, '(');
    push_actor_arg(out, config, actor_id);
    push_str(out, ", skill=");
    config.push_name(out, NameKind::Skill, skill_id);
    push_char(out, ')');
    assert(final(out)@ =~= old(out)@ + change_skill_text(
        *config,
        actor_id,
        is_learn_skill,
        skill_id,
    ));
}

/// Writes a command that changes an actor's state, level, skill or class.
#[verifier::rlimit(100)]
fn write_actor(config: &Config, indent: u16, c: &Command, out: &mut String)
    requires
        writable(indent, c@),
        actor_group(c@),
    ensures
        final(out)@ == old(out)@ + py_text(*config, indent as int, c@),
{
    match c {
        Command::ChangeState { actor_id, is_add_state, state_id } => {
            write_indent(out, indent);
            push_change_state(out, config, *actor_id, *is_add_state, *state_id);
            push_char(out, '\n');
            assert(out@ =~= old(out)@ + py_text(*config, indent as int, c@));
        },
        Command::ChangeLevel { actor_id, is_add, value, show_level_up } => {
            write_indent(out, indent);
            push_change_level(out, config, *actor_id, *is_add, *value, *show_level_up);
            push_char(out, '\n');
            assert(out@ =~= old(out)@ + py_text(*config, indent as int, c@));
        },
        Command::ChangeSkill { actor_id, is_learn_skill, skill_id } => {
            write_indent(out, indent);
            push_change_skill(out, config, *actor_id, *is_learn_skill, *skill_id);
            push_char(out, '\n');
            assert(out@ =~= old(out)@ + py_text(*config, indent as int, c@));
        },
        Command::ChangeClass { actor_id, class_id, keep_exp } => {
            write_indent(out, indent);
            push_str(out, "change_class(actor=");
            config.push_name(out, NameKind::Actor, *actor_id);
            push_str(out, ", klass=");
            config.push_name(out, NameKind::Class, *class_id);
            push_str(out, ", keep_exp=");
            push_bool(out, *keep_exp);
            push_char(out, ')');
            push_char(out, '\n');
            assert(out@ =~= old(out)@ + py_text(*config, indent as int, c@));
        },
        _ => {
            proof {
                lemma_actor_group(c);
            }
        },
    }
}

/// Writes a command of actor images, forced actions, scripts or plugins.
#[verifier::rlimit(100)]
fn write_script(config: &Config, indent: u16, c: &Command, out: &mut String)
    requires
        writable(indent, c@),
        script_group(c@),
    ensures
        final(out)@ == old(out)@ + py_text(*config, indent as int, c@),
{
    match c {
        Command::ChangeActorImages {
            actor_id,
            character_name,
            character_index,
            face_name,
            face_index,
            battler_name,
        } => {
            push_line(out, indent, "change_actor_images(");
            let actor = config.get_actor_name(*actor_id);
            push_text_line(out, indent + 1, "actor=", actor.as_str());
            let mut cn = String::new();
            push_quoted(&mut cn, character_name.as_str());
            push_text_line(out, indent + 1, "character_name=", cn.as_str());
            let mut ci = String::new();
            push_u64(&mut ci, *character_index as u64);
            push_text_line(out, indent + 1, "character_index=", ci.as_str());
            let mut fname = String::new();
            push_quoted(&mut fname, face_name.as_str());
            push_text_line(out, indent + 1, "face_name=", fname.as_str());
            let mut fi = String::new();
            push_u64(&mut fi, *face_index as u64);
            push_text_line(out, indent + 1, "face_index=", fi.as_str());
            let mut bn = String::new();
            push_quoted(&mut bn, battler_name.as_str());
            push_text_line(out, indent + 1, "battler_name=", bn.as_str());
            let ghost before = out@;
            write_indent(out, indent);
            push_char(out, ')');
            push_char(out, '\n');
            assert(out@ =~= before + line(indent as int, seq![')']));
            assert(out@ =~= old(out)@ + py_text(*config, indent as int, c@));
        },
        Command::ForceAction { is_enemy, id, skill_id, target_index } => {
            write_indent(out, indent);
            push_str(out, "force_action(");
            if *is_enemy {
                push_str(out, "enemy_index=");
                push_u64(out, *id as u64);
            } else {
                push_str(out, "actor=");
                config.push_name(out, NameKind::Actor, *id);
            }
            push_str(out, ", skill=");
            config.push_name(out, NameKind::Skill, *skill_id);
            push_str(out, ", target_index=");
            push_u64(out, *target_index as u64);
            push_char(out, ')');
            push_char(out, '\n');
            assert(out@ =~= old(out)@ + py_text(*config, indent as int, c@));
        },
        Command::AbortBattle => {
            let mut w = FunctionCallWriter::new(indent, "abort_battle");
            w.finish();
            push_str(out, w.text.as_str());
            assert(out@ =~= old(out)@ + py_text(*config, indent as int, c@));
        },
        Command::ReturnToTitleScreen => {
            let mut w = FunctionCallWriter::new(indent, "return_to_title_screen");
            w.finish();
            push_str(out, w.text.as_str());
            assert(out@ =~= old(out)@ + py_text(*config, indent as int, c@));
        },
        Command::Script { lines } => {
            push_line(out, indent, "script(");
            push_lines_list(out, indent, lines);
            assert(out@ =~= old(out)@ + py_text(*config, indent as int, c@));
        },
        Command::PluginCommand { params } => {
            write_indent(out, indent);
            push_str(out, "plugin_command(");
            push_plugin_args(out, params);
            push_char(out, ')');
            push_char(out, '\n');
            assert(out@ =~= old(out)@ + py_text(*config, indent as int, c@));
        },
        _ => {
            proof {
                lemma_script_group(c);
            }
        },
    }
}

/// Writes a branch, the end of a block or an unknown command.
#[verifier::rlimit(100)]
fn write_last(config: &Config, indent: u16, c: &Command, out: &mut String)
    requires
        writable(indent, c@),
        last_group(c@),
    ensures
        final(out)@ == old(out)@ + py_text(*config, indent as int, c@),
{
    match c {
        Command::When { choice_index, choice_name } => {
            write_indent(out, indent);
            push_str(out, "if get_choice_index() == ");
            push_u64(out, *choice_index as u64);
            push_str(out, ": # ");
            push_str(out, choice_name.as_str());
            push_char(out, '\n');
            assert(out@ =~= old(out)@ + py_text(*config, indent as int, c@));
        },
        Command::WhenCancel { choice_index, .. } => {
            write_indent(out, indent);
            push_str(out, "if get_choice_index() == -1: # Cancel, index=");
            push_u64(out, *choice_index as u64);
            push_char(out, '\n');
            assert(out@ =~= old(out)@ + py_text(*config, indent as int, c@));
        },
        Command::WhenEnd => {
            assert(out@ =~= old(out)@ + py_text(*config, indent as int, c@));
        },
        Command::Else => {
            push_line(out, indent, "else:");
            assert(out@ =~= old(out)@ + py_text(*config, indent as int, c@));
        },
        Command::ConditionalBranchEnd => {
            assert(out@ =~= old(out)@ + py_text(*config, indent as int, c@));
        },
        Command::IfWin => {
            push_str(out, "if game_battle_result.is_win():\n");
            assert(out@ =~= old(out)@ + py_text(*config, indent as int, c@));
        },
        Command::IfEscape => {
            push_str(out, "if game_battle_result.is_escape():\n");
            assert(out@ =~= old(out)@ + py_text(*config, indent as int, c@));
        },
        Command::IfLose => {
            push_str(out, "if game_battle_result.is_lose():\n");
            assert(out@ =~= old(out)@ + py_text(*config, indent as int, c@));
        },
        Command::BattleResultEnd => {
            assert(out@ =~= old(out)@ + py_text(*config, indent as int, c@));
        },
        Command::Unknown { code, parameters } => {
            write_indent(out, indent);
            push_str(out, "# Unknown Command Code ");
            crate::code::CommandCode(*code).push_debug_text(out);
            push_str(out, ", parameters: ");
            push_json_list_debug(out, parameters);
            push_char(out, '\n');
            assert(out@ =~= old(out)@ + py_text(*config, indent as int, c@));
        },
        _ => {
            proof {
                lemma_last_group(c);
            }
        },
    }
}

/// Writes the code for one command at `indent`; `false`, with nothing
/// written, for a cancel branch that names its choice.
pub fn command2py(config: &Config, indent: u16, command: &Command, out: &mut String) -> (ok: bool)
    requires
        writable(indent, command@),
    ensures
        ok == py_command(*config, indent as int, command@) is Some,
        ok ==> final(out)@ == old(out)@ + py_command(*config, indent as int, command@)->Some_0,
        !ok ==> final(out)@ == old(out)@,
{
    proof {
        lemma_first_group(command);
        lemma_show_picture(command);
        lemma_media_group(command);
        lemma_sound_group(command);
        lemma_battle_group(command);
        lemma_actor_group(command);
        lemma_script_group(command);
        lemma_last_group(command);
    }
    match command {
        Command::WhenCancel { choice_name: Some(_), .. } => {
            return false;
        },
        _ => {},
    }
    match command {
        Command::Nop
        | Command::ShowText { .. }
        | Command::ShowChoices { .. }
        | Command::ShowScrollingText { .. }
        | Command::Comment { .. }
        | Command::ConditionalBranch(..)
        | Command::ExitEventProcessing
        | Command::CommonEvent { .. }
        | Command::Label { .. }
        | Command::JumpToLabel { .. }
        | Command::ControlSwitches { .. }
        | Command::ControlSelfSwitch { .. }
        | Command::ControlTimer { .. }
        | Command::ChangeGold { .. }
        | Command::ChangeItems { .. }
        | Command::ChangeArmors { .. }
        | Command::ChangePartyMember { .. }
        | Command::ChangeSaveAccess { .. } => write_first(config, indent, command, out),
        Command::SetEventLocation { .. }
        | Command::TransferPlayer { .. }
        | Command::SetMovementRoute { .. } => write_movement(config, indent, command, out),
        Command::ChangeTransparency { .. }
        | Command::ChangePlayerFollowers { .. }
        | Command::FadeoutScreen
        | Command::FadeinScreen
        | Command::TintScreen { .. }
        | Command::FlashScreen { .. } => write_screen_line(config, indent, command, out),
        Command::ShowAnimation { .. }
        | Command::ShowBalloonIcon { .. }
        | Command::ShakeScreen { .. }
        | Command::Wait { .. } => write_effect_call(config, indent, command, out),
        Command::ShowPicture { .. } => write_show_picture(config, indent, command, out),
        Command::ErasePicture { .. }
        | Command::PlayBgm { .. }
        | Command::FadeoutBgm { .. }
        | Command::SaveBgm
        | Command::ResumeBgm => write_media(config, indent, command, out),
        Command::PlayBgs { .. }
        | Command::FadeoutBgs { .. }
        | Command::PlaySe { .. }
        | Command::GetLocationInfo { .. } => write_sound(config, indent, command, out),
        Command::BattleProcessing { .. }
        | Command::NameInputProcessing { .. }
        | Command::ChangeHp { .. }
        | Command::ChangeMp { .. } => write_battle(config, indent, command, out),
        Command::ChangeState { .. }
        | Command::ChangeLevel { .. }
        | Command::ChangeSkill { .. }
        | Command::ChangeClass { .. } => write_actor(config, indent, command, out),
        Command::ChangeActorImages { .. }
        | Command::ForceAction { .. }
        | Command::AbortBattle
        | Command::ReturnToTitleScreen
        | Command::Script { .. }
        | Command::PluginCommand { .. } => write_script(config, indent, command, out),
        _ => write_last(config, indent, command, out),
    }
    true
}

/// Whether every command that writing reaches stays within the arithmetic of
/// its writer: one that does not only stands after a command with no code.
pub open spec fn list_writable(config: Config, cs: Seq<(u16, CommandView)>) -> bool {
    forall|i: int|
        0 <= i < cs.len() && #[trigger] py_commands(config, cs.take(i)) is Some ==> writable(
            cs[i].0,
            cs[i].1,
        )
}

/// The command that could not be written, by its index.
#[derive(Debug, Clone, Copy, PartialEq, Eq)]
pub struct GenerateError {
    pub index: usize,
}

/// Writes the code for a list of commands, each at its own indent. The error
/// names the first command that has no code: a cancel branch that names its
/// choice.
pub fn commands2py(config: &Config, commands: &Vec<(u16, Command)>) -> (r: Result<String, GenerateError>)
    requires
        list_writable(*config, crate::event_list::command_views(commands@)),
    ensures
        match r {
            Ok(s) => py_commands(*config, crate::event_list::command_views(commands@)) == Some(s@),
            Err(e) => e.index < commands@.len() && py_commands(
                *config,
                crate::event_list::command_views(commands@).take(e.index as int),
            ) is Some && py_command(
                *config,
                commands@[e.index as int].0 as int,
                commands@[e.index as int].1@,
            ) is None,
        },
{
    let ghost views = crate::event_list::command_views(commands@);
    let mut out = String::new();
    let mut i: usize = 0;
    assert(views.take(0) =~= seq![]);
    while i < commands.len()
        invariant
            i <= commands@.len(),
            views == crate::event_list::command_views(commands@),
            list_writable(*config, views),
            py_commands(*config, views.take(i as int)) == Some(out@),
        decreases commands@.len() - i,
    {
        let ghost prefix = views.take(i + 1);
        assert(prefix.drop_last() =~= views.take(i as int));
        assert(prefix.last() == (commands@[i as int].0, commands@[i as int].1@));
        assert(writable(commands@[i as int].0, commands@[i as int].1@));
        let (indent, command) = &commands[i];
        if !command2py(config, *indent, command, &mut out) {
            return Err(GenerateError { index: i });
        }
        i = i + 1;
    }
    assert(views.take(commands@.len() as int) =~= views);
    Ok(out)
}

/// The code for two lists one after the other is the code for the first
/// followed by the code for the second; the joined list has code exactly
/// where both parts have.
pub proof fn lemma_py_commands_concat(
    config: Config,
    a: Seq<(u16, CommandView)>,
    b: Seq<(u16, CommandView)>,
)
    ensures
        py_commands(config, a + b) == match (py_commands(config, a), py_commands(config, b)) {
            (Some(x), Some(y)) => Some(x + y),
            _ => None::<Seq<char>>,
        },
    decreases b.len(),
{
    if b.len() == 0 {
        assert(a + b =~= a);
        if let Some(x) = py_commands(config, a) {
            assert(x + seq![] =~= x);
        }
    } else {
        lemma_py_commands_concat(config, a, b.drop_last());
        assert((a + b).drop_last() =~= a + b.drop_last());
        assert((a + b).last() == b.last());
        if let (Some(x), Some(y)) = (py_commands(config, a), py_commands(config, b.drop_last())) {
            if let Some(z) = py_command(config, b.last().0 as int, b.last().1) {
                assert(x + y + z =~= x + (y + z));
            }
        }
    }
}

} // verus!

verus! {

/// A timer branch compares the timer's seconds with its value: at least the
/// value where `is_gte`, at most the value otherwise.
pub proof fn lemma_timer_branch_text(config: Config, indent: u16, value: u32, is_gte: bool)
    ensures
        py_command(
            config,
            indent as int,
            CommandView::ConditionalBranch(ConditionalBranchView::Timer { value, is_gte }),
        ) == Some(
            tabs(indent as int) + "if "@ + "game_timer.seconds() "@ + (if is_gte {
                ">="@
            } else {
                "<="@
            }) + seq![' '] + nat_text(value as nat) + seq![':', '\n'],
        ),
{
    let t = tabs(indent as int) + "if "@ + "game_timer.seconds() "@ + (if is_gte {
        ">="@
    } else {
        "<="@
    }) + seq![' '] + nat_text(value as nat) + seq![':', '\n'];
    assert(py_text(
        config,
        indent as int,
        CommandView::ConditionalBranch(ConditionalBranchView::Timer { value, is_gte }),
    ) =~= t);
}

/// A switch branch tests the switch, or its negation where `check_true` is
/// false.
pub proof fn lemma_switch_branch_text(config: Config, indent: u16, id: u32, check_true: bool)
    ensures
        py_command(
            config,
            indent as int,
            CommandView::ConditionalBranch(ConditionalBranchView::Switch { id, check_true }),
        ) == Some(
            tabs(indent as int) + "if "@ + (if check_true {
                seq![]
            } else {
                "not "@
            }) + config.name(NameKind::Switch, id) + seq![':', '\n'],
        ),
{
    let t = tabs(indent as int) + "if "@ + (if check_true {
        seq![]
    } else {
        "not "@
    }) + config.name(NameKind::Switch, id) + seq![':', '\n'];
    assert(py_text(
        config,
        indent as int,
        CommandView::ConditionalBranch(ConditionalBranchView::Switch { id, check_true }),
    ) =~= t);
}

/// Changing items by a constant writes `gain_item` with the amount, negated
/// where the items are taken away.
pub proof fn lemma_gain_item_text(config: Config, indent: u16, item_id: u32, is_add: bool, v: u32)
    ensures
        py_command(
            config,
            indent as int,
            CommandView::ChangeItems { item_id, is_add, value: MaybeRef::Constant(v) },
        ) == Some(
            tabs(indent as int) + "gain_item"@ + seq!['('] + "item"@ + seq!['='] + config.name(
                NameKind::Item,
                item_id,
            ) + seq![','] + "value"@ + seq!['='] + (if is_add {
                seq![]
            } else {
                seq!['-']
            }) + nat_text(v as nat) + seq![')', '\n'],
        ),
{
    let t = tabs(indent as int) + "gain_item"@ + seq!['('] + "item"@ + seq!['='] + config.name(
        NameKind::Item,
        item_id,
    ) + seq![','] + "value"@ + seq!['='] + (if is_add {
        seq![]
    } else {
        seq!['-']
    }) + nat_text(v as nat) + seq![')', '\n'];
    assert(py_text(
        config,
        indent as int,
        CommandView::ChangeItems { item_id, is_add, value: MaybeRef::Constant(v) },
    ) =~= t);
}

/// Changing gold by a constant adds to it or takes from it.
pub proof fn lemma_change_gold_text(config: Config, indent: u16, is_add: bool, v: u32)
    ensures
        py_command(
            config,
            indent as int,
            CommandView::ChangeGold { is_add, value: MaybeRef::Constant(v) },
        ) == Some(
            tabs(indent as int) + "game_party.gold "@ + (if is_add {
                "+="@
            } else {
                "-="@
            }) + seq![' '] + nat_text(v as nat) + seq!['\n'],
        ),
{
    let t = tabs(indent as int) + "game_party.gold "@ + (if is_add {
        "+="@
    } else {
        "-="@
    }) + seq![' '] + nat_text(v as nat) + seq!['\n'];
    assert(py_text(
        config,
        indent as int,
        CommandView::ChangeGold { is_add, value: MaybeRef::Constant(v) },
    ) =~= t);
}

/// Setting one switch writes one assignment of `True` (operation on) or
/// `False` (off) to the switch.
pub proof fn lemma_single_switch_text(config: Config, indent: u16, id: u32, value: bool)
    requires
        id < u32::MAX,
    ensures
        py_command(
            config,
            indent as int,
            CommandView::ControlSwitches { start_id: id, end_id: id, value },
        ) == Some(
            tabs(indent as int) + config.name(NameKind::Switch, id) + " = "@ + (if value {
                "True"@
            } else {
                "False"@
            }) + seq!['\n'],
        ),
{
    assert(switch_lines(config, indent as int, id as int, id as int, value) =~= Seq::<char>::empty());
    let t = tabs(indent as int) + config.name(NameKind::Switch, id) + " = "@ + (if value {
        "True"@
    } else {
        "False"@
    }) + seq!['\n'];
    assert(py_text(
        config,
        indent as int,
        CommandView::ControlSwitches { start_id: id, end_id: id, value },
    ) =~= t);
}

/// Adding a state to an actor writes `add_state`, removing it `remove_state`.
pub proof fn lemma_change_state_text(
    config: Config,
    indent: u16,
    actor: u32,
    is_add_state: bool,
    state: u32,
)
    requires
        actor != 0,
    ensures
        py_command(
            config,
            indent as int,
            CommandView::ChangeState {
                actor_id: MaybeRef::Constant(actor),
                is_add_state,
                state_id: state,
            },
        ) == Some(
            tabs(indent as int) + (if is_add_state {
                "add_state"@
            } else {
                "remove_state"@
            }) + seq!['('] + "actor="@ + config.name(NameKind::Actor, actor) + ", state="@
                + config.name(NameKind::State, state) + seq![')', '\n'],
        ),
{
    let t = tabs(indent as int) + (if is_add_state {
        "add_state"@
    } else {
        "remove_state"@
    }) + seq!['('] + "actor="@ + config.name(NameKind::Actor, actor) + ", state="@ + config.name(
        NameKind::State,
        state,
    ) + seq![')', '\n'];
    assert(py_text(
        config,
        indent as int,
        CommandView::ChangeState {
            actor_id: MaybeRef::Constant(actor),
            is_add_state,
            state_id: state,
        },
    ) =~= t);
}

} // verus!
