//! The numeric codes of event commands and their names.
use crate::decimal::{nat_text, push_u64};
use crate::text::push_str;
use vstd::prelude::*;

verus! {

/// A command code.
#[derive(Clone, Copy, PartialEq, Eq, Debug)]
pub struct CommandCode(pub u32);

pub const NOP: u32 = 0;
pub const SHOW_TEXT: u32 = 101;
pub const SHOW_CHOICES: u32 = 102;
pub const INPUT_NUMBER: u32 = 103;
pub const SELECT_ITEM: u32 = 104;
pub const SHOW_SCROLLING_TEXT: u32 = 105;
pub const COMMENT: u32 = 108;
pub const CONDITONAL_BRANCH: u32 = 111;
pub const LOOP: u32 = 112;
pub const EXIT_EVENT_PROCESSING: u32 = 115;
pub const COMMON_EVENT: u32 = 117;
pub const LABEL: u32 = 118;
pub const JUMP_TO_LABEL: u32 = 119;
pub const CONTROL_SWITCHES: u32 = 121;
pub const CONTROL_VARIABLES: u32 = 122;
pub const CONTROL_SELF_SWITCH: u32 = 123;
pub const CONTROL_TIMER: u32 = 124;
pub const CHANGE_GOLD: u32 = 125;
pub const CHANGE_ITEMS: u32 = 126;
pub const CHANGE_ARMORS: u32 = 128;
pub const CHANGE_PARTY_MEMBER: u32 = 129;
pub const CHANGE_SAVE_ACCESS: u32 = 134;
pub const CHANGE_ENCOUNTER: u32 = 136;
pub const TRANSFER_PLAYER: u32 = 201;
pub const SET_EVENT_LOCATION: u32 = 203;
pub const SCROLL_MAP: u32 = 204;
pub const SET_MOVEMENT_ROUTE: u32 = 205;
pub const CHANGE_TRANSPARENCY: u32 = 211;
pub const SHOW_ANIMATION: u32 = 212;
pub const SHOW_BALLOON_ICON: u32 = 213;
pub const ERASE_EVENT: u32 = 214;
pub const CHANGE_PLAYER_FOLLOWERS: u32 = 216;
pub const FADEOUT_SCREEN: u32 = 221;
pub const FADEIN_SCREEN: u32 = 222;
pub const TINT_SCREEN: u32 = 223;
pub const FLASH_SCREEN: u32 = 224;
pub const SHAKE_SCREEN: u32 = 225;
pub const WAIT: u32 = 230;
pub const SHOW_PICTURE: u32 = 231;
pub const MOVE_PICTURE: u32 = 232;
pub const ERASE_PICTURE: u32 = 235;
pub const PLAY_BGM: u32 = 241;
pub const FADEOUT_BGM: u32 = 242;
pub const SAVE_BGM: u32 = 243;
pub const RESUME_BGM: u32 = 244;
pub const PLAY_BGS: u32 = 245;
pub const FADEOUT_BGS: u32 = 246;
pub const PLAY_SE: u32 = 250;
pub const GET_LOCATION_INFO: u32 = 285;
pub const BATTLE_PROCESSING: u32 = 301;
pub const SHOP_PROCESSING: u32 = 302;
pub const NAME_INPUT_PROCESSING: u32 = 303;
pub const CHANGE_HP: u32 = 311;
pub const CHANGE_MP: u32 = 312;
pub const CHANGE_STATE: u32 = 313;
pub const RECOVER_ALL: u32 = 314;
pub const CHANGE_EXP: u32 = 315;
pub const CHANGE_LEVEL: u32 = 316;
pub const CHANGE_PARAMETER: u32 = 317;
pub const CHANGE_SKILL: u32 = 318;
pub const CHANGE_EQUIPMENT: u32 = 319;
pub const CHANGE_CLASS: u32 = 321;
pub const CHANGE_ACTOR_IMAGES: u32 = 322;
pub const CHANGE_ENEMY_HP: u32 = 331;
pub const CHANGE_ENEMY_STATE: u32 = 333;
pub const FORCE_ACTION: u32 = 339;
pub const ABORT_BATTLE: u32 = 340;
pub const OPEN_SAVE_SCREEN: u32 = 352;
pub const GAME_OVER: u32 = 353;
pub const RETURN_TO_TITLE_SCREEN: u32 = 354;
pub const SCRIPT: u32 = 355;
pub const PLUGIN_COMMAND: u32 = 356;
pub const TEXT_DATA: u32 = 401;
pub const WHEN: u32 = 402;
pub const WHEN_CANCEL: u32 = 403;
pub const WHEN_END: u32 = 404;
pub const SHOW_SCROLLING_TEXT_EXTRA: u32 = 405;
pub const COMMENT_EXTRA: u32 = 408;
pub const ELSE: u32 = 411;
pub const CONDITONAL_BRANCH_END: u32 = 412;
pub const SET_MOVEMENT_ROUTE_EXTRA: u32 = 505;
pub const IF_WIN: u32 = 601;
pub const IF_ESCAPE: u32 = 602;
pub const IF_LOSE: u32 = 603;
pub const BATTLE_RESULT_END: u32 = 604;
pub const SHOP_PROCESSING_EXTRA: u32 = 605;
pub const SCRIPT_EXTRA: u32 = 655;

/// The name of a known command code.
pub open spec fn code_name(code: u32) -> Option<Seq<char>> {
    if code == NOP {
        Some("NOP"@)
    } else if code == SHOW_TEXT {
        Some("SHOW_TEXT"@)
    } else if code == SHOW_CHOICES {
        Some("SHOW_CHOICES"@)
    } else if code == INPUT_NUMBER {
        Some("INPUT_NUMBER"@)
    } else if code == SELECT_ITEM {
        Some("SELECT_ITEM"@)
    } else if code == SHOW_SCROLLING_TEXT {
        Some("SHOW_SCROLLING_TEXT"@)
    } else if code == COMMENT {
        Some("COMMENT"@)
    } else if code == CONDITONAL_BRANCH {
        Some("CONDITONAL_BRANCH"@)
    } else if code == LOOP {
        Some("LOOP"@)
    } else if code == EXIT_EVENT_PROCESSING {
        Some("EXIT_EVENT_PROCESSING"@)
    } else if code == COMMON_EVENT {
        Some("COMMON_EVENT"@)
    } else if code == LABEL {
        Some("LABEL"@)
    } else if code == JUMP_TO_LABEL {
        Some("JUMP_TO_LABEL"@)
    } else if code == CONTROL_SWITCHES {
        Some("CONTROL_SWITCHES"@)
    } else if code == CONTROL_VARIABLES {
        Some("CONTROL_VARIABLES"@)
    } else if code == CONTROL_SELF_SWITCH {
        Some("CONTROL_SELF_SWITCH"@)
    } else if code == CONTROL_TIMER {
        Some("CONTROL_TIMER"@)
    } else if code == CHANGE_GOLD {
        Some("CHANGE_GOLD"@)
    } else if code == CHANGE_ITEMS {
        Some("CHANGE_ITEMS"@)
    } else if code == CHANGE_ARMORS {
        Some("CHANGE_ARMORS"@)
    } else if code == CHANGE_PARTY_MEMBER {
        Some("CHANGE_PARTY_MEMBER"@)
    } else if code == CHANGE_SAVE_ACCESS {
        Some("CHANGE_SAVE_ACCESS"@)
    } else if code == CHANGE_ENCOUNTER {
        Some("CHANGE_ENCOUNTER"@)
    } else if code == TRANSFER_PLAYER {
        Some("TRANSFER_PLAYER"@)
    } else if code == SET_EVENT_LOCATION {
        Some("SET_EVENT_LOCATION"@)
    } else if code == SCROLL_MAP {
        Some("SCROLL_MAP"@)
    } else if code == SET_MOVEMENT_ROUTE {
        Some("SET_MOVEMENT_ROUTE"@)
    } else if code == CHANGE_TRANSPARENCY {
        Some("CHANGE_TRANSPARENCY"@)
    } else if code == SHOW_ANIMATION {
        Some("SHOW_ANIMATION"@)
    } else if code == SHOW_BALLOON_ICON {
        Some("SHOW_BALLOON_ICON"@)
    } else if code == ERASE_EVENT {
        Some("ERASE_EVENT"@)
    } else if code == CHANGE_PLAYER_FOLLOWERS {
        Some("CHANGE_PLAYER_FOLLOWERS"@)
    } else if code == FADEOUT_SCREEN {
        Some("FADEOUT_SCREEN"@)
    } else if code == FADEIN_SCREEN {
        Some("FADEIN_SCREEN"@)
    } else if code == TINT_SCREEN {
        Some("TINT_SCREEN"@)
    } else if code == FLASH_SCREEN {
        Some("FLASH_SCREEN"@)
    } else if code == SHAKE_SCREEN {
        Some("SHAKE_SCREEN"@)
    } else if code == WAIT {
        Some("WAIT"@)
    } else if code == SHOW_PICTURE {
        Some("SHOW_PICTURE"@)
    } else if code == MOVE_PICTURE {
        Some("MOVE_PICTURE"@)
    } else if code == ERASE_PICTURE {
        Some("ERASE_PICTURE"@)
    } else if code == PLAY_BGM {
        Some("PLAY_BGM"@)
    } else if code == FADEOUT_BGM {
        Some("FADEOUT_BGM"@)
    } else if code == SAVE_BGM {
        Some("SAVE_BGM"@)
    } else if code == RESUME_BGM {
        Some("RESUME_BGM"@)
    } else if code == PLAY_BGS {
        Some("PLAY_BGS"@)
    } else if code == FADEOUT_BGS {
        Some("FADEOUT_BGS"@)
    } else if code == PLAY_SE {
        Some("PLAY_SE"@)
    } else if code == GET_LOCATION_INFO {
        Some("GET_LOCATION_INFO"@)
    } else if code == BATTLE_PROCESSING {
        Some("BATTLE_PROCESSING"@)
    } else if code == SHOP_PROCESSING {
        Some("SHOP_PROCESSING"@)
    } else if code == NAME_INPUT_PROCESSING {
        Some("NAME_INPUT_PROCESSING"@)
    } else if code == CHANGE_HP {
        Some("CHANGE_HP"@)
    } else if code == CHANGE_MP {
        Some("CHANGE_MP"@)
    } else if code == CHANGE_STATE {
        Some("CHANGE_STATE"@)
    } else if code == RECOVER_ALL {
        Some("RECOVER_ALL"@)
    } else if code == CHANGE_EXP {
        Some("CHANGE_EXP"@)
    } else if code == CHANGE_LEVEL {
        Some("CHANGE_LEVEL"@)
    } else if code == CHANGE_PARAMETER {
        Some("CHANGE_PARAMETER"@)
    } else if code == CHANGE_SKILL {
        Some("CHANGE_SKILL"@)
    } else if code == CHANGE_EQUIPMENT {
        Some("CHANGE_EQUIPMENT"@)
    } else if code == CHANGE_CLASS {
        Some("CHANGE_CLASS"@)
    } else if code == CHANGE_ACTOR_IMAGES {
        Some("CHANGE_ACTOR_IMAGES"@)
    } else if code == CHANGE_ENEMY_HP {
        Some("CHANGE_ENEMY_HP"@)
    } else if code == CHANGE_ENEMY_STATE {
        Some("CHANGE_ENEMY_STATE"@)
    } else if code == FORCE_ACTION {
        Some("FORCE_ACTION"@)
    } else if code == ABORT_BATTLE {
        Some("ABORT_BATTLE"@)
    } else if code == OPEN_SAVE_SCREEN {
        Some("OPEN_SAVE_SCREEN"@)
    } else if code == GAME_OVER {
        Some("GAME_OVER"@)
    } else if code == RETURN_TO_TITLE_SCREEN {
        Some("RETURN_TO_TITLE_SCREEN"@)
    } else if code == SCRIPT {
        Some("SCRIPT"@)
    } else if code == PLUGIN_COMMAND {
        Some("PLUGIN_COMMAND"@)
    } else if code == TEXT_DATA {
        Some("TEXT_DATA"@)
    } else if code == WHEN {
        Some("WHEN"@)
    } else if code == WHEN_CANCEL {
        Some("WHEN_CANCEL"@)
    } else if code == WHEN_END {
        Some("WHEN_END"@)
    } else if code == SHOW_SCROLLING_TEXT_EXTRA {
        Some("SHOW_SCROLLING_TEXT_EXTRA"@)
    } else if code == COMMENT_EXTRA {
        Some("COMMENT_EXTRA"@)
    } else if code == ELSE {
        Some("ELSE"@)
    } else if code == CONDITONAL_BRANCH_END {
        Some("CONDITONAL_BRANCH_END"@)
    } else if code == SET_MOVEMENT_ROUTE_EXTRA {
        Some("SET_MOVEMENT_ROUTE_EXTRA"@)
    } else if code == IF_WIN {
        Some("IF_WIN"@)
    } else if code == IF_ESCAPE {
        Some("IF_ESCAPE"@)
    } else if code == IF_LOSE {
        Some("IF_LOSE"@)
    } else if code == BATTLE_RESULT_END {
        Some("BATTLE_RESULT_END"@)
    } else if code == SHOP_PROCESSING_EXTRA {
        Some("SHOP_PROCESSING_EXTRA"@)
    } else if code == SCRIPT_EXTRA {
        Some("SCRIPT_EXTRA"@)
    } else {
        None
    }
}

/// How a command code is shown in messages: its name, or `Unknown(n)`.
pub open spec fn code_debug_text(code: u32) -> Seq<char> {
    match code_name(code) {
        Some(name) => name,
        None => "Unknown("@ + nat_text(code as nat) + ")"@,
    }
}

impl CommandCode {
    /// The name of this code, where it is a known one.
    pub fn as_str(self) -> (r: Option<&'static str>)
        ensures
            match r {
                Some(s) => code_name(self.0) == Some(s@),
                None => code_name(self.0) is None,
            },
    {
        let code = self.0;
        if code == NOP {
            Some("NOP")
        } else if code == SHOW_TEXT {
            Some("SHOW_TEXT")
        } else if code == SHOW_CHOICES {
            Some("SHOW_CHOICES")
        } else if code == INPUT_NUMBER {
            Some("INPUT_NUMBER")
        } else if code == SELECT_ITEM {
            Some("SELECT_ITEM")
        } else if code == SHOW_SCROLLING_TEXT {
            Some("SHOW_SCROLLING_TEXT")
        } else if code == COMMENT {
            Some("COMMENT")
        } else if code == CONDITONAL_BRANCH {
            Some("CONDITONAL_BRANCH")
        } else if code == LOOP {
            Some("LOOP")
        } else if code == EXIT_EVENT_PROCESSING {
            Some("EXIT_EVENT_PROCESSING")
        } else if code == COMMON_EVENT {
            Some("COMMON_EVENT")
        } else if code == LABEL {
            Some("LABEL")
        } else if code == JUMP_TO_LABEL {
            Some("JUMP_TO_LABEL")
        } else if code == CONTROL_SWITCHES {
            Some("CONTROL_SWITCHES")
        } else if code == CONTROL_VARIABLES {
            Some("CONTROL_VARIABLES")
        } else if code == CONTROL_SELF_SWITCH {
            Some("CONTROL_SELF_SWITCH")
        } else if code == CONTROL_TIMER {
            Some("CONTROL_TIMER")
        } else if code == CHANGE_GOLD {
            Some("CHANGE_GOLD")
        } else if code == CHANGE_ITEMS {
            Some("CHANGE_ITEMS")
        } else if code == CHANGE_ARMORS {
            Some("CHANGE_ARMORS")
        } else if code == CHANGE_PARTY_MEMBER {
            Some("CHANGE_PARTY_MEMBER")
        } else if code == CHANGE_SAVE_ACCESS {
            Some("CHANGE_SAVE_ACCESS")
        } else if code == CHANGE_ENCOUNTER {
            Some("CHANGE_ENCOUNTER")
        } else if code == TRANSFER_PLAYER {
            Some("TRANSFER_PLAYER")
        } else if code == SET_EVENT_LOCATION {
            Some("SET_EVENT_LOCATION")
        } else if code == SCROLL_MAP {
            Some("SCROLL_MAP")
        } else if code == SET_MOVEMENT_ROUTE {
            Some("SET_MOVEMENT_ROUTE")
        } else if code == CHANGE_TRANSPARENCY {
            Some("CHANGE_TRANSPARENCY")
        } else if code == SHOW_ANIMATION {
            Some("SHOW_ANIMATION")
        } else if code == SHOW_BALLOON_ICON {
            Some("SHOW_BALLOON_ICON")
        } else if code == ERASE_EVENT {
            Some("ERASE_EVENT")
        } else if code == CHANGE_PLAYER_FOLLOWERS {
            Some("CHANGE_PLAYER_FOLLOWERS")
        } else if code == FADEOUT_SCREEN {
            Some("FADEOUT_SCREEN")
        } else if code == FADEIN_SCREEN {
            Some("FADEIN_SCREEN")
        } else if code == TINT_SCREEN {
            Some("TINT_SCREEN")
        } else if code == FLASH_SCREEN {
            Some("FLASH_SCREEN")
        } else if code == SHAKE_SCREEN {
            Some("SHAKE_SCREEN")
        } else if code == WAIT {
            Some("WAIT")
        } else if code == SHOW_PICTURE {
            Some("SHOW_PICTURE")
        } else if code == MOVE_PICTURE {
            Some("MOVE_PICTURE")
        } else if code == ERASE_PICTURE {
            Some("ERASE_PICTURE")
        } else if code == PLAY_BGM {
            Some("PLAY_BGM")
        } else if code == FADEOUT_BGM {
            Some("FADEOUT_BGM")
        } else if code == SAVE_BGM {
            Some("SAVE_BGM")
        } else if code == RESUME_BGM {
            Some("RESUME_BGM")
        } else if code == PLAY_BGS {
            Some("PLAY_BGS")
        } else if code == FADEOUT_BGS {
            Some("FADEOUT_BGS")
        } else if code == PLAY_SE {
            Some("PLAY_SE")
        } else if code == GET_LOCATION_INFO {
            Some("GET_LOCATION_INFO")
        } else if code == BATTLE_PROCESSING {
            Some("BATTLE_PROCESSING")
        } else if code == SHOP_PROCESSING {
            Some("SHOP_PROCESSING")
        } else if code == NAME_INPUT_PROCESSING {
            Some("NAME_INPUT_PROCESSING")
        } else if code == CHANGE_HP {
            Some("CHANGE_HP")
        } else if code == CHANGE_MP {
            Some("CHANGE_MP")
        } else if code == CHANGE_STATE {
            Some("CHANGE_STATE")
        } else if code == RECOVER_ALL {
            Some("RECOVER_ALL")
        } else if code == CHANGE_EXP {
            Some("CHANGE_EXP")
        } else if code == CHANGE_LEVEL {
            Some("CHANGE_LEVEL")
        } else if code == CHANGE_PARAMETER {
            Some("CHANGE_PARAMETER")
        } else if code == CHANGE_SKILL {
            Some("CHANGE_SKILL")
        } else if code == CHANGE_EQUIPMENT {
            Some("CHANGE_EQUIPMENT")
        } else if code == CHANGE_CLASS {
            Some("CHANGE_CLASS")
        } else if code == CHANGE_ACTOR_IMAGES {
            Some("CHANGE_ACTOR_IMAGES")
        } else if code == CHANGE_ENEMY_HP {
            Some("CHANGE_ENEMY_HP")
        } else if code == CHANGE_ENEMY_STATE {
            Some("CHANGE_ENEMY_STATE")
        } else if code == FORCE_ACTION {
            Some("FORCE_ACTION")
        } else if code == ABORT_BATTLE {
            Some("ABORT_BATTLE")
        } else if code == OPEN_SAVE_SCREEN {
            Some("OPEN_SAVE_SCREEN")
        } else if code == GAME_OVER {
            Some("GAME_OVER")
        } else if code == RETURN_TO_TITLE_SCREEN {
            Some("RETURN_TO_TITLE_SCREEN")
        } else if code == SCRIPT {
            Some("SCRIPT")
        } else if code == PLUGIN_COMMAND {
            Some("PLUGIN_COMMAND")
        } else if code == TEXT_DATA {
            Some("TEXT_DATA")
        } else if code == WHEN {
            Some("WHEN")
        } else if code == WHEN_CANCEL {
            Some("WHEN_CANCEL")
        } else if code == WHEN_END {
            Some("WHEN_END")
        } else if code == SHOW_SCROLLING_TEXT_EXTRA {
            Some("SHOW_SCROLLING_TEXT_EXTRA")
        } else if code == COMMENT_EXTRA {
            Some("COMMENT_EXTRA")
        } else if code == ELSE {
            Some("ELSE")
        } else if code == CONDITONAL_BRANCH_END {
            Some("CONDITONAL_BRANCH_END")
        } else if code == SET_MOVEMENT_ROUTE_EXTRA {
            Some("SET_MOVEMENT_ROUTE_EXTRA")
        } else if code == IF_WIN {
            Some("IF_WIN")
        } else if code == IF_ESCAPE {
            Some("IF_ESCAPE")
        } else if code == IF_LOSE {
            Some("IF_LOSE")
        } else if code == BATTLE_RESULT_END {
            Some("BATTLE_RESULT_END")
        } else if code == SHOP_PROCESSING_EXTRA {
            Some("SHOP_PROCESSING_EXTRA")
        } else if code == SCRIPT_EXTRA {
            Some("SCRIPT_EXTRA")
        } else {
            None
        }
    }

    /// Appends how this code is shown in messages to `out`.
    pub fn push_debug_text(self, out: &mut String)
        ensures
            final(out)@ == old(out)@ + code_debug_text(self.0),
    {
        match self.as_str() {
            Some(s) => push_str(out, s),
            None => {
                push_str(out, "Unknown(");
                push_u64(out, self.0 as u64);
                push_str(out, ")");
                assert(final(out)@ =~= old(out)@ + code_debug_text(self.0));
            },
        }
    }
}

} // verus!
