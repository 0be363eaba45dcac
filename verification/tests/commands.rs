use rpgmv_tool::command::{Command, MaybeRef};
use rpgmv_tool::conditional_branch::{
    ConditionalBranchCommand, ConditionalBranchKindGoldCheck, ConditionalBranchVariableOperation,
};
use rpgmv_tool::config::Config;
use rpgmv_tool::event_list::{parse_event_command_list, CommandListError};
use rpgmv_tool::generate::{command2py, commands2py, GenerateError};
use rpgmv_tool::json::JsonValue;
use rpgmv_tool::types::{AudioFile, EventCommand};

fn ev(code: u32, indent: u16, parameters: Vec<JsonValue>) -> EventCommand {
    EventCommand {
        code,
        indent,
        parameters,
        collapsed: None,
    }
}

fn num(n: i64) -> JsonValue {
    JsonValue::Int(n)
}

fn text(s: &str) -> JsonValue {
    JsonValue::String(s.to_string())
}

fn py(commands: Vec<EventCommand>) -> String {
    let list = parse_event_command_list(&commands).expect("commands decode");
    commands2py(&Config::new(), &list).expect("commands write")
}

#[test]
fn show_text_gathers_its_lines() {
    let list = vec![
        ev(101, 0, vec![text("Actor1"), num(0), num(0), num(2)]),
        ev(401, 0, vec![text("Hello")]),
        ev(401, 0, vec![text("World")]),
        ev(0, 0, vec![]),
    ];
    let commands = parse_event_command_list(&list).unwrap();
    assert_eq!(commands.len(), 2);
    match &commands[0].1 {
        Command::ShowText {
            face_name,
            position_type,
            lines,
            ..
        } => {
            assert_eq!(face_name, "Actor1");
            assert_eq!(*position_type, 2);
            assert_eq!(lines, &vec!["Hello".to_string(), "World".to_string()]);
        }
        other => panic!("unexpected {other:?}"),
    }
    assert!(matches!(commands[1].1, Command::Nop));
    assert_eq!(
        commands2py(&Config::new(), &commands).unwrap(),
        "show_text(\n\tface_name='Actor1',\n\tface_index=0,\n\tbackground=0,\n\tposition_type=2,\n\tlines=[\n\t\t'Hello',\n\t\t'World',\n\t],\n)\n"
    );
}

#[test]
fn text_line_without_message_is_unknown() {
    let list = vec![ev(401, 0, vec![text("stray")])];
    let commands = parse_event_command_list(&list).unwrap();
    assert!(matches!(commands[0].1, Command::Unknown { code: 401, .. }));
    assert_eq!(
        commands2py(&Config::new(), &commands).unwrap(),
        "# Unknown Command Code TEXT_DATA, parameters: [String(\"stray\")]\n"
    );
}

#[test]
fn bad_parameters_name_the_command() {
    let list = vec![
        ev(0, 0, vec![]),
        ev(117, 0, vec![text("not a number")]),
        ev(0, 0, vec![]),
    ];
    assert_eq!(
        parse_event_command_list(&list).unwrap_err(),
        CommandListError { index: 1, code: 117 }
    );
    let list = vec![ev(0, 0, vec![num(1)])];
    assert_eq!(
        parse_event_command_list(&list).unwrap_err(),
        CommandListError { index: 0, code: 0 }
    );
}

#[test]
fn transfer_player_reads_direction_from_y_slot() {
    let list = vec![ev(201, 1, vec![num(0), num(3), num(4), num(5), num(2), num(0)])];
    let commands = parse_event_command_list(&list).unwrap();
    match &commands[0].1 {
        Command::TransferPlayer {
            map_id,
            x,
            y,
            direction,
            fade_type,
        } => {
            assert_eq!(*map_id, MaybeRef::Constant(3));
            assert_eq!(*x, MaybeRef::Constant(4));
            assert_eq!(*y, MaybeRef::Constant(5));
            assert_eq!(*direction, 5);
            assert_eq!(*fade_type, 5);
        }
        other => panic!("unexpected {other:?}"),
    }
    assert_eq!(
        commands2py(&Config::new(), &commands).unwrap(),
        "\ttransfer_player(\n\t\tmap=game_map_3,\n\t\tx=4,\n\t\ty=5,\n\t\tdirection=5,\n\t\tfade_type=5,\n\t)\n"
    );
}

#[test]
fn conditional_branches() {
    let list = vec![
        ev(111, 0, vec![num(0), num(5), num(0)]),
        ev(111, 1, vec![num(1), num(2), num(1), num(7), num(1)]),
        ev(111, 0, vec![num(7), num(100), num(2)]),
        ev(411, 0, vec![]),
        ev(412, 0, vec![]),
    ];
    let commands = parse_event_command_list(&list).unwrap();
    assert!(matches!(
        commands[0].1,
        Command::ConditionalBranch(ConditionalBranchCommand::Switch {
            id: 5,
            check_true: true
        })
    ));
    assert!(matches!(
        commands[1].1,
        Command::ConditionalBranch(ConditionalBranchCommand::Variable {
            lhs_id: 2,
            rhs_id: MaybeRef::Ref(7),
            operation: ConditionalBranchVariableOperation::Gte
        })
    ));
    assert!(matches!(
        commands[2].1,
        Command::ConditionalBranch(ConditionalBranchCommand::Gold {
            value: 100,
            check: ConditionalBranchKindGoldCheck::Lt
        })
    ));
    let mut config = Config::new();
    config.switches.insert(5, "door_open".to_string());
    assert_eq!(
        commands2py(&config, &commands).unwrap(),
        "if door_open:\n\tif game_variable_2 >= game_variable_7:\nif game_party.gold < 100:\nelse:\n"
    );
}

#[test]
fn unsupported_branch_fails() {
    // A weapon check is not decoded.
    let list = vec![ev(111, 0, vec![num(9), num(1), num(0)])];
    assert_eq!(
        parse_event_command_list(&list).unwrap_err(),
        CommandListError { index: 0, code: 111 }
    );
}

#[test]
fn switches_and_gold() {
    let out = py(vec![
        ev(121, 0, vec![num(1), num(3), num(1)]),
        ev(125, 0, vec![num(0), num(1), num(9)]),
    ]);
    assert_eq!(
        out,
        "game_switch_1 = False\ngame_switch_2 = False\ngame_switch_3 = False\ngame_party.gold += game_variable_9\n"
    );
}

#[test]
fn labels_and_common_events() {
    let out = py(vec![
        ev(118, 0, vec![text("start")]),
        ev(117, 0, vec![num(4)]),
        ev(119, 0, vec![text("it's")]),
    ]);
    assert_eq!(
        out,
        "set_label(name='start')\ncommon_event_4()\njump_to_label(name='it\\'s')\n"
    );
}

#[test]
fn audio_and_battle() {
    let audio = JsonValue::Object(vec![
        ("name".to_string(), text("Battle1")),
        ("pan".to_string(), num(0)),
        ("pitch".to_string(), num(100)),
        ("volume".to_string(), num(90)),
    ]);
    let list = vec![
        ev(241, 0, vec![audio]),
        ev(301, 0, vec![num(2), num(0), JsonValue::Bool(true), JsonValue::Bool(false)]),
    ];
    let commands = parse_event_command_list(&list).unwrap();
    match &commands[0].1 {
        Command::PlayBgm { audio } => assert_eq!(
            *audio,
            AudioFile {
                name: "Battle1".to_string(),
                pan: 0,
                pitch: 100,
                volume: 90
            }
        ),
        other => panic!("unexpected {other:?}"),
    }
    assert!(matches!(
        commands[1].1,
        Command::BattleProcessing {
            troop_id: None,
            can_escape: true,
            can_lose: false
        }
    ));
    assert_eq!(
        commands2py(&Config::new(), &commands).unwrap(),
        "play_bgm(\n\taudio=AudioFile(\n\t\tname='Battle1',\n\t\tpan=0,\n\t\tpitch=100,\n\t\tvolume=90,\n\t),\n)\nbattle_processing(\n\ttroop_id=game.random_encounter_troop_id(),\n\tcan_escape=True,\n\tcan_lose=False,\n)\n"
    );
}

#[test]
fn audio_with_unknown_field_fails() {
    let audio = JsonValue::Object(vec![
        ("name".to_string(), text("Battle1")),
        ("pan".to_string(), num(0)),
        ("pitch".to_string(), num(100)),
        ("volume".to_string(), num(90)),
        ("extra".to_string(), num(1)),
    ]);
    let list = vec![ev(241, 0, vec![audio])];
    assert!(parse_event_command_list(&list).is_err());
}

#[test]
fn plugin_command_splits_on_spaces() {
    let list = vec![ev(356, 0, vec![text("Quest  add 3")])];
    let commands = parse_event_command_list(&list).unwrap();
    match &commands[0].1 {
        Command::PluginCommand { params } => assert_eq!(
            params,
            &vec![
                "Quest".to_string(),
                "".to_string(),
                "add".to_string(),
                "3".to_string()
            ]
        ),
        other => panic!("unexpected {other:?}"),
    }
    assert_eq!(
        commands2py(&Config::new(), &commands).unwrap(),
        "plugin_command('Quest', '', 'add', '3')\n"
    );
}

#[test]
fn cancel_branch_with_name_cannot_be_written() {
    let list = vec![
        ev(0, 0, vec![]),
        ev(403, 0, vec![num(6), text("No")]),
    ];
    let commands = parse_event_command_list(&list).unwrap();
    assert_eq!(
        commands2py(&Config::new(), &commands),
        Err(GenerateError { index: 1 })
    );
    let list = vec![ev(403, 2, vec![num(6), JsonValue::Null])];
    let commands = parse_event_command_list(&list).unwrap();
    assert_eq!(
        commands2py(&Config::new(), &commands).unwrap(),
        "\t\tif get_choice_index() == -1: # Cancel, index=6\n"
    );
}

#[test]
fn battle_results_are_not_indented() {
    let out = py(vec![ev(601, 3, vec![]), ev(602, 3, vec![]), ev(603, 3, vec![]), ev(604, 3, vec![])]);
    assert_eq!(
        out,
        "if game_battle_result.is_win():\nif game_battle_result.is_escape():\nif game_battle_result.is_lose():\n"
    );
}

#[test]
fn movement_route_repeats_are_checked() {
    let step = JsonValue::Object(vec![
        ("code".to_string(), num(1)),
        ("indent".to_string(), JsonValue::Null),
    ]);
    let route = JsonValue::Object(vec![
        ("list".to_string(), JsonValue::Array(vec![step_clone(&step)])),
        ("repeat".to_string(), JsonValue::Bool(false)),
        ("skippable".to_string(), JsonValue::Bool(true)),
        ("wait".to_string(), JsonValue::Bool(true)),
    ]);
    let list = vec![
        ev(205, 0, vec![num(-1), route]),
        ev(505, 0, vec![step_clone(&step)]),
    ];
    let commands = parse_event_command_list(&list).unwrap();
    assert_eq!(commands.len(), 1);
    assert_eq!(
        commands2py(&Config::new(), &commands).unwrap(),
        "set_movement_route(\n\tcharacter_id=-1,\n\troute=MoveRoute(\n\t\trepeat=False,\n\t\tskippable=True,\n\t\twait=True,\n\t\tlist=[\n\t\t\tMoveCommand(code=1, parameters=None, indent=None),\n\t\t],\n\t),\n)\n"
    );

    let other = JsonValue::Object(vec![("code".to_string(), num(2))]);
    let mut bad = list_clone(&list);
    bad[1] = ev(505, 0, vec![other]);
    assert_eq!(
        parse_event_command_list(&bad).unwrap_err(),
        CommandListError { index: 1, code: 505 }
    );
}

fn step_clone(v: &JsonValue) -> JsonValue {
    rpgmv_tool::json::clone_json(v)
}

fn list_clone(list: &[EventCommand]) -> Vec<EventCommand> {
    list.iter()
        .map(|e| EventCommand {
            code: e.code,
            indent: e.indent,
            parameters: e.parameters.iter().map(step_clone).collect(),
            collapsed: e.collapsed,
        })
        .collect()
}

#[test]
fn change_state_of_whole_party() {
    let out = py(vec![
        ev(313, 0, vec![num(0), num(0), num(0), num(4)]),
        ev(313, 0, vec![num(1), num(2), num(1), num(4)]),
    ]);
    assert_eq!(
        out,
        "add_state(actors=game_party, state=game_state_4)\nremove_state(actor_id=game_variable_2, state=game_state_4)\n"
    );
}

#[test]
fn show_picture_positions() {
    let out = py(vec![ev(
        231,
        0,
        vec![
            num(1),
            text("pic"),
            num(0),
            num(0),
            num(-5),
            num(10),
            num(100),
            num(100),
            num(255),
            num(0),
        ],
    )]);
    assert_eq!(
        out,
        "show_picture(\n\tpicture_id=1,\n\tpicture_name='pic',\n\torigin=0,\n\tx=-5,\n\ty=10,\n\tscale_x=100,\n\tscale_y=100,\n\topacity=255,\n\tblend_mode=0,\n)\n"
    );
}

#[test]
fn tint_screen_tone() {
    let tone = JsonValue::Array(vec![num(-68), num(-68), num(0), num(68)]);
    let out = py(vec![ev(223, 0, vec![tone, num(60), JsonValue::Bool(true)])]);
    assert_eq!(
        out,
        "tint_screen(tone=[-68, -68, 0, 68], duration=60, wait=True)\n"
    );
}

#[test]
fn single_command_writes() {
    let mut out = String::new();
    assert!(command2py(&Config::new(), 1, &Command::Else, &mut out));
    assert_eq!(out, "\telse:\n");
    let mut out = String::new();
    let cancel = Command::WhenCancel {
        choice_index: 1,
        choice_name: Some("x".to_string()),
    };
    assert!(!command2py(&Config::new(), 0, &cancel, &mut out));
    assert_eq!(out, "");
}

#[test]
fn scrolling_text_without_a_speed_is_refused() {
    let list = vec![ev(105, 0, vec![text("fast")])];
    assert_eq!(
        parse_event_command_list(&list).unwrap_err(),
        CommandListError { index: 0, code: 105 }
    );
}

#[test]
fn unreadable_scrolling_text_after_a_failure_is_not_reached() {
    let list = vec![ev(115, 0, vec![num(1)]), ev(105, 0, vec![])];
    assert_eq!(
        parse_event_command_list(&list).unwrap_err(),
        CommandListError { index: 0, code: 115 }
    );
}

#[test]
fn commands_write_up_to_the_largest_indent_they_fit() {
    assert!(command2py(&Config::new(), u16::MAX, &Command::Nop, &mut String::new()));
    let mut out = String::new();
    assert!(command2py(
        &Config::new(),
        u16::MAX - 1,
        &Command::Wait { duration: 5 },
        &mut out
    ));
    assert!(out.ends_with("wait(duration=5)\n"));
    assert!(rpgmv_tool::generate::is_writable(u16::MAX, &Command::Nop));
    assert!(rpgmv_tool::generate::is_writable(
        u16::MAX - 1,
        &Command::Wait { duration: 5 }
    ));
    assert!(!rpgmv_tool::generate::is_writable(
        u16::MAX,
        &Command::Wait { duration: 5 }
    ));
    assert!(rpgmv_tool::generate::is_writable(
        u16::MAX - 1,
        &Command::Script { lines: Vec::new() }
    ));
    assert!(!rpgmv_tool::generate::is_writable(
        u16::MAX - 1,
        &Command::Script {
            lines: vec!["x".to_string()]
        }
    ));
}
