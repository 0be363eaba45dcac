use rpgmv_tool::completions::{completion_line, profile_addition};
use rpgmv_tool::param_reader::{ParamError, ParamReader};
use rpgmv_tool::types::EventCommandParameter;
use rpgmv_tool::config::{Config, NameKind};
use rpgmv_tool::dump::{
    common_event_file_name, event_file_name, extract_map_id, is_blank_page, map_dir_name,
    select_page, troop_file_name, FileKind, FileKindError, InvalidMapId, PageError,
};
use rpgmv_tool::image_files::{
    classify_image, find_neighbors, plan_decrypt, png_file_name, DecryptMode, DecryptPlanError,
    ImageFormat,
};
use rpgmv_tool::json::JsonValue;
use rpgmv_tool::key_hex::{key_from_hex, HexError};
use rpgmv_tool::line_size::{
    data_file_kind, description_target_width, is_game_mv, map_file_label, message_target_width,
    non_empty_lines, parse_map_name, screen_width_from_plugins, strip_text_codes,
    suggestion_candidates, CollectError, DataFile, MessageCollector, NotAGame, ScreenWidthError,
};
use rpgmv_tool::message_parser::MessageParser;
use rpgmv_tool::types::{EventCommand, Plugin};

#[test]
fn config_names_given_or_generated() {
    let mut config = Config::new();
    config.variables.insert(42, "the_answer".to_string());
    assert_eq!(config.get_variable_name(42), "the_answer");
    assert_eq!(config.get_variable_name(41), "game_variable_41");
    assert_eq!(config.get_switch_name(2), "game_switch_2");
    assert_eq!(config.get_common_event_name(5), "common_event_5");
    assert_eq!(config.get_actor_name(1), "game_actor_1");
    assert_eq!(config.get_skill_name(1), "game_skill_1");
    assert_eq!(config.get_item_name(123), "game_item_123");
    assert_eq!(config.get_state_name(43), "game_state_43");
    assert_eq!(config.get_troop_name(86), "game_troop_86");
    assert_eq!(config.get_armor_name(32), "game_armor_32");
    assert_eq!(config.get_class_name(3), "game_class_3");
    assert_eq!(config.get_name(NameKind::Variable, 42), "the_answer");
}

#[test]
fn map_ids_from_file_stems() {
    assert_eq!(extract_map_id("Map001"), Ok(Some(1)));
    assert_eq!(extract_map_id("Map65535"), Ok(Some(65535)));
    assert_eq!(extract_map_id("Map65536"), Err(InvalidMapId));
    assert_eq!(extract_map_id("Map"), Err(InvalidMapId));
    assert_eq!(extract_map_id("MapInfos"), Ok(None));
    assert_eq!(extract_map_id("Troops"), Ok(None));
}

#[test]
fn file_kinds() {
    assert_eq!(FileKind::new(false, Some("Map002.json"), true), Ok(Some(FileKind::GameMap)));
    assert_eq!(
        FileKind::new(false, Some("CommonEvents.json"), true),
        Ok(Some(FileKind::CommonEvents))
    );
    assert_eq!(FileKind::new(false, Some("Troops.json"), false), Ok(Some(FileKind::Troops)));
    assert_eq!(FileKind::new(false, Some("Items.json"), true), Ok(None));
    assert_eq!(FileKind::new(false, Some("notes.txt"), true), Err(FileKindError::NotJson));
    assert_eq!(FileKind::new(false, Some("README"), true), Err(FileKindError::NoExtension));
    assert_eq!(FileKind::new(false, None, true), Err(FileKindError::MissingFileName));
    assert_eq!(
        FileKind::new(false, Some("Map.json"), true),
        Err(FileKindError::InvalidMapId)
    );
    assert_eq!(FileKind::new(true, None, true), Ok(Some(FileKind::Dir)));
    assert_eq!(FileKind::new(true, None, false), Ok(None));
    assert!(FileKind::Dir.is_dir());
    assert!(!FileKind::Troops.is_dir());
}

#[test]
fn page_selection() {
    assert_eq!(select_page(1, None), Ok(0));
    assert_eq!(select_page(3, None), Err(PageError::MultiplePages));
    assert_eq!(select_page(0, None), Err(PageError::MultiplePages));
    assert_eq!(select_page(3, Some(2)), Ok(2));
    assert_eq!(select_page(3, Some(3)), Err(PageError::NoPage { index: 3 }));
}

#[test]
fn output_file_names() {
    assert_eq!(map_dir_name(5), "005");
    assert_eq!(map_dir_name(1234), "1234");
    assert_eq!(event_file_name(3, 1), "event_03_page_01.py");
    assert_eq!(event_file_name(123, 10), "event_123_page_10.py");
    assert_eq!(common_event_file_name(7, "Intro"), "07_Intro.py");
    assert_eq!(troop_file_name(12, 0, "Slime*2"), "12_page_00_Slime\u{FF0A}2.py");
}

#[test]
fn blank_pages() {
    let empty = EventCommand {
        code: 0,
        indent: 0,
        parameters: vec![],
        collapsed: None,
    };
    assert!(is_blank_page(&vec![]));
    assert!(is_blank_page(&vec![empty]));
    let text = EventCommand {
        code: 101,
        indent: 0,
        parameters: vec![],
        collapsed: None,
    };
    assert!(!is_blank_page(&vec![text]));
}

#[test]
fn game_detection() {
    assert_eq!(is_game_mv(true, true), Ok(true));
    assert_eq!(is_game_mv(true, false), Ok(false));
    assert_eq!(is_game_mv(false, true), Err(NotAGame));
}

#[test]
fn map_names() {
    assert_eq!(parse_map_name("Map012.json"), Some(12));
    assert_eq!(parse_map_name("Map+7.json"), Some(7));
    assert_eq!(parse_map_name("Map.json"), None);
    assert_eq!(parse_map_name("MapInfos.json"), None);
    assert_eq!(parse_map_name("Map012.txt"), None);
    assert_eq!(map_file_label(7), "Map007");
}

#[test]
fn data_files() {
    assert_eq!(data_file_kind("Map003.json"), DataFile::GameMap(3));
    assert_eq!(data_file_kind("MapInfos.json"), DataFile::Skip);
    assert_eq!(data_file_kind("CommonEvents.json"), DataFile::CommonEvents);
    assert_eq!(data_file_kind("Troops.json"), DataFile::Troops);
    assert_eq!(data_file_kind("Armors.json"), DataFile::Armors);
    assert_eq!(data_file_kind("Items.json"), DataFile::Items);
    assert_eq!(data_file_kind("Skills.json"), DataFile::Skills);
    assert_eq!(data_file_kind("Weapons.json"), DataFile::Weapons);
    assert_eq!(data_file_kind("System.json"), DataFile::Skip);
    assert_eq!(data_file_kind("Items.txt"), DataFile::Skip);
}

fn plugin(name: &str, params: &[(&str, &str)]) -> Plugin {
    Plugin {
        name: name.to_string(),
        status: true,
        description: String::new(),
        parameters: params
            .iter()
            .map(|(k, v)| (k.to_string(), v.to_string()))
            .collect(),
    }
}

#[test]
fn screen_widths() {
    assert_eq!(screen_width_from_plugins(&vec![]), Ok(816));
    assert_eq!(
        screen_width_from_plugins(&vec![plugin("Community_Basic", &[("screenWidth", "1280")])]),
        Ok(1280)
    );
    assert_eq!(
        screen_width_from_plugins(&vec![plugin("Community_Basic", &[("screenWidth", "")])]),
        Ok(816)
    );
    assert_eq!(
        screen_width_from_plugins(&vec![
            plugin("Community_Basic", &[("screenWidth", "1280")]),
            plugin("Other", &[]),
            plugin("YEP_CoreEngine", &[("Screen Width", "1024")]),
        ]),
        Ok(1024)
    );
    assert_eq!(
        screen_width_from_plugins(&vec![plugin("Other", &[]), plugin("YEP_CoreEngine", &[])]),
        Err(ScreenWidthError::MissingParameter { index: 1 })
    );
    assert_eq!(
        screen_width_from_plugins(&vec![plugin("Community_Basic", &[("screenWidth", "wide")])]),
        Err(ScreenWidthError::InvalidWidth { index: 0 })
    );
}

#[test]
fn target_widths() {
    assert_eq!(message_target_width(816, false), 780);
    assert_eq!(message_target_width(816, true), 612);
    assert_eq!(description_target_width(816), 768);
}

#[test]
fn shorter_line_suggestions() {
    assert_eq!(
        suggestion_candidates("a bb ccc"),
        vec!["a bb".to_string(), "a".to_string()]
    );
    assert!(suggestion_candidates("single").is_empty());
    assert!(suggestion_candidates(" x").is_empty());
}

#[test]
fn message_lines_and_stripping() {
    let mut parser = MessageParser::new("\\C[2]Hi\n\nthere\\G");
    let nodes = parser.parse().unwrap();
    let text = strip_text_codes(&nodes);
    assert_eq!(text, "Hi\n\nthere");
    assert_eq!(
        non_empty_lines(&text),
        vec!["Hi".to_string(), "there".to_string()]
    );
}

fn command(code: u32, parameters: Vec<JsonValue>) -> EventCommand {
    EventCommand {
        code,
        indent: 0,
        parameters,
        collapsed: None,
    }
}

#[test]
fn message_collection() {
    let mut c = MessageCollector::new();
    let show = command(101, vec![JsonValue::String("Face".to_string())]);
    assert!(c.take_finished(101).is_none());
    assert_eq!(c.accept(&show), Ok(()));
    let line = command(401, vec![JsonValue::String("Hello".to_string())]);
    assert!(c.take_finished(401).is_none());
    assert_eq!(c.accept(&line), Ok(()));
    let end = command(0, vec![]);
    let m = c.take_finished(0).expect("message ends");
    assert_eq!(m.face, "Face");
    assert_eq!(m.lines, "\nHello");
    assert_eq!(c.accept(&end), Ok(()));
    assert!(c.finish().is_none());

    let mut c = MessageCollector::new();
    assert_eq!(c.accept(&line), Err(CollectError::LineOutsideMessage));
    assert_eq!(c.accept(&command(101, vec![])), Err(CollectError::MissingFace));
    assert_eq!(
        c.accept(&command(101, vec![JsonValue::Int(1)])),
        Err(CollectError::FaceNotString)
    );
}

#[test]
fn hex_keys() {
    assert_eq!(
        key_from_hex("00112233445566778899aabbccddeeff"),
        Ok([
            0x00, 0x11, 0x22, 0x33, 0x44, 0x55, 0x66, 0x77, 0x88, 0x99, 0xaa, 0xbb, 0xcc, 0xdd,
            0xee, 0xff
        ])
    );
    assert_eq!(
        key_from_hex("0A"),
        Ok([0x0a, 0, 0, 0, 0, 0, 0, 0, 0, 0, 0, 0, 0, 0, 0, 0])
    );
    assert_eq!(key_from_hex("abc"), Err(HexError::InvalidLength));
    assert_eq!(key_from_hex("zz"), Err(HexError::InvalidEncoding));
    assert_eq!(
        key_from_hex("00112233445566778899aabbccddeeff00"),
        Err(HexError::InvalidLength)
    );
}

#[test]
fn image_formats() {
    let mut png = [0u8; 32];
    png[..8].copy_from_slice(b"\x89PNG\r\n\x1a\n");
    assert_eq!(classify_image(&png), ImageFormat::Plain);
    let mut jpeg = [0u8; 32];
    jpeg[..3].copy_from_slice(&[0xff, 0xd8, 0xff]);
    assert_eq!(classify_image(&jpeg), ImageFormat::Plain);
    assert_eq!(
        classify_image(&rpgmv_tool::encrypterator::magic_array()),
        ImageFormat::Encrypterator
    );
    assert_eq!(classify_image(&[0u8; 32]), ImageFormat::Rpgmvp);
}

#[test]
fn decrypt_plans() {
    assert_eq!(plan_decrypt(0, true), Err(DecryptPlanError::NoInput));
    assert_eq!(plan_decrypt(3, true), Ok(DecryptMode::Vector));
    assert_eq!(plan_decrypt(1, false), Ok(DecryptMode::Scalar));
    assert_eq!(plan_decrypt(2, false), Err(DecryptPlanError::OutputNotDirectory));
}

#[test]
fn png_names() {
    assert_eq!(png_file_name("Actor1.rpgmvp"), "Actor1.png");
    assert_eq!(png_file_name("a.b.c"), "a.b.png");
    assert_eq!(png_file_name("noext"), "noext.png");
    assert_eq!(png_file_name(".hidden"), ".hidden.png");
}

#[test]
fn neighbour_images() {
    let names: Vec<Vec<u8>> = vec![
        b"a.png".to_vec(),
        b"c.png".to_vec(),
        b"b.png".to_vec(),
        b"aa.png".to_vec(),
        b"d.png".to_vec(),
    ];
    assert_eq!(find_neighbors(&b"b.png".to_vec(), &names), (Some(3), Some(1)));
    assert_eq!(find_neighbors(&b"a.png".to_vec(), &names), (None, Some(3)));
    assert_eq!(find_neighbors(&b"z.png".to_vec(), &names), (Some(4), None));
}

#[test]
fn neighbors_take_the_first_of_equal_names() {
    let names: Vec<Vec<u8>> = vec![
        b"a.png".to_vec(),
        b"c.png".to_vec(),
        b"a.png".to_vec(),
        b"b.png".to_vec(),
        b"c.png".to_vec(),
    ];
    assert_eq!(find_neighbors(&b"b.png".to_vec(), &names), (Some(0), Some(1)));
    assert_eq!(find_neighbors(&b"b.png".to_vec(), &Vec::new()), (None, None));
}

fn weapon(id: u32, description: &str) -> rpgmv_tool::database::Weapon {
    rpgmv_tool::database::Weapon {
        id,
        animation_id: 0,
        description: description.to_string(),
        e_type_id: 1,
        traits: vec![rpgmv_tool::database::WeaponTrait {
            code: 31,
            data_id: 1,
            value: "0.5".to_string(),
        }],
        icon_index: 97,
        name: "Sword".to_string(),
        note: String::new(),
        params: vec![0, 0, 10, 0, 0, 0, 0, 0],
        price: 500,
        w_type_id: 2,
    }
}

#[test]
fn database_descriptions_skip_empty_slots() {
    let weapons = vec![None, Some(weapon(1, "A sharp blade.")), None, Some(weapon(2, ""))];
    assert_eq!(
        rpgmv_tool::database::entry_descriptions(&weapons),
        vec!["A sharp blade.".to_string(), String::new()]
    );
}

#[test]
fn event_command_parameter_as_int() {
    assert_eq!(EventCommandParameter::Int(-7).as_int(), Some(&-7));
    assert_eq!(EventCommandParameter::Bool(true).as_int(), None);
    assert_eq!(EventCommandParameter::String("3".to_string()).as_int(), None);
}

#[test]
fn param_reader_reads_at_by_type() {
    let command = EventCommand {
        code: 117,
        indent: 0,
        parameters: vec![JsonValue::Int(5), JsonValue::String("x".to_string()), JsonValue::Int(-1)],
        collapsed: None,
    };
    let reader = ParamReader::new(&command);
    assert_eq!(reader.read_at::<u32>(0), Ok(5));
    assert_eq!(reader.read_at::<i64>(2), Ok(-1));
    assert_eq!(reader.read_at::<u32>(2), Err(ParamError::Invalid { index: 2 }));
    assert_eq!(reader.read_at::<String>(1), Ok("x".to_string()));
    assert_eq!(reader.read_at::<String>(0), Err(ParamError::Invalid { index: 0 }));
    assert_eq!(reader.read_at::<i64>(3), Err(ParamError::OutOfRange { index: 3 }));
}

#[test]
fn completion_line_is_added_once() {
    let line = completion_line("rpgmv-tool");
    assert_eq!(line, ". $PSScriptRoot\\Completions\\rpgmv-tool.ps1");
    assert_eq!(profile_addition("", &line), Some(format!("\n{line}")));
    assert_eq!(profile_addition("Set-Alias x y\n", &line), Some(line.clone()));
    assert_eq!(profile_addition("Set-Alias x y", &line), Some(format!("\n{line}")));
    assert_eq!(profile_addition(&format!("a\n{line}\nb"), &line), None);
    assert_eq!(profile_addition(&format!("a\r\n{line}\r\n"), &line), None);
    assert_eq!(
        profile_addition(&format!("{line}\r"), &line),
        Some(format!("\n{line}"))
    );
}

#[test]
fn second_install_adds_nothing() {
    let line = completion_line("rpgmv-tool");
    for profile in ["", "x", "x\n", "x\r\ny"] {
        let addition = profile_addition(profile, &line).unwrap();
        let updated = format!("{profile}{addition}");
        assert_eq!(profile_addition(&updated, &line), None);
    }
}
