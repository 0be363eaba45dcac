//! The data types of RPG Maker MV game files, and the decoding of those that
//! appear inside event command parameters.
//!
//! A structure decodes from a JSON object whose keys are all field names of
//! the structure, every field that is not optional being present, or from a
//! JSON array that holds exactly one value per field, in field order.
use crate::json::{clone_json, json_eq, json_views, lemma_json_views, JsonValue, JsonView};
use vstd::prelude::*;

verus! {

/// An audio file
#[derive(Debug, PartialEq, Eq)]
pub struct AudioFile {
    /// The file name
    pub name: String,
    /// The pan
    pub pan: u8,
    /// The pitch
    pub pitch: u8,
    /// The volume
    pub volume: u8,
}

/// The abstract value of an audio file.
pub struct AudioFileView {
    pub name: Seq<char>,
    pub pan: u8,
    pub pitch: u8,
    pub volume: u8,
}

impl View for AudioFile {
    type V = AudioFileView;

    open spec fn view(&self) -> AudioFileView {
        AudioFileView { name: self.name@, pan: self.pan, pitch: self.pitch, volume: self.volume }
    }
}

/// A move command
#[derive(Debug, PartialEq)]
pub struct MoveCommand {
    /// The command code
    pub code: u32,
    /// The parameters
    pub parameters: Option<Vec<JsonValue>>,
    /// The indent
    pub indent: Option<u32>,
}

/// The abstract value of a move command.
pub struct MoveCommandView {
    pub code: u32,
    pub parameters: Option<Seq<JsonView>>,
    pub indent: Option<u32>,
}

impl View for MoveCommand {
    type V = MoveCommandView;

    open spec fn view(&self) -> MoveCommandView {
        MoveCommandView {
            code: self.code,
            parameters: match self.parameters {
                Some(p) => Some(json_views(p@)),
                None => None,
            },
            indent: self.indent,
        }
    }
}

/// A move route
#[derive(Debug, PartialEq)]
pub struct MoveRoute {
    /// The commands
    pub list: Vec<MoveCommand>,
    /// Whether the route repeats
    pub repeat: bool,
    /// Whether the route can be skipped
    pub skippable: bool,
    /// Whether to wait for the route
    pub wait: bool,
}

/// The abstract value of a move route.
pub struct MoveRouteView {
    pub list: Seq<MoveCommandView>,
    pub repeat: bool,
    pub skippable: bool,
    pub wait: bool,
}

impl View for MoveRoute {
    type V = MoveRouteView;

    open spec fn view(&self) -> MoveRouteView {
        MoveRouteView {
            list: self.list@.map_values(|c: MoveCommand| c@),
            repeat: self.repeat,
            skippable: self.skippable,
            wait: self.wait,
        }
    }
}

/// A move command parameter
#[derive(Debug, PartialEq, Eq)]
pub enum MoveCommandParameter {
    /// A signed integer
    Int(i32),
}

/// An event command
#[derive(Debug, PartialEq)]
pub struct EventCommand {
    /// The event code
    pub code: u32,
    /// The event indent
    pub indent: u16,
    /// The event parameters
    pub parameters: Vec<JsonValue>,
    /// Only in MZ games.
    pub collapsed: Option<bool>,
}

/// The abstract value of an event command.
pub struct EventCommandView {
    pub code: u32,
    pub indent: u16,
    pub parameters: Seq<JsonView>,
    pub collapsed: Option<bool>,
}

impl View for EventCommand {
    type V = EventCommandView;

    open spec fn view(&self) -> EventCommandView {
        EventCommandView {
            code: self.code,
            indent: self.indent,
            parameters: json_views(self.parameters@),
            collapsed: self.collapsed,
        }
    }
}

/// An image
#[derive(Debug, PartialEq, Eq)]
pub struct ImageFile {
    pub tile_id: u32,
    pub character_name: String,
    pub direction: u8,
    pub pattern: u8,
    pub character_index: u8,
}

/// An encounter
#[derive(Debug, PartialEq, Eq)]
pub struct Encounter {
    /// The regions, always empty
    pub region_set: Vec<()>,
    /// The troop id to spawn
    pub troop_id: u32,
    /// The relative weight of this encounter
    pub weight: u16,
}

/// An event page condition set
#[derive(Debug, PartialEq, Eq)]
pub struct EventPageCondition {
    pub actor_id: u32,
    pub actor_valid: bool,
    pub item_id: u32,
    pub item_valid: bool,
    pub self_switch_ch: char,
    pub self_switch_valid: bool,
    pub switch1_id: u32,
    pub switch1_valid: bool,
    pub switch2_id: u32,
    pub switch2_valid: bool,
    pub variable_id: u32,
    pub variable_valid: bool,
    pub variable_value: u32,
}

/// An event page
#[derive(Debug, PartialEq)]
pub struct EventPage {
    pub conditions: EventPageCondition,
    pub direction_fix: bool,
    pub image: ImageFile,
    /// The list of commands to execute
    pub list: Vec<EventCommand>,
    pub move_frequency: u32,
    pub move_route: MoveRoute,
    pub move_speed: u32,
    pub move_type: u32,
    pub priority_type: u32,
    pub step_anime: bool,
    pub through: bool,
    pub trigger: u8,
    pub walk_anime: bool,
}

/// A map event
#[derive(Debug, PartialEq)]
pub struct Event {
    pub id: u32,
    pub name: String,
    pub note: String,
    pub pages: Vec<EventPage>,
    pub x: u32,
    pub y: u32,
}

/// A map: its events, by index (an absent event is `None`).
#[derive(Debug, PartialEq)]
pub struct GameMap {
    pub autoplay_bgm: bool,
    pub autoplay_bgs: bool,
    pub battleback1_name: String,
    pub battleback2_name: String,
    pub bgm: AudioFile,
    pub bgs: AudioFile,
    pub disable_dashing: bool,
    pub display_name: String,
    pub encounter_list: Vec<Encounter>,
    pub encounter_step: u32,
    pub height: u32,
    pub note: String,
    pub parallax_loop_x: bool,
    pub parallax_loop_y: bool,
    pub parallax_name: String,
    pub parallax_show: bool,
    pub parallax_sx: u32,
    pub parallax_sy: u32,
    pub scroll_type: u32,
    pub specify_battleback: bool,
    pub tileset_id: u32,
    pub width: u32,
    pub data: Vec<u32>,
    pub events: Vec<Option<Event>>,
}

/// A common event
#[derive(Debug, PartialEq)]
pub struct CommonEvent {
    /// The id
    pub id: u32,
    /// The list of commands
    pub list: Vec<EventCommand>,
    /// The name
    pub name: String,
    pub switch_id: u32,
    pub trigger: u8,
}

/// A troop member
#[derive(Debug, PartialEq, Eq)]
pub struct TroopMember {
    pub enemy_id: u32,
    pub x: u32,
    pub y: u32,
    pub hidden: bool,
}

/// A troop page condition
#[derive(Debug, PartialEq, Eq)]
pub struct TroopPageCondition {
    pub actor_hp: u32,
    pub actor_id: u32,
    pub actor_valid: bool,
    pub enemy_hp: u32,
    pub enemy_index: u32,
    pub enemy_valid: bool,
    pub switch_id: u32,
    pub switch_valid: bool,
    pub turn_a: u32,
    pub turn_b: u32,
    pub turn_ending: bool,
    pub turn_valid: bool,
}

/// A troop event page
#[derive(Debug, PartialEq)]
pub struct TroopPage {
    pub conditions: TroopPageCondition,
    pub list: Vec<EventCommand>,
    pub span: u32,
}

/// A troop
#[derive(Debug, PartialEq)]
pub struct Troop {
    /// The troop id
    pub id: u32,
    /// The troop members
    pub members: Vec<TroopMember>,
    /// The troop name
    pub name: String,
    /// Event pages
    pub pages: Vec<TroopPage>,
}

/// The damage of an item
#[derive(Debug, PartialEq, Eq)]
pub struct ItemDamage {
    pub critical: bool,
    pub element_id: u32,
    pub formula: String,
    pub kind: u32,
    pub variance: u32,
}

/// The damage of a skill
#[derive(Debug, PartialEq, Eq)]
pub struct SkillDamage {
    pub critical: bool,
    pub element_id: i32,
    pub formula: String,
    pub kind: u32,
    pub variance: u32,
}

/// A plugin entry of `plugins.js`.
#[derive(Debug, PartialEq, Eq)]
pub struct Plugin {
    /// The name of the plugin
    pub name: String,
    /// Whether the plugin is enabled
    pub status: bool,
    /// The description of the plugin
    pub description: String,
    /// Arguments passed to the plugin, as key-value strings.
    pub parameters: Vec<(String, String)>,
}

// Decoding from JSON values.

/// The value of an object's entry with the given key: the first such entry.
pub open spec fn field_of(entries: Seq<(Seq<char>, JsonView)>, key: Seq<char>) -> Option<JsonView>
    decreases entries.len(),
{
    if entries.len() == 0 {
        None
    } else if entries[0].0 == key {
        Some(entries[0].1)
    } else {
        field_of(entries.drop_first(), key)
    }
}

/// Whether every key of an object is one of `names`.
pub open spec fn keys_within(entries: Seq<(Seq<char>, JsonView)>, names: Seq<Seq<char>>) -> bool {
    forall|i: int| 0 <= i < entries.len() ==> names.contains(#[trigger] entries[i].0)
}

/// An integer in the range of a `u8`.
pub open spec fn decode_u8(v: JsonView) -> Option<u8> {
    match v {
        JsonView::Int(i) => if 0 <= i <= 255 {
            Some(i as u8)
        } else {
            None
        },
        _ => None,
    }
}

/// An integer in the range of a `u32`.
pub open spec fn decode_u32(v: JsonView) -> Option<u32> {
    match v {
        JsonView::Int(i) => if 0 <= i <= u32::MAX {
            Some(i as u32)
        } else {
            None
        },
        _ => None,
    }
}

/// An integer in the range of an `i16`.
pub open spec fn decode_i16(v: JsonView) -> Option<i16> {
    match v {
        JsonView::Int(i) => if i16::MIN <= i <= i16::MAX {
            Some(i as i16)
        } else {
            None
        },
        _ => None,
    }
}

/// A boolean.
pub open spec fn decode_bool(v: JsonView) -> Option<bool> {
    match v {
        JsonView::Bool(b) => Some(b),
        _ => None,
    }
}

/// A string.
pub open spec fn decode_string(v: JsonView) -> Option<Seq<char>> {
    match v {
        JsonView::Str(s) => Some(s),
        _ => None,
    }
}

/// An optional value: `null` is none.
pub open spec fn decode_opt_u32(v: Option<JsonView>) -> Option<Option<u32>> {
    match v {
        None => Some(None),
        Some(JsonView::Null) => Some(None),
        Some(x) => match decode_u32(x) {
            Some(n) => Some(Some(n)),
            None => None,
        },
    }
}

/// An optional list of JSON values: `null` is none.
pub open spec fn decode_opt_values(v: Option<JsonView>) -> Option<Option<Seq<JsonView>>> {
    match v {
        None => Some(None),
        Some(JsonView::Null) => Some(None),
        Some(JsonView::Array(a)) => Some(Some(a)),
        Some(_) => None,
    }
}

/// The field names of an audio file.
pub open spec fn audio_file_fields() -> Seq<Seq<char>> {
    seq![seq!['n', 'a', 'm', 'e'], seq!['p', 'a', 'n'], seq!['p', 'i', 't', 'c', 'h'], seq![
        'v',
        'o',
        'l',
        'u',
        'm',
        'e',
    ]]
}

/// An audio file from its four field values.
pub open spec fn audio_file_of(
    name: Option<JsonView>,
    pan: Option<JsonView>,
    pitch: Option<JsonView>,
    volume: Option<JsonView>,
) -> Option<AudioFileView> {
    match (name, pan, pitch, volume) {
        (Some(n), Some(p), Some(t), Some(v)) => match (
            decode_string(n),
            decode_u8(p),
            decode_u8(t),
            decode_u8(v),
        ) {
            (Some(name), Some(pan), Some(pitch), Some(volume)) => Some(
                AudioFileView { name, pan, pitch, volume },
            ),
            _ => None,
        },
        _ => None,
    }
}

/// The audio file a JSON value decodes to.
pub open spec fn decode_audio_file(v: JsonView) -> Option<AudioFileView> {
    match v {
        JsonView::Object(e) => if keys_within(e, audio_file_fields()) {
            audio_file_of(
                field_of(e, audio_file_fields()[0]),
                field_of(e, audio_file_fields()[1]),
                field_of(e, audio_file_fields()[2]),
                field_of(e, audio_file_fields()[3]),
            )
        } else {
            None
        },
        JsonView::Array(a) => if a.len() == 4 {
            audio_file_of(Some(a[0]), Some(a[1]), Some(a[2]), Some(a[3]))
        } else {
            None
        },
        _ => None,
    }
}

/// The field names of a move command.
pub open spec fn move_command_fields() -> Seq<Seq<char>> {
    seq![seq!['c', 'o', 'd', 'e'], seq!['p', 'a', 'r', 'a', 'm', 'e', 't', 'e', 'r', 's'], seq![
        'i',
        'n',
        'd',
        'e',
        'n',
        't',
    ]]
}

/// A move command from its field values; only the code must be present.
pub open spec fn move_command_of(
    code: Option<JsonView>,
    parameters: Option<JsonView>,
    indent: Option<JsonView>,
) -> Option<MoveCommandView> {
    match code {
        Some(c) => match (decode_u32(c), decode_opt_values(parameters), decode_opt_u32(indent)) {
            (Some(code), Some(parameters), Some(indent)) => Some(
                MoveCommandView { code, parameters, indent },
            ),
            _ => None,
        },
        None => None,
    }
}

/// The move command a JSON value decodes to.
pub open spec fn decode_move_command(v: JsonView) -> Option<MoveCommandView> {
    match v {
        JsonView::Object(e) => if keys_within(e, move_command_fields()) {
            move_command_of(
                field_of(e, move_command_fields()[0]),
                field_of(e, move_command_fields()[1]),
                field_of(e, move_command_fields()[2]),
            )
        } else {
            None
        },
        JsonView::Array(a) => if a.len() == 3 {
            move_command_of(Some(a[0]), Some(a[1]), Some(a[2]))
        } else {
            None
        },
        _ => None,
    }
}

/// Decode every element of a list as a move command.
pub open spec fn decode_move_commands(a: Seq<JsonView>) -> Option<Seq<MoveCommandView>>
    decreases a.len(),
{
    if a.len() == 0 {
        Some(seq![])
    } else {
        match (decode_move_commands(a.drop_last()), decode_move_command(a.last())) {
            (Some(rest), Some(c)) => Some(rest.push(c)),
            _ => None,
        }
    }
}

/// The field names of a move route.
pub open spec fn move_route_fields() -> Seq<Seq<char>> {
    seq![seq!['l', 'i', 's', 't'], seq!['r', 'e', 'p', 'e', 'a', 't'], seq![
        's',
        'k',
        'i',
        'p',
        'p',
        'a',
        'b',
        'l',
        'e',
    ], seq!['w', 'a', 'i', 't']]
}

/// A move route from its four field values.
pub open spec fn move_route_of(
    list: Option<JsonView>,
    repeat: Option<JsonView>,
    skippable: Option<JsonView>,
    wait: Option<JsonView>,
) -> Option<MoveRouteView> {
    match (list, repeat, skippable, wait) {
        (Some(JsonView::Array(l)), Some(r), Some(s), Some(w)) => match (
            decode_move_commands(l),
            decode_bool(r),
            decode_bool(s),
            decode_bool(w),
        ) {
            (Some(list), Some(repeat), Some(skippable), Some(wait)) => Some(
                MoveRouteView { list, repeat, skippable, wait },
            ),
            _ => None,
        },
        _ => None,
    }
}

/// The move route a JSON value decodes to.
pub open spec fn decode_move_route(v: JsonView) -> Option<MoveRouteView> {
    match v {
        JsonView::Object(e) => if keys_within(e, move_route_fields()) {
            move_route_of(
                field_of(e, move_route_fields()[0]),
                field_of(e, move_route_fields()[1]),
                field_of(e, move_route_fields()[2]),
                field_of(e, move_route_fields()[3]),
            )
        } else {
            None
        },
        JsonView::Array(a) => if a.len() == 4 {
            move_route_of(Some(a[0]), Some(a[1]), Some(a[2]), Some(a[3]))
        } else {
            None
        },
        _ => None,
    }
}

/// A list of strings.
pub open spec fn decode_strings(a: Seq<JsonView>) -> Option<Seq<Seq<char>>>
    decreases a.len(),
{
    if a.len() == 0 {
        Some(seq![])
    } else {
        match (decode_strings(a.drop_last()), decode_string(a.last())) {
            (Some(rest), Some(s)) => Some(rest.push(s)),
            _ => None,
        }
    }
}

/// Four integers in the range of an `i16`.
pub open spec fn decode_i16x4(v: JsonView) -> Option<Seq<i16>> {
    match v {
        JsonView::Array(a) => if a.len() == 4 {
            match (decode_i16(a[0]), decode_i16(a[1]), decode_i16(a[2]), decode_i16(a[3])) {
                (Some(x), Some(y), Some(z), Some(w)) => Some(seq![x, y, z, w]),
                _ => None,
            }
        } else {
            None
        },
        _ => None,
    }
}

/// Four integers in the range of a `u8`.
pub open spec fn decode_u8x4(v: JsonView) -> Option<Seq<u8>> {
    match v {
        JsonView::Array(a) => if a.len() == 4 {
            match (decode_u8(a[0]), decode_u8(a[1]), decode_u8(a[2]), decode_u8(a[3])) {
                (Some(x), Some(y), Some(z), Some(w)) => Some(seq![x, y, z, w]),
                _ => None,
            }
        } else {
            None
        },
        _ => None,
    }
}

/// An optional string: `null` is none.
pub open spec fn decode_opt_string(v: JsonView) -> Option<Option<Seq<char>>> {
    match v {
        JsonView::Null => Some(None),
        JsonView::Str(s) => Some(Some(s)),
        _ => None,
    }
}

// Executable decoders.

/// Whether `key` holds the text of `name`.
fn key_is(key: &String, name: &str) -> (b: bool)
    ensures
        b == (key@ == name@),
{
    let n = crate::text::owned(name);
    crate::text::string_eq(key, &n)
}

/// The value of the first entry with the key `name`.
fn get_field<'a>(entries: &'a Vec<(String, JsonValue)>, name: &str) -> (r: Option<&'a JsonValue>)
    ensures
        match r {
            Some(v) => field_of(crate::json::entry_views(entries@), name@) == Some(v@),
            None => field_of(crate::json::entry_views(entries@), name@) is None,
        },
{
    let ghost views = crate::json::entry_views(entries@);
    proof {
        crate::json::lemma_entry_views(entries@);
    }
    assert(views.subrange(0, views.len() as int) =~= views);
    let mut i: usize = 0;
    while i < entries.len()
        invariant
            i <= entries@.len(),
            views == crate::json::entry_views(entries@),
            views.len() == entries@.len(),
            forall|j: int|
                0 <= j < entries@.len() ==> #[trigger] views[j] == (
                    entries@[j].0@,
                    entries@[j].1@,
                ),
            field_of(views, name@) == field_of(views.subrange(i as int, views.len() as int), name@),
        decreases entries@.len() - i,
    {
        let ghost rest = views.subrange(i as int, views.len() as int);
        assert(rest.drop_first() =~= views.subrange(i + 1, views.len() as int));
        assert(rest[0] == views[i as int]);
        if key_is(&entries[i].0, name) {
            return Some(&entries[i].1);
        }
        assert(rest[0].0 != name@);
        i = i + 1;
    }
    None
}

/// Whether every key of `entries` is one of `names`.
fn keys_within_exec(entries: &Vec<(String, JsonValue)>, names: &[&str]) -> (b: bool)
    ensures
        b == keys_within(
            crate::json::entry_views(entries@),
            names@.map_values(|n: &str| n@),
        ),
{
    let ghost views = crate::json::entry_views(entries@);
    let ghost name_views = names@.map_values(|n: &str| n@);
    proof {
        crate::json::lemma_entry_views(entries@);
    }
    let mut i: usize = 0;
    while i < entries.len()
        invariant
            i <= entries@.len(),
            views == crate::json::entry_views(entries@),
            name_views == names@.map_values(|n: &str| n@),
            views.len() == entries@.len(),
            forall|j: int|
                0 <= j < entries@.len() ==> #[trigger] views[j] == (
                    entries@[j].0@,
                    entries@[j].1@,
                ),
            forall|j: int| 0 <= j < i ==> name_views.contains(#[trigger] views[j].0),
        decreases entries@.len() - i,
    {
        let mut found = false;
        let mut k: usize = 0;
        while k < names.len()
            invariant
                k <= names@.len(),
                i < entries@.len(),
                name_views == names@.map_values(|n: &str| n@),
                found == (exists|m: int| 0 <= m < k && name_views[m] == entries@[i as int].0@),
            decreases names@.len() - k,
        {
            assert(name_views[k as int] == names@[k as int]@);
            if key_is(&entries[i].0, names[k]) {
                found = true;
            }
            k = k + 1;
        }
        if !found {
            assert(!name_views.contains(views[i as int].0));
            return false;
        }
        i = i + 1;
    }
    true
}

/// Decode an integer in the range of a `u8`.
pub fn decode_u8_exec(v: &JsonValue) -> (r: Option<u8>)
    ensures
        r == decode_u8(v@),
{
    match v {
        JsonValue::Int(i) => if 0 <= *i && *i <= 255 {
            Some(*i as u8)
        } else {
            None
        },
        _ => None,
    }
}

/// Decode an integer in the range of a `u32`.
pub fn decode_u32_exec(v: &JsonValue) -> (r: Option<u32>)
    ensures
        r == decode_u32(v@),
{
    match v {
        JsonValue::Int(i) => if 0 <= *i && *i <= 4294967295 {
            Some(*i as u32)
        } else {
            None
        },
        _ => None,
    }
}

/// Decode an integer in the range of an `i16`.
pub fn decode_i16_exec(v: &JsonValue) -> (r: Option<i16>)
    ensures
        r == decode_i16(v@),
{
    match v {
        JsonValue::Int(i) => if -32768 <= *i && *i <= 32767 {
            Some(*i as i16)
        } else {
            None
        },
        _ => None,
    }
}

/// Decode a boolean.
pub fn decode_bool_exec(v: &JsonValue) -> (r: Option<bool>)
    ensures
        r == decode_bool(v@),
{
    match v {
        JsonValue::Bool(b) => Some(*b),
        _ => None,
    }
}

/// Decode a string.
pub fn decode_string_exec(v: &JsonValue) -> (r: Option<String>)
    ensures
        match r {
            Some(s) => decode_string(v@) == Some(s@),
            None => decode_string(v@) is None,
        },
{
    match v {
        JsonValue::String(s) => Some(s.clone()),
        _ => None,
    }
}

/// A deep copy of a list of JSON values.
pub fn clone_values(a: &Vec<JsonValue>) -> (r: Vec<JsonValue>)
    ensures
        json_views(r@) == json_views(a@),
{
    proof {
        lemma_json_views(a@);
    }
    let mut out: Vec<JsonValue> = Vec::new();
    let mut i: usize = 0;
    while i < a.len()
        invariant
            i <= a@.len(),
            out@.len() == i,
            json_views(a@).len() == a@.len(),
            forall|j: int| 0 <= j < a@.len() ==> #[trigger] json_views(a@)[j] == a@[j]@,
            forall|j: int| 0 <= j < i ==> (#[trigger] out@[j])@ == a@[j]@,
        decreases a@.len() - i,
    {
        out.push(clone_json(&a[i]));
        i = i + 1;
    }
    proof {
        lemma_json_views(out@);
    }
    assert(json_views(out@) =~= json_views(a@));
    out
}

fn audio_file_of_exec(
    name: Option<&JsonValue>,
    pan: Option<&JsonValue>,
    pitch: Option<&JsonValue>,
    volume: Option<&JsonValue>,
) -> (r: Option<AudioFile>)
    ensures
        match r {
            Some(a) => audio_file_of(
                opt_view(name),
                opt_view(pan),
                opt_view(pitch),
                opt_view(volume),
            ) == Some(a@),
            None => audio_file_of(
                opt_view(name),
                opt_view(pan),
                opt_view(pitch),
                opt_view(volume),
            ) is None,
        },
{
    match (name, pan, pitch, volume) {
        (Some(n), Some(p), Some(t), Some(v)) => {
            match (decode_string_exec(n), decode_u8_exec(p), decode_u8_exec(t), decode_u8_exec(v)) {
                (Some(name), Some(pan), Some(pitch), Some(volume)) => Some(
                    AudioFile { name, pan, pitch, volume },
                ),
                _ => None,
            }
        },
        _ => None,
    }
}

/// The view of an optional reference to a JSON value.
pub open spec fn opt_view(v: Option<&JsonValue>) -> Option<JsonView> {
    match v {
        Some(x) => Some(x@),
        None => None,
    }
}

/// Decode an audio file.
pub fn decode_audio_file_exec(v: &JsonValue) -> (r: Option<AudioFile>)
    ensures
        match r {
            Some(a) => decode_audio_file(v@) == Some(a@),
            None => decode_audio_file(v@) is None,
        },
{
    proof {
        reveal_strlit("name");
        reveal_strlit("pan");
        reveal_strlit("pitch");
        reveal_strlit("volume");
        assert("name"@ =~= audio_file_fields()[0]);
        assert("pan"@ =~= audio_file_fields()[1]);
        assert("pitch"@ =~= audio_file_fields()[2]);
        assert("volume"@ =~= audio_file_fields()[3]);
    }
    match v {
        JsonValue::Object(e) => {
            let names: [&str; 4] = ["name", "pan", "pitch", "volume"];
            let ok = keys_within_exec(e, names.as_slice());
            proof {
                assert(names@.map_values(|n: &str| n@) =~= audio_file_fields());
            }
            if !ok {
                return None;
            }
            audio_file_of_exec(
                get_field(e, "name"),
                get_field(e, "pan"),
                get_field(e, "pitch"),
                get_field(e, "volume"),
            )
        },
        JsonValue::Array(a) => {
            proof {
                lemma_json_views(a@);
            }
            if a.len() != 4 {
                return None;
            }
            audio_file_of_exec(Some(&a[0]), Some(&a[1]), Some(&a[2]), Some(&a[3]))
        },
        _ => None,
    }
}

fn move_command_of_exec(
    code: Option<&JsonValue>,
    parameters: Option<&JsonValue>,
    indent: Option<&JsonValue>,
) -> (r: Option<MoveCommand>)
    ensures
        match r {
            Some(c) => move_command_of(opt_view(code), opt_view(parameters), opt_view(indent))
                == Some(c@),
            None => move_command_of(opt_view(code), opt_view(parameters), opt_view(indent)) is None,
        },
{
    let code = match code {
        Some(c) => match decode_u32_exec(c) {
            Some(c) => c,
            None => return None,
        },
        None => return None,
    };
    let parameters = match parameters {
        None => None,
        Some(JsonValue::Null) => None,
        Some(JsonValue::Array(a)) => Some(clone_values(a)),
        Some(_) => return None,
    };
    let indent = match indent {
        None => None,
        Some(JsonValue::Null) => None,
        Some(x) => match decode_u32_exec(x) {
            Some(n) => Some(n),
            None => return None,
        },
    };
    Some(MoveCommand { code, parameters, indent })
}

/// Decode a move command.
pub fn decode_move_command_exec(v: &JsonValue) -> (r: Option<MoveCommand>)
    ensures
        match r {
            Some(c) => decode_move_command(v@) == Some(c@),
            None => decode_move_command(v@) is None,
        },
{
    proof {
        reveal_strlit("code");
        reveal_strlit("parameters");
        reveal_strlit("indent");
        assert("code"@ =~= move_command_fields()[0]);
        assert("parameters"@ =~= move_command_fields()[1]);
        assert("indent"@ =~= move_command_fields()[2]);
    }
    match v {
        JsonValue::Object(e) => {
            let names: [&str; 3] = ["code", "parameters", "indent"];
            let ok = keys_within_exec(e, names.as_slice());
            proof {
                assert(names@.map_values(|n: &str| n@) =~= move_command_fields());
            }
            if !ok {
                return None;
            }
            move_command_of_exec(
                get_field(e, "code"),
                get_field(e, "parameters"),
                get_field(e, "indent"),
            )
        },
        JsonValue::Array(a) => {
            proof {
                lemma_json_views(a@);
            }
            if a.len() != 3 {
                return None;
            }
            move_command_of_exec(Some(&a[0]), Some(&a[1]), Some(&a[2]))
        },
        _ => None,
    }
}

/// Decode a list of move commands.
fn decode_move_commands_exec(a: &Vec<JsonValue>) -> (r: Option<Vec<MoveCommand>>)
    ensures
        match r {
            Some(l) => decode_move_commands(json_views(a@)) == Some(
                l@.map_values(|c: MoveCommand| c@),
            ),
            None => decode_move_commands(json_views(a@)) is None,
        },
{
    proof {
        lemma_json_views(a@);
    }
    let ghost views = json_views(a@);
    let mut out: Vec<MoveCommand> = Vec::new();
    let mut i: usize = 0;
    while i < a.len()
        invariant
            i <= a@.len(),
            views == json_views(a@),
            views.len() == a@.len(),
            forall|j: int| 0 <= j < a@.len() ==> #[trigger] views[j] == a@[j]@,
            decode_move_commands(views.subrange(0, i as int)) == Some(
                out@.map_values(|c: MoveCommand| c@),
            ),
        decreases a@.len() - i,
    {
        let ghost prefix = views.subrange(0, i + 1);
        assert(prefix.drop_last() =~= views.subrange(0, i as int));
        match decode_move_command_exec(&a[i]) {
            Some(c) => {
                out.push(c);
                assert(out@.map_values(|c: MoveCommand| c@) =~= decode_move_commands(
                    views.subrange(0, i as int),
                )->0.push(c@));
            },
            None => {
                proof {
                    lemma_decode_move_commands_prefix(views, i as int + 1);
                }
                return None;
            },
        }
        i = i + 1;
    }
    assert(views.subrange(0, a@.len() as int) =~= views);
    Some(out)
}

/// A list fails to decode as soon as a prefix of it does.
proof fn lemma_decode_move_commands_prefix(a: Seq<JsonView>, k: int)
    requires
        0 <= k <= a.len(),
        decode_move_commands(a.subrange(0, k)) is None,
    ensures
        decode_move_commands(a) is None,
    decreases a.len() - k,
{
    if k < a.len() {
        let p = a.subrange(0, k + 1);
        assert(p.drop_last() =~= a.subrange(0, k));
        lemma_decode_move_commands_prefix(a, k + 1);
    } else {
        assert(a.subrange(0, k) =~= a);
    }
}

fn move_route_of_exec(
    list: Option<&JsonValue>,
    repeat: Option<&JsonValue>,
    skippable: Option<&JsonValue>,
    wait: Option<&JsonValue>,
) -> (r: Option<MoveRoute>)
    ensures
        match r {
            Some(m) => move_route_of(
                opt_view(list),
                opt_view(repeat),
                opt_view(skippable),
                opt_view(wait),
            ) == Some(m@),
            None => move_route_of(
                opt_view(list),
                opt_view(repeat),
                opt_view(skippable),
                opt_view(wait),
            ) is None,
        },
{
    match (list, repeat, skippable, wait) {
        (Some(JsonValue::Array(l)), Some(r), Some(s), Some(w)) => {
            match (
                decode_move_commands_exec(l),
                decode_bool_exec(r),
                decode_bool_exec(s),
                decode_bool_exec(w),
            ) {
                (Some(list), Some(repeat), Some(skippable), Some(wait)) => Some(
                    MoveRoute { list, repeat, skippable, wait },
                ),
                _ => None,
            }
        },
        _ => None,
    }
}

/// Decode a move route.
pub fn decode_move_route_exec(v: &JsonValue) -> (r: Option<MoveRoute>)
    ensures
        match r {
            Some(m) => decode_move_route(v@) == Some(m@),
            None => decode_move_route(v@) is None,
        },
{
    proof {
        reveal_strlit("list");
        reveal_strlit("repeat");
        reveal_strlit("skippable");
        reveal_strlit("wait");
        assert("list"@ =~= move_route_fields()[0]);
        assert("repeat"@ =~= move_route_fields()[1]);
        assert("skippable"@ =~= move_route_fields()[2]);
        assert("wait"@ =~= move_route_fields()[3]);
    }
    match v {
        JsonValue::Object(e) => {
            let names: [&str; 4] = ["list", "repeat", "skippable", "wait"];
            let ok = keys_within_exec(e, names.as_slice());
            proof {
                assert(names@.map_values(|n: &str| n@) =~= move_route_fields());
            }
            if !ok {
                return None;
            }
            move_route_of_exec(
                get_field(e, "list"),
                get_field(e, "repeat"),
                get_field(e, "skippable"),
                get_field(e, "wait"),
            )
        },
        JsonValue::Array(a) => {
            proof {
                lemma_json_views(a@);
            }
            if a.len() != 4 {
                return None;
            }
            move_route_of_exec(Some(&a[0]), Some(&a[1]), Some(&a[2]), Some(&a[3]))
        },
        _ => None,
    }
}

/// Decode a list of strings.
pub fn decode_strings_exec(v: &JsonValue) -> (r: Option<Vec<String>>)
    ensures
        match v@ {
            JsonView::Array(a) => match r {
                Some(l) => decode_strings(a) == Some(l@.map_values(|s: String| s@)),
                None => decode_strings(a) is None,
            },
            _ => r is None,
        },
{
    let a = match v {
        JsonValue::Array(a) => a,
        _ => return None,
    };
    proof {
        lemma_json_views(a@);
    }
    let ghost views = json_views(a@);
    let mut out: Vec<String> = Vec::new();
    let mut i: usize = 0;
    while i < a.len()
        invariant
            i <= a@.len(),
            views == json_views(a@),
            views.len() == a@.len(),
            forall|j: int| 0 <= j < a@.len() ==> #[trigger] views[j] == a@[j]@,
            decode_strings(views.subrange(0, i as int)) == Some(out@.map_values(|s: String| s@)),
            v@ == JsonView::Array(views),
        decreases a@.len() - i,
    {
        let ghost prefix = views.subrange(0, i + 1);
        assert(prefix.drop_last() =~= views.subrange(0, i as int));
        match decode_string_exec(&a[i]) {
            Some(s) => {
                out.push(s);
                assert(out@.map_values(|s: String| s@) =~= decode_strings(
                    views.subrange(0, i as int),
                )->0.push(s@));
            },
            None => {
                proof {
                    assert(prefix.last() == views[i as int]);
                    assert(decode_strings(prefix) is None);
                    lemma_decode_strings_prefix(views, i as int + 1);
                    assert(v@ == JsonView::Array(views));
                }
                return None;
            },
        }
        i = i + 1;
    }
    assert(views.subrange(0, a@.len() as int) =~= views);
    Some(out)
}

proof fn lemma_decode_strings_prefix(a: Seq<JsonView>, k: int)
    requires
        0 <= k <= a.len(),
        decode_strings(a.subrange(0, k)) is None,
    ensures
        decode_strings(a) is None,
    decreases a.len() - k,
{
    if k < a.len() {
        let p = a.subrange(0, k + 1);
        assert(p.drop_last() =~= a.subrange(0, k));
        lemma_decode_strings_prefix(a, k + 1);
    } else {
        assert(a.subrange(0, k) =~= a);
    }
}

/// Decode four integers in the range of an `i16`.
pub fn decode_i16x4_exec(v: &JsonValue) -> (r: Option<[i16; 4]>)
    ensures
        match r {
            Some(t) => decode_i16x4(v@) == Some(t@),
            None => decode_i16x4(v@) is None,
        },
{
    match v {
        JsonValue::Array(a) => {
            proof {
                lemma_json_views(a@);
            }
            if a.len() != 4 {
                return None;
            }
            match (
                decode_i16_exec(&a[0]),
                decode_i16_exec(&a[1]),
                decode_i16_exec(&a[2]),
                decode_i16_exec(&a[3]),
            ) {
                (Some(x), Some(y), Some(z), Some(w)) => {
                    let t: [i16; 4] = [x, y, z, w];
                    assert(t@ =~= seq![x, y, z, w]);
                    Some(t)
                },
                _ => None,
            }
        },
        _ => None,
    }
}

/// Decode four integers in the range of a `u8`.
pub fn decode_u8x4_exec(v: &JsonValue) -> (r: Option<[u8; 4]>)
    ensures
        match r {
            Some(t) => decode_u8x4(v@) == Some(t@),
            None => decode_u8x4(v@) is None,
        },
{
    match v {
        JsonValue::Array(a) => {
            proof {
                lemma_json_views(a@);
            }
            if a.len() != 4 {
                return None;
            }
            match (
                decode_u8_exec(&a[0]),
                decode_u8_exec(&a[1]),
                decode_u8_exec(&a[2]),
                decode_u8_exec(&a[3]),
            ) {
                (Some(x), Some(y), Some(z), Some(w)) => {
                    let t: [u8; 4] = [x, y, z, w];
                    assert(t@ =~= seq![x, y, z, w]);
                    Some(t)
                },
                _ => None,
            }
        },
        _ => None,
    }
}

/// Decode an optional string.
pub fn decode_opt_string_exec(v: &JsonValue) -> (r: Option<Option<String>>)
    ensures
        match r {
            Some(Some(s)) => decode_opt_string(v@) == Some(Some(s@)),
            Some(None) => decode_opt_string(v@) == Some(None::<Seq<char>>),
            None => decode_opt_string(v@) is None,
        },
{
    match v {
        JsonValue::Null => Some(None),
        JsonValue::String(s) => Some(Some(s.clone())),
        _ => None,
    }
}

/// Whether two move commands are equal.
pub fn move_command_eq(a: &MoveCommand, b: &MoveCommand) -> (r: bool)
    ensures
        r == (a@ == b@),
{
    if a.code != b.code || a.indent != b.indent {
        return false;
    }
    match (&a.parameters, &b.parameters) {
        (None, None) => true,
        (Some(x), Some(y)) => {
            proof {
                lemma_json_views(x@);
                lemma_json_views(y@);
            }
            if x.len() != y.len() {
                return false;
            }
            let mut i: usize = 0;
            while i < x.len()
                invariant
                    i <= x@.len(),
                    x@.len() == y@.len(),
                    json_views(x@).len() == x@.len(),
                    json_views(y@).len() == y@.len(),
                    forall|j: int| 0 <= j < x@.len() ==> #[trigger] json_views(x@)[j] == x@[j]@,
                    forall|j: int| 0 <= j < y@.len() ==> #[trigger] json_views(y@)[j] == y@[j]@,
                    forall|j: int| 0 <= j < i ==> x@[j]@ == y@[j]@,
                    a@.parameters == Some(json_views(x@)),
                    b@.parameters == Some(json_views(y@)),
                decreases x@.len() - i,
            {
                if !json_eq(&x[i], &y[i]) {
                    assert(json_views(x@)[i as int] != json_views(y@)[i as int]);
                    assert(json_views(x@) != json_views(y@));
                    assert(a@.parameters == Some(json_views(x@)));
                    assert(b@.parameters == Some(json_views(y@)));
                    return false;
                }
                i = i + 1;
            }
            assert(json_views(x@) =~= json_views(y@));
            true
        },
        _ => false,
    }
}

} // verus!

verus! {

/// An event command parameter of one of the shapes the game uses.
#[derive(Debug, PartialEq)]
pub enum EventCommandParameter {
    /// A string
    String(String),
    /// A signed integer
    Int(i32),
    /// A boolean
    Bool(bool),
    /// A move route
    MoveRoute(MoveRoute),
    /// A move command
    MoveCommand(MoveCommand),
    /// An audio file
    AudioFile(AudioFile),
}

impl EventCommandParameter {
    /// This parameter as an integer, where it is one.
    pub fn as_int(&self) -> (r: Option<&i32>)
        ensures
            match self {
                EventCommandParameter::Int(n) => r matches Some(v) && *v == *n,
                _ => r is None,
            },
    {
        match self {
            EventCommandParameter::Int(n) => Some(n),
            _ => None,
        }
    }
}

} // verus!
