//! The decisions of checking a game's text for lines too wide for their
//! windows: which game it is, how wide its screen is, which files and
//! messages hold text, and which shorter lines to suggest.
use crate::decimal::{parse_u16, parse_u16_spec};
use crate::dump::{padded, push_padded};
use crate::json::{json_views, lemma_json_views, JsonValue};
use crate::message_parser::{MessageNode, NodeView};
use crate::text::{chars_of, push_char, push_str, string_eq, string_of};
use crate::types::{EventCommand, Plugin};
use vstd::prelude::*;

verus! {

/// Message text is padded by default with 18px.
pub const MESSAGE_STANDARD_PADDING: u16 = 18;

/// Message Actor Faces are 144x144 px.
pub const MESSAGE_FACE_SIZE: u16 = 144;

/// The padding around a message's face.
pub const MESSAGE_FACE_PADDING: u16 = 12;

/// Text padding is applied in addition to the standard padding, but not for all windows.
pub const TEXT_PADDING: u16 = 6;

/// The screen width that the screen plugins fall back to.
pub const DEFAULT_SCREEN_WIDTH: u16 = 816;

/// The path holds no game: it has no `node.dll`.
#[derive(Debug, Clone, Copy, PartialEq, Eq)]
pub struct NotAGame;

/// Whether a game is an MV game: a game has a `node.dll`, and an MV game keeps
/// its data in a `www` directory.
pub fn is_game_mv(node_dll_exists: bool, www_exists: bool) -> (r: Result<bool, NotAGame>)
    ensures
        r == (if node_dll_exists {
            Ok::<bool, NotAGame>(www_exists)
        } else {
            Err(NotAGame)
        }),
{
    if !node_dll_exists {
        return Err(NotAGame);
    }
    Ok(www_exists)
}

/// The map number of a map file name `Map<number>.json`.
pub open spec fn map_name_spec(name: Seq<char>) -> Option<u16> {
    if name.len() >= 8 && name.subrange(0, 3) == "Map"@ && name.subrange(
        name.len() - 5,
        name.len() as int,
    ) == ".json"@ {
        parse_u16_spec(name.subrange(3, name.len() - 5))
    } else {
        None
    }
}

/// Whether `chars[start..end]` spells `word`.
fn spells(chars: &Vec<char>, start: usize, end: usize, word: &str) -> (r: bool)
    requires
        start <= end <= chars@.len(),
    ensures
        r == (chars@.subrange(start as int, end as int) == word@),
{
    let s = string_of(chars, start, end);
    let w = crate::text::owned(word);
    string_eq(&s, &w)
}

/// Try to parse a map name. Returns the map id if the given name is a map
/// file name.
pub fn parse_map_name(name: &str) -> (r: Option<u16>)
    ensures
        r == map_name_spec(name@),
{
    proof {
        reveal_strlit("Map");
        reveal_strlit(".json");
    }
    let chars = chars_of(name);
    let len = chars.len();
    if len < 8 {
        return None;
    }
    if !spells(&chars, 0, 3, "Map") || !spells(&chars, len - 5, len, ".json") {
        return None;
    }
    let middle = string_of(&chars, 3, len - 5);
    parse_u16(middle.as_str())
}

/// Why the screen width could not be read from the plugins.
#[derive(Debug, Clone, Copy, PartialEq, Eq)]
pub enum ScreenWidthError {
    /// The screen plugin at `index` lacks its screen width parameter.
    MissingParameter { index: usize },
    /// The screen width of the plugin at `index` is not a `u16`.
    InvalidWidth { index: usize },
}

/// The value of the first parameter named `key`.
pub open spec fn param_of(params: Seq<(String, String)>, key: Seq<char>) -> Option<Seq<char>>
    decreases params.len(),
{
    if params.len() == 0 {
        None
    } else if params[0].0@ == key {
        Some(params[0].1@)
    } else {
        param_of(params.drop_first(), key)
    }
}

/// The screen width parameter of a plugin that sets the screen width.
pub open spec fn width_key(name: Seq<char>) -> Option<Seq<char>> {
    if name == "Community_Basic"@ {
        Some("screenWidth"@)
    } else if name == "YEP_CoreEngine"@ {
        Some("Screen Width"@)
    } else {
        None
    }
}

/// The screen width a plugin sets, where it is a screen plugin: an empty
/// value stands for the default width.
pub open spec fn plugin_width(p: Plugin, index: usize) -> Result<Option<u16>, ScreenWidthError> {
    match width_key(p.name@) {
        None => Ok(None),
        Some(key) => match param_of(p.parameters@, key) {
            None => Err(ScreenWidthError::MissingParameter { index }),
            Some(v) => if v.len() == 0 {
                Ok(Some(DEFAULT_SCREEN_WIDTH))
            } else {
                match parse_u16_spec(v) {
                    Some(w) => Ok(Some(w)),
                    None => Err(ScreenWidthError::InvalidWidth { index }),
                }
            },
        },
    }
}

/// The screen width that the first `n` plugins set: the last screen plugin
/// decides.
pub open spec fn width_after(plugins: Seq<Plugin>, n: int) -> Result<Option<u16>, ScreenWidthError>
    decreases n,
{
    if n <= 0 {
        Ok(None)
    } else {
        match width_after(plugins, n - 1) {
            Err(e) => Err(e),
            Ok(w) => match plugin_width(plugins[n - 1], (n - 1) as usize) {
                Err(e) => Err(e),
                Ok(Some(v)) => Ok(Some(v)),
                Ok(None) => Ok(w),
            },
        }
    }
}

/// The screen width of an MV game from its plugins, the default width where
/// no screen plugin sets it.
pub open spec fn screen_width_spec(plugins: Seq<Plugin>) -> Result<u16, ScreenWidthError> {
    match width_after(plugins, plugins.len() as int) {
        Err(e) => Err(e),
        Ok(Some(w)) => Ok(w),
        Ok(None) => Ok(DEFAULT_SCREEN_WIDTH),
    }
}

/// The value of the first parameter named `key`.
fn find_param<'a>(params: &'a Vec<(String, String)>, key: &str) -> (r: Option<&'a String>)
    ensures
        match r {
            Some(v) => param_of(params@, key@) == Some(v@),
            None => param_of(params@, key@) is None,
        },
{
    let k = crate::text::owned(key);
    let mut i: usize = 0;
    assert(params@.subrange(0, params@.len() as int) =~= params@);
    while i < params.len()
        invariant
            i <= params@.len(),
            k@ == key@,
            param_of(params@, key@) == param_of(params@.subrange(i as int, params@.len() as int), key@),
        decreases params@.len() - i,
    {
        let ghost rest = params@.subrange(i as int, params@.len() as int);
        assert(rest.drop_first() =~= params@.subrange(i + 1, params@.len() as int));
        assert(rest[0] == params@[i as int]);
        if string_eq(&params[i].0, &k) {
            return Some(&params[i].1);
        }
        i = i + 1;
    }
    None
}

/// The screen width that one plugin sets.
fn read_plugin_width(p: &Plugin, index: usize) -> (r: Result<Option<u16>, ScreenWidthError>)
    ensures
        r == plugin_width(*p, index),
{
    proof {
        reveal_strlit("Community_Basic");
        reveal_strlit("YEP_CoreEngine");
    }
    let cb = crate::text::owned("Community_Basic");
    let yep = crate::text::owned("YEP_CoreEngine");
    let value = if string_eq(&p.name, &cb) {
        find_param(&p.parameters, "screenWidth")
    } else if string_eq(&p.name, &yep) {
        find_param(&p.parameters, "Screen Width")
    } else {
        return Ok(None);
    };
    match value {
        None => Err(ScreenWidthError::MissingParameter { index }),
        Some(v) => {
            if v.unicode_len() == 0 {
                Ok(Some(DEFAULT_SCREEN_WIDTH))
            } else {
                match parse_u16(v.as_str()) {
                    Some(w) => Ok(Some(w)),
                    None => Err(ScreenWidthError::InvalidWidth { index }),
                }
            }
        },
    }
}

/// The screen width of an MV game, from its plugins.
pub fn screen_width_from_plugins(plugins: &Vec<Plugin>) -> (r: Result<u16, ScreenWidthError>)
    ensures
        r == screen_width_spec(plugins@),
{
    let mut width: Option<u16> = None;
    let mut i: usize = 0;
    while i < plugins.len()
        invariant
            i <= plugins@.len(),
            width_after(plugins@, i as int) == Ok::<Option<u16>, ScreenWidthError>(width),
        decreases plugins@.len() - i,
    {
        match read_plugin_width(&plugins[i], i) {
            Err(e) => {
                proof {
                    lemma_width_err_extends(plugins@, i as int + 1, e);
                }
                return Err(e);
            },
            Ok(Some(w)) => {
                width = Some(w);
            },
            Ok(None) => {},
        }
        i = i + 1;
    }
    match width {
        Some(w) => Ok(w),
        None => Ok(DEFAULT_SCREEN_WIDTH),
    }
}

/// Once a prefix of the plugins fails, so do all of them.
proof fn lemma_width_err_extends(plugins: Seq<Plugin>, n: int, e: ScreenWidthError)
    requires
        0 <= n <= plugins.len(),
        width_after(plugins, n) == Err::<Option<u16>, ScreenWidthError>(e),
    ensures
        width_after(plugins, plugins.len() as int) == Err::<Option<u16>, ScreenWidthError>(e),
    decreases plugins.len() - n,
{
    if n < plugins.len() {
        lemma_width_err_extends(plugins, n + 1, e);
    }
}

/// The text between `var $plugins =` and `;` in the plugins script, as the
/// pattern `(?s)var \$plugins =\s*(\[.*\]);` captures it.
pub uninterp spec fn plugins_capture(js: Seq<char>) -> Option<Seq<char>>;

/// Calls `regex::Regex::captures` with the pattern `(?s)var \$plugins =\s*(\[.*\]);`
/// on the plugins script and takes its first group. The contract names the
/// result, a function of the script alone; what the pattern matches is left
/// to the pattern.
#[verifier::external_body]
fn capture_plugins(js: &str) -> (r: Option<String>)
    ensures
        match r {
            Some(s) => plugins_capture(js@) == Some(s@),
            None => plugins_capture(js@) is None,
        },
{
    let regex = regex::Regex::new(r"(?s)var \$plugins =\s*(\[.*\]);").ok()?;
    let captures = regex.captures(js)?;
    Some(captures.get(1)?.as_str().to_string())
}

/// The plugins script gives no list of plugins.
#[derive(Debug, Clone, Copy, PartialEq, Eq)]
pub struct MissingPlugins;

/// The JSON text of the list of plugins in an MV game's plugins script.
pub fn plugins_json(js: &str) -> (r: Result<String, MissingPlugins>)
    ensures
        match r {
            Ok(s) => plugins_capture(js@) == Some(s@),
            Err(_) => plugins_capture(js@) is None,
        },
{
    match capture_plugins(js) {
        Some(s) => Ok(s),
        None => Err(MissingPlugins),
    }
}

/// A message: the face shown beside it and its lines, each after a new line.
#[derive(Debug, Clone, PartialEq, Eq)]
pub struct Message {
    pub face: String,
    pub lines: String,
}

/// Why the messages of an event command list could not be gathered.
#[derive(Debug, Clone, Copy, PartialEq, Eq)]
pub enum CollectError {
    /// A message command has no face parameter.
    MissingFace,
    /// A message command's face is not a string.
    FaceNotString,
    /// A text line command has no line parameter.
    MissingLine,
    /// A text line command's line is not a string.
    LineNotString,
    /// A text line command stands outside a message.
    LineOutsideMessage,
}

/// The code of a message command.
pub const SHOW_TEXT_CODE: u32 = 101;

/// The code of a text line of a message.
pub const TEXT_DATA_CODE: u32 = 401;

/// Gathers the messages of an event command list: a message command begins a
/// message with its face, each text line command adds a line, and any other
/// command ends it.
pub struct MessageCollector {
    pub face: String,
    pub lines: Option<String>,
}

impl MessageCollector {
    /// A collector outside any message.
    pub fn new() -> (c: Self)
        ensures
            c.face@ == Seq::<char>::empty(),
            c.lines is None,
    {
        MessageCollector { face: String::new(), lines: None }
    }

    /// The message that a command with `code` ends: the one being gathered,
    /// unless the command adds a line to it.
    pub fn take_finished(&mut self, code: u32) -> (r: Option<Message>)
        ensures
            code == TEXT_DATA_CODE ==> r is None && final(self).face@ == old(self).face@
                && final(self).lines == old(self).lines,
            code != TEXT_DATA_CODE ==> match old(self).lines {
                Some(l) => r matches Some(m) && m.face@ == old(self).face@ && m.lines@ == l@,
                None => r is None,
            },
            code != TEXT_DATA_CODE ==> final(self).lines is None && final(self).face@
                == old(self).face@,
    {
        if code == TEXT_DATA_CODE {
            return None;
        }
        match self.lines.take() {
            Some(l) => Some(Message { face: self.face.clone(), lines: l }),
            None => None,
        }
    }

    /// Takes in a command whose message, if any, was taken by `take_finished`.
    pub fn accept(&mut self, command: &EventCommand) -> (r: Result<(), CollectError>)
        requires
            command.code != TEXT_DATA_CODE ==> old(self).lines is None,
        ensures
            command.code == SHOW_TEXT_CODE ==> match crate::command::str_at(
                command@.parameters,
                0,
            ) {
                Some(face) => r is Ok && final(self).face@ == face && (final(self).lines matches Some(l) && l@ == Seq::<char>::empty()),
                None => r == Err::<(), CollectError>(
                    if command@.parameters.len() == 0 {
                        CollectError::MissingFace
                    } else {
                        CollectError::FaceNotString
                    },
                ),
            },
            command.code == TEXT_DATA_CODE ==> match (
                crate::command::str_at(command@.parameters, 0),
                old(self).lines,
            ) {
                (Some(line), Some(l)) => r is Ok && final(self).face@ == old(self).face@ && (final(self).lines matches Some(n) && n@ == l@ + seq!['\n'] + line),
                (Some(_), None) => r == Err::<(), CollectError>(CollectError::LineOutsideMessage),
                (None, _) => r == Err::<(), CollectError>(
                    if command@.parameters.len() == 0 {
                        CollectError::MissingLine
                    } else {
                        CollectError::LineNotString
                    },
                ),
            },
            command.code != SHOW_TEXT_CODE && command.code != TEXT_DATA_CODE ==> r is Ok
                && final(self).face@ == Seq::<char>::empty() && final(self).lines is None,
    {
        proof {
            lemma_json_views(command.parameters@);
        }
        if command.code == SHOW_TEXT_CODE {
            if command.parameters.len() == 0 {
                return Err(CollectError::MissingFace);
            }
            let face = match command.parameters[0].as_str() {
                Some(f) => f.clone(),
                None => return Err(CollectError::FaceNotString),
            };
            self.face = face;
            self.lines = Some(String::new());
            Ok(())
        } else if command.code == TEXT_DATA_CODE {
            if command.parameters.len() == 0 {
                return Err(CollectError::MissingLine);
            }
            let line = match command.parameters[0].as_str() {
                Some(l) => l,
                None => return Err(CollectError::LineNotString),
            };
            match self.lines.take() {
                Some(mut l) => {
                    let ghost before = l@;
                    push_char(&mut l, '\n');
                    push_str(&mut l, line.as_str());
                    assert(l@ =~= before + seq!['\n'] + line@);
                    self.lines = Some(l);
                    Ok(())
                },
                None => Err(CollectError::LineOutsideMessage),
            }
        } else {
            self.face = String::new();
            self.lines = None;
            Ok(())
        }
    }

    /// The message being gathered when the list ends.
    pub fn finish(self) -> (r: Option<Message>)
        ensures
            match self.lines {
                Some(l) => r matches Some(m) && m.face@ == self.face@ && m.lines@ == l@,
                None => r is None,
            },
    {
        match self.lines {
            Some(l) => Some(Message { face: self.face, lines: l }),
            None => None,
        }
    }
}

/// The plain text of parsed message nodes: their texts, without text codes.
pub open spec fn plain_text(nodes: Seq<NodeView>) -> Seq<char>
    decreases nodes.len(),
{
    if nodes.len() == 0 {
        seq![]
    } else {
        plain_text(nodes.drop_last()) + match nodes.last() {
            NodeView::Text(v) => v,
            _ => seq![],
        }
    }
}

/// The text of message nodes, with their text codes left out.
pub fn strip_text_codes(nodes: &Vec<MessageNode>) -> (r: String)
    ensures
        r@ == plain_text(nodes@.map_values(|n: MessageNode| n@)),
{
    let ghost views = nodes@.map_values(|n: MessageNode| n@);
    let mut r = String::new();
    let mut i: usize = 0;
    while i < nodes.len()
        invariant
            i <= nodes@.len(),
            views == nodes@.map_values(|n: MessageNode| n@),
            r@ == plain_text(views.subrange(0, i as int)),
        decreases nodes@.len() - i,
    {
        let ghost prefix = views.subrange(0, i + 1);
        assert(prefix.drop_last() =~= views.subrange(0, i as int));
        assert(prefix.last() == nodes@[i as int]@);
        match &nodes[i] {
            MessageNode::Text { value } => {
                push_str(&mut r, value.as_str());
            },
            _ => {
                assert(r@ =~= r@ + Seq::<char>::empty());
            },
        }
        assert(r@ =~= plain_text(prefix));
        i = i + 1;
    }
    assert(views.subrange(0, nodes@.len() as int) =~= views);
    r
}

/// The pieces of `s` between the separators `sep`, as `str::split` gives them.
pub open spec fn split_on(s: Seq<char>, sep: char) -> Seq<Seq<char>>
    decreases s.len(),
{
    if s.len() == 0 {
        seq![seq![]]
    } else {
        let rest = split_on(s.drop_last(), sep);
        if s.last() == sep {
            rest.push(seq![])
        } else {
            rest.update(rest.len() - 1, rest.last().push(s.last()))
        }
    }
}

/// The texts of a list of strings.
pub open spec fn texts_of(v: Seq<String>) -> Seq<Seq<char>> {
    v.map_values(|s: String| s@)
}

/// The pieces of `s` between the separators `sep`.
pub fn split_text(s: &str, sep: char) -> (r: Vec<String>)
    ensures
        texts_of(r@) == split_on(s@, sep),
{
    let chars = chars_of(s);
    let mut parts: Vec<String> = Vec::new();
    let mut cur = String::new();
    let mut i: usize = 0;
    while i < chars.len()
        invariant
            i <= chars@.len(),
            chars@ == s@,
            texts_of(parts@).push(cur@) == split_on(s@.subrange(0, i as int), sep),
        decreases chars@.len() - i,
    {
        let c = chars[i];
        let ghost prefix = s@.subrange(0, i + 1);
        assert(prefix.drop_last() =~= s@.subrange(0, i as int));
        assert(prefix.last() == c);
        if c == sep {
            let done = cur;
            parts.push(done);
            cur = String::new();
            assert(texts_of(parts@) =~= texts_of(parts@.drop_last()).push(done@));
            assert(texts_of(parts@).push(cur@) =~= split_on(prefix, sep));
        } else {
            push_char(&mut cur, c);
            assert(texts_of(parts@).push(cur@) =~= split_on(prefix, sep));
        }
        i = i + 1;
    }
    assert(s@.subrange(0, chars@.len() as int) =~= s@);
    let ghost before = texts_of(parts@);
    parts.push(cur);
    assert(texts_of(parts@) =~= before.push(cur@));
    parts
}

/// The pieces that are not empty, in order.
pub open spec fn non_empty(pieces: Seq<Seq<char>>) -> Seq<Seq<char>>
    decreases pieces.len(),
{
    if pieces.len() == 0 {
        seq![]
    } else if pieces.last().len() == 0 {
        non_empty(pieces.drop_last())
    } else {
        non_empty(pieces.drop_last()).push(pieces.last())
    }
}

/// The lines of a text that hold something, in order.
pub fn non_empty_lines(text: &str) -> (r: Vec<String>)
    ensures
        texts_of(r@) == non_empty(split_on(text@, '\n')),
{
    let pieces = split_text(text, '\n');
    let ghost views = texts_of(pieces@);
    let mut r: Vec<String> = Vec::new();
    let mut i: usize = 0;
    while i < pieces.len()
        invariant
            i <= pieces@.len(),
            views == texts_of(pieces@),
            texts_of(r@) == non_empty(views.subrange(0, i as int)),
        decreases pieces@.len() - i,
    {
        let ghost prefix = views.subrange(0, i + 1);
        assert(prefix.drop_last() =~= views.subrange(0, i as int));
        assert(prefix.last() == pieces@[i as int]@);
        if pieces[i].unicode_len() != 0 {
            let ghost before = texts_of(r@);
            r.push(pieces[i].clone());
            assert(texts_of(r@) =~= before.push(pieces@[i as int]@));
        }
        i = i + 1;
    }
    assert(views.subrange(0, pieces@.len() as int) =~= views);
    r
}

/// The width that a message line may take: the screen less the standard
/// padding on both sides, and less the face and its padding where the
/// message shows one.
pub open spec fn message_width_spec(game_width: u16, has_face: bool) -> int {
    game_width - 2 * MESSAGE_STANDARD_PADDING - (if has_face {
        MESSAGE_FACE_SIZE + 2 * MESSAGE_FACE_PADDING
    } else {
        0
    })
}

/// The width that a message line may take.
pub fn message_target_width(game_width: u16, has_face: bool) -> (r: u16)
    requires
        message_width_spec(game_width, has_face) >= 0,
    ensures
        r == message_width_spec(game_width, has_face),
{
    let mut target_width = game_width - (2 * MESSAGE_STANDARD_PADDING);
    if has_face {
        target_width = target_width - (MESSAGE_FACE_SIZE + (MESSAGE_FACE_PADDING * 2));
    }
    target_width
}

/// The width that a line of an item's description may take: the screen
/// less the standard and the text padding on both sides.
pub fn description_target_width(game_width: u16) -> (r: u16)
    requires
        game_width >= 2 * (MESSAGE_STANDARD_PADDING + TEXT_PADDING),
    ensures
        r == game_width - 2 * (MESSAGE_STANDARD_PADDING + TEXT_PADDING),
{
    game_width - (2 * (MESSAGE_STANDARD_PADDING + TEXT_PADDING))
}

/// Words joined by single spaces.
pub open spec fn join_words(ws: Seq<Seq<char>>) -> Seq<char>
    decreases ws.len(),
{
    if ws.len() == 0 {
        seq![]
    } else if ws.len() == 1 {
        ws[0]
    } else {
        join_words(ws.drop_last()) + seq![' '] + ws.last()
    }
}

/// The shorter lines to try in place of a line with words `ws`: the line
/// with its last word dropped, then its last two, and so on, until the
/// line left is empty.
pub open spec fn shorter_lines(ws: Seq<Seq<char>>) -> Seq<Seq<char>>
    decreases ws.len(),
{
    if ws.len() == 0 {
        seq![]
    } else {
        let c = join_words(ws.drop_last());
        if c.len() == 0 {
            seq![]
        } else {
            seq![c] + shorter_lines(ws.drop_last())
        }
    }
}

/// The words of `words[0..k]` joined by single spaces.
fn join_prefix(words: &Vec<String>, k: usize) -> (r: String)
    requires
        k <= words@.len(),
    ensures
        r@ == join_words(texts_of(words@).take(k as int)),
{
    let ghost views = texts_of(words@);
    let mut r = String::new();
    let mut i: usize = 0;
    assert(views.take(0) =~= seq![]);
    while i < k
        invariant
            i <= k <= words@.len(),
            views == texts_of(words@),
            r@ == join_words(views.take(i as int)),
        decreases k - i,
    {
        let ghost next = views.take(i + 1);
        assert(next.drop_last() =~= views.take(i as int));
        assert(next.last() == words@[i as int]@);
        if i > 0 {
            push_char(&mut r, ' ');
        } else {
            assert(next.len() == 1 && next[0] == words@[0]@);
        }
        push_str(&mut r, words[i].as_str());
        assert(r@ =~= join_words(next));
        i = i + 1;
    }
    r
}

/// The shorter lines to suggest in place of `line`, longest first.
pub fn suggestion_candidates(line: &str) -> (r: Vec<String>)
    ensures
        texts_of(r@) == shorter_lines(split_on(line@, ' ')),
{
    let words = split_text(line, ' ');
    let ghost ws = texts_of(words@);
    let mut r: Vec<String> = Vec::new();
    let mut k: usize = words.len();
    assert(ws.take(k as int) =~= ws);
    assert(texts_of(r@) =~= seq![]);
    while k > 0
        invariant
            k <= words@.len(),
            ws == texts_of(words@),
            ws == split_on(line@, ' '),
            texts_of(r@) + shorter_lines(ws.take(k as int)) == shorter_lines(ws),
        decreases k,
    {
        let candidate = join_prefix(&words, k - 1);
        let ghost cur = ws.take(k as int);
        assert(cur.drop_last() =~= ws.take(k - 1));
        if candidate.unicode_len() == 0 {
            assert(shorter_lines(cur) =~= seq![]);
            assert(texts_of(r@) =~= shorter_lines(ws));
            return r;
        }
        let ghost before = texts_of(r@);
        r.push(candidate);
        assert(texts_of(r@) =~= before.push(candidate@));
        assert(texts_of(r@) + shorter_lines(ws.take(k - 1)) =~= before + shorter_lines(cur));
        k = k - 1;
    }
    assert(ws.take(0) =~= seq![]);
    assert(texts_of(r@) =~= texts_of(r@) + shorter_lines(ws.take(0)));
    r
}

/// The files of a game's data that hold text to check.
#[derive(Debug, Clone, Copy, PartialEq, Eq)]
pub enum DataFile {
    Skip,
    GameMap(u16),
    CommonEvents,
    Troops,
    Armors,
    Items,
    Skills,
    Weapons,
}

/// Whether `s` ends with `suffix`.
pub open spec fn ends_with(s: Seq<char>, suffix: Seq<char>) -> bool {
    s.len() >= suffix.len() && s.subrange(s.len() - suffix.len(), s.len() as int) == suffix
}

/// Which data file a file name is.
pub open spec fn data_file_spec(name: Seq<char>) -> DataFile {
    if !ends_with(name, ".json"@) || name == "MapInfos.json"@ {
        DataFile::Skip
    } else {
        match map_name_spec(name) {
            Some(n) => DataFile::GameMap(n),
            None => if name == "CommonEvents.json"@ {
                DataFile::CommonEvents
            } else if name == "Troops.json"@ {
                DataFile::Troops
            } else if name == "Armors.json"@ {
                DataFile::Armors
            } else if name == "Items.json"@ {
                DataFile::Items
            } else if name == "Skills.json"@ {
                DataFile::Skills
            } else if name == "Weapons.json"@ {
                DataFile::Weapons
            } else {
                DataFile::Skip
            },
        }
    }
}

/// Which data file a file name is.
pub fn data_file_kind(name: &str) -> (r: DataFile)
    ensures
        r == data_file_spec(name@),
{
    let chars = chars_of(name);
    let len = chars.len();
    let json_len: usize = 5;
    proof {
        reveal_strlit(".json");
    }
    if len < json_len || !spells(&chars, len - json_len, len, ".json") {
        return DataFile::Skip;
    }
    let n = crate::text::owned(name);
    let eq = |word: &str| -> (b: bool)
        ensures
            b == (name@ == word@),
        {
            let w = crate::text::owned(word);
            string_eq(&n, &w)
        };
    if eq("MapInfos.json") {
        return DataFile::Skip;
    }
    match parse_map_name(name) {
        Some(id) => DataFile::GameMap(id),
        None => {
            if eq("CommonEvents.json") {
                DataFile::CommonEvents
            } else if eq("Troops.json") {
                DataFile::Troops
            } else if eq("Armors.json") {
                DataFile::Armors
            } else if eq("Items.json") {
                DataFile::Items
            } else if eq("Skills.json") {
                DataFile::Skills
            } else if eq("Weapons.json") {
                DataFile::Weapons
            } else {
                DataFile::Skip
            }
        },
    }
}

/// The label of a map's entries: `Map` and the map number in three digits.
pub fn map_file_label(map_number: u16) -> (r: String)
    ensures
        r@ == "Map"@ + padded(map_number as nat, 3),
{
    let mut r = String::new();
    push_str(&mut r, "Map");
    push_padded(&mut r, map_number as u64, 3);
    r
}

/// The font an MV game draws its messages with.
pub fn mv_font_name() -> (r: String)
    ensures
        r@ == "mplus-1m-regular.ttf"@,
{
    crate::text::owned("mplus-1m-regular.ttf")
}

/// The font size of an MV game's messages.
pub const MV_FONT_SIZE: u16 = 28;

/// A path of the file system, carried through unread.
#[verifier::external_type_specification]
#[verifier::external_body]
pub struct ExPathBuf(std::path::PathBuf);

/// What checking a game's lines needs to know of the game.
pub struct CheckLineSizeOptions {
    /// The game path, used for loading fonts.
    pub game_path: std::path::PathBuf,
    /// Whether the game is an MV game.
    pub game_is_mv: bool,
    /// The font name.
    pub font_name: String,
    /// The font size.
    pub font_size: u16,
    /// The screen width.
    pub screen_width: u16,
    /// The data path.
    pub data_path: std::path::PathBuf,
    /// Single text codes that a game's plugins add to the standard ones.
    pub extra_single_text_codes: std::collections::HashSet<char>,
    /// Text codes with a body that a game's plugins add to the standard ones.
    pub extra_text_codes: std::collections::HashSet<String>,
}

impl CheckLineSizeOptions {
    /// The options of an MV game: its messages use the MV font at the MV size.
    pub fn for_mv_game(
        game_path: std::path::PathBuf,
        data_path: std::path::PathBuf,
        screen_width: u16,
    ) -> (r: Self)
        ensures
            r.game_is_mv,
            r.font_name@ == "mplus-1m-regular.ttf"@,
            r.font_size == MV_FONT_SIZE,
            r.screen_width == screen_width,
            r.game_path == game_path,
            r.data_path == data_path,
            r.extra_single_text_codes@ == Set::<char>::empty(),
            r.extra_text_codes@ == Set::<String>::empty(),
    {
        CheckLineSizeOptions {
            game_path,
            game_is_mv: true,
            font_name: mv_font_name(),
            font_size: MV_FONT_SIZE,
            screen_width,
            data_path,
            extra_single_text_codes: std::collections::HashSet::new(),
            extra_text_codes: std::collections::HashSet::new(),
        }
    }

    /// The options of an MZ game, whose settings give its font and screen.
    pub fn for_mz_game(
        game_path: std::path::PathBuf,
        data_path: std::path::PathBuf,
        font_name: String,
        font_size: u16,
        screen_width: u16,
    ) -> (r: Self)
        ensures
            !r.game_is_mv,
            r.font_name@ == font_name@,
            r.font_size == font_size,
            r.screen_width == screen_width,
            r.game_path == game_path,
            r.data_path == data_path,
            r.extra_single_text_codes@ == Set::<char>::empty(),
            r.extra_text_codes@ == Set::<String>::empty(),
    {
        CheckLineSizeOptions {
            game_path,
            game_is_mv: false,
            font_name,
            font_size,
            screen_width,
            data_path,
            extra_single_text_codes: std::collections::HashSet::new(),
            extra_text_codes: std::collections::HashSet::new(),
        }
    }
}

/// Splitting never yields an empty list of pieces.
pub(crate) proof fn lemma_split_nonempty(s: Seq<char>, sep: char)
    ensures
        split_on(s, sep).len() >= 1,
    decreases s.len(),
{
    if s.len() > 0 {
        lemma_split_nonempty(s.drop_last(), sep);
    }
}

/// Joining the words of a line by spaces gives the line back.
pub proof fn lemma_join_split(s: Seq<char>)
    ensures
        join_words(split_on(s, ' ')) == s,
    decreases s.len(),
{
    if s.len() == 0 {
        assert(split_on(s, ' ') =~= seq![seq![]]);
    } else {
        let t = s.drop_last();
        lemma_join_split(t);
        lemma_split_nonempty(t, ' ');
        let rest = split_on(t, ' ');
        let ws = split_on(s, ' ');
        if s.last() == ' ' {
            assert(ws.drop_last() =~= rest);
            assert(s =~= t + seq![' '] + Seq::<char>::empty());
        } else {
            assert(ws.drop_last() =~= rest.drop_last());
            assert(ws.last() == rest.last().push(s.last()));
            if rest.len() == 1 {
                assert(rest[0] == rest.last());
                assert(s =~= t.push(s.last()));
            } else {
                assert(join_words(rest) == join_words(rest.drop_last()) + seq![' '] + rest.last());
                assert(s =~= t.push(s.last()));
                assert(ws.len() == rest.len());
                assert(join_words(ws) == join_words(ws.drop_last()) + seq![' '] + ws.last());
                assert(t.push(s.last()) =~= join_words(rest.drop_last()) + seq![' '] + rest.last().push(
                    s.last(),
                ));
            }
        }
    }
}

/// Each shorter line of words `ws` is the joined words up to a space.
proof fn lemma_shorter_lines_cut_at_space(ws: Seq<Seq<char>>)
    ensures
        forall|i: int|
            0 <= i < shorter_lines(ws).len() ==> {
                let c = #[trigger] shorter_lines(ws)[i];
                &&& c.len() < join_words(ws).len()
                &&& join_words(ws).subrange(0, c.len() as int) == c
                &&& join_words(ws)[c.len() as int] == ' '
            },
    decreases ws.len(),
{
    if ws.len() > 0 {
        let d = ws.drop_last();
        lemma_shorter_lines_cut_at_space(d);
        let c0 = join_words(d);
        if c0.len() > 0 {
            assert(ws.len() >= 2) by {
                if ws.len() == 1 {
                    assert(d.len() == 0);
                }
            }
            let full = join_words(ws);
            assert(full == c0 + seq![' '] + ws.last());
            assert forall|i: int| 0 <= i < shorter_lines(ws).len() implies {
                let c = #[trigger] shorter_lines(ws)[i];
                &&& c.len() < full.len()
                &&& full.subrange(0, c.len() as int) == c
                &&& full[c.len() as int] == ' '
            } by {
                let c = shorter_lines(ws)[i];
                if i == 0 {
                    assert(c == c0);
                    assert(full.subrange(0, c.len() as int) =~= c);
                } else {
                    assert(c == shorter_lines(d)[i - 1]);
                    assert(c.len() < c0.len());
                    assert(c0.subrange(0, c.len() as int) == c);
                    assert(full.subrange(0, c.len() as int) =~= c0.subrange(0, c.len() as int));
                    assert(full[c.len() as int] == c0[c.len() as int]);
                }
            }
        }
    }
}

/// Each suggested line is the line cut just before one of its spaces: the
/// suggestions only ever drop trailing words.
pub proof fn lemma_suggestions_drop_words(line: Seq<char>)
    ensures
        forall|i: int|
            0 <= i < shorter_lines(split_on(line, ' ')).len() ==> {
                let c = #[trigger] shorter_lines(split_on(line, ' '))[i];
                &&& c.len() < line.len()
                &&& line.subrange(0, c.len() as int) == c
                &&& line[c.len() as int] == ' '
            },
{
    lemma_join_split(line);
    lemma_shorter_lines_cut_at_space(split_on(line, ' '));
}

} // verus!

verus! {

/// A message line may take the screen width less 36 pixels of padding, and
/// less 168 pixels more where the message shows a face; a description line
/// may take the screen width less 48 pixels.
pub proof fn lemma_target_widths(game_width: u16)
    ensures
        message_width_spec(game_width, false) == game_width - 36,
        message_width_spec(game_width, true) == game_width - 204,
        game_width - 2 * (MESSAGE_STANDARD_PADDING + TEXT_PADDING) == game_width - 48,
{
}

proof fn lemma_width_after_prefix(ps: Seq<Plugin>, p: Plugin, n: int)
    requires
        0 <= n <= ps.len(),
    ensures
        width_after(ps.push(p), n) == width_after(ps, n),
    decreases n,
{
    if n > 0 {
        lemma_width_after_prefix(ps, p, n - 1);
        assert(ps.push(p)[n - 1] == ps[n - 1]);
    }
}

/// The screen width without screen plugins is 816 pixels; a plugin other than
/// `Community_Basic` and `YEP_CoreEngine` changes nothing, and the last
/// screen plugin with a width decides it.
pub proof fn lemma_screen_width_laws(ps: Seq<Plugin>, p: Plugin)
    ensures
        screen_width_spec(seq![]) == Ok::<u16, ScreenWidthError>(816),
        p.name@ != "Community_Basic"@ && p.name@ != "YEP_CoreEngine"@ ==> screen_width_spec(
            ps.push(p),
        ) == screen_width_spec(ps),
        width_after(ps, ps.len() as int) is Ok ==> (plugin_width(p, ps.len() as usize) matches Ok(
            Some(w),
        ) ==> screen_width_spec(ps.push(p)) == Ok::<u16, ScreenWidthError>(w)),
{
    lemma_width_after_prefix(ps, p, ps.len() as int);
    assert(ps.push(p)[ps.len() as int] == p);
}

} // verus!
