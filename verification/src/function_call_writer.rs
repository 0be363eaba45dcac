//! Writing a Python function call with named arguments, on one line or with
//! one argument per line.
use crate::decimal::{int_text, nat_text, push_i64, push_u64};
use crate::json::{json_views, JsonValue, JsonView};
use crate::text::{push_char, push_str};
use crate::types::{AudioFile, AudioFileView, MoveCommandView, MoveRoute, MoveRouteView};
use vstd::prelude::*;

verus! {

/// `n` tab characters.
pub open spec fn tabs(n: int) -> Seq<char>
    decreases n,
{
    if n <= 0 {
        seq![]
    } else {
        tabs(n - 1).push('\t')
    }
}

/// `s` with each `'` escaped by a backslash.
pub open spec fn escape(s: Seq<char>) -> Seq<char>
    decreases s.len(),
{
    if s.len() == 0 {
        seq![]
    } else if s.last() == '\'' {
        escape(s.drop_last()) + seq!['\\', '\'']
    } else {
        escape(s.drop_last()).push(s.last())
    }
}

/// A Python string literal in single quotes.
pub open spec fn quoted(s: Seq<char>) -> Seq<char> {
    seq!['\''] + escape(s) + seq!['\'']
}

/// A Python boolean.
pub open spec fn bool_text(b: bool) -> Seq<char> {
    if b {
        "True"@
    } else {
        "False"@
    }
}

/// The beginning of a call: the indent, the function's name and `(`.
pub open spec fn call_open(indent: int, name: Seq<char>) -> Seq<char> {
    tabs(indent) + name + seq!['(']
}

/// One argument of a call: a comma after an earlier argument, a new line in
/// a multi-line call, then `name=value`.
pub open spec fn param_piece(
    has_params: bool,
    multiline: bool,
    indent: int,
    name: Seq<char>,
    value: Seq<char>,
) -> Seq<char> {
    (if has_params {
        seq![',']
    } else {
        seq![]
    }) + (if multiline {
        seq!['\n'] + tabs(indent + 1)
    } else {
        seq![]
    }) + name + seq!['='] + value
}

/// The end of a call: a multi-line call with arguments ends with a comma and
/// its own line; then `)` and a new line.
pub open spec fn call_close(has_params: bool, multiline: bool, indent: int) -> Seq<char> {
    (if has_params && multiline {
        seq![',', '\n'] + tabs(indent)
    } else {
        seq![]
    }) + seq![')', '\n']
}

/// The items of a list of strings, one per line.
pub open spec fn list_entries(indent: int, items: Seq<Seq<char>>) -> Seq<char>
    decreases items.len(),
{
    if items.len() == 0 {
        seq![]
    } else {
        list_entries(indent, items.drop_last()) + tabs(indent + 1) + quoted(items.last()) + seq![
            ',',
            '\n',
        ]
    }
}

/// A list of strings as an argument value.
pub open spec fn list_text(indent: int, items: Seq<Seq<char>>) -> Seq<char> {
    seq!['[', '\n'] + list_entries(indent, items) + tabs(indent) + seq![']']
}

/// One `key=value,` line of a multi-line value.
pub open spec fn field_line(indent: int, key: Seq<char>, value: Seq<char>) -> Seq<char> {
    tabs(indent) + key + value + seq![',', '\n']
}

/// An audio file as an argument value.
pub open spec fn audio_value_text(indent: int, a: AudioFileView) -> Seq<char> {
    "AudioFile(\n"@ + field_line(indent + 1, "name="@, quoted(a.name)) + field_line(
        indent + 1,
        "pan="@,
        nat_text(a.pan as nat),
    ) + field_line(indent + 1, "pitch="@, nat_text(a.pitch as nat)) + field_line(
        indent + 1,
        "volume="@,
        nat_text(a.volume as nat),
    ) + tabs(indent) + seq![')']
}

/// The text of a JSON string as the `Debug` rendering of strings gives it:
/// in double quotes, with quotes, backslashes, tabs, returns, new lines and
/// NUL characters escaped.
pub open spec fn debug_str_chars(s: Seq<char>) -> Seq<char>
    decreases s.len(),
{
    if s.len() == 0 {
        seq![]
    } else {
        debug_str_chars(s.drop_last()) + debug_char(s.last())
    }
}

/// One character of a string in the `Debug` rendering.
pub open spec fn debug_char(c: char) -> Seq<char> {
    if c == '"' {
        seq!['\\', '"']
    } else if c == '\\' {
        seq!['\\', '\\']
    } else if c == '\n' {
        seq!['\\', 'n']
    } else if c == '\r' {
        seq!['\\', 'r']
    } else if c == '\t' {
        seq!['\\', 't']
    } else if c == '\0' {
        seq!['\\', '0']
    } else {
        seq![c]
    }
}

/// A JSON value in the `Debug` rendering of JSON values.
pub open spec fn json_debug_text(v: JsonView) -> Seq<char>
    decreases v, 1int,
{
    match v {
        JsonView::Null => "Null"@,
        JsonView::Bool(b) => "Bool("@ + (if b {
            "true"@
        } else {
            "false"@
        }) + seq![')'],
        JsonView::Int(i) => "Number("@ + int_text(i as int) + seq![')'],
        JsonView::UInt(u) => "Number("@ + nat_text(u as nat) + seq![')'],
        JsonView::Float(t) => "Number("@ + t + seq![')'],
        JsonView::Str(s) => "String("@ + seq!['"'] + debug_str_chars(s) + seq!['"', ')'],
        JsonView::Array(a) => "Array "@ + seq!['['] + json_items_debug(a) + seq![']'],
        JsonView::Object(o) => "Object "@ + seq!['{'] + json_entries_debug(o) + seq!['}'],
    }
}

/// A list of JSON values in the `Debug` rendering of lists: `[a, b]`.
pub open spec fn json_list_debug(a: Seq<JsonView>) -> Seq<char> {
    seq!['['] + json_items_debug(a) + seq![']']
}

/// The items of a list of JSON values, separated by `, `.
pub open spec fn json_items_debug(a: Seq<JsonView>) -> Seq<char>
    decreases a, 0int,
{
    if a.len() == 0 {
        seq![]
    } else {
        json_items_debug(a.drop_last()) + (if a.len() > 1 {
            seq![',', ' ']
        } else {
            seq![]
        }) + json_debug_text(a.last())
    }
}

/// The entries of a JSON object, as `"key": value`, separated by `, `.
pub open spec fn json_entries_debug(o: Seq<(Seq<char>, JsonView)>) -> Seq<char>
    decreases o, 0int,
{
    if o.len() == 0 {
        seq![]
    } else {
        json_entries_debug(o.drop_last()) + (if o.len() > 1 {
            seq![',', ' ']
        } else {
            seq![]
        }) + seq!['"'] + debug_str_chars(o.last().0) + seq!['"', ':', ' '] + json_debug_text(
            o.last().1,
        )
    }
}

/// A command of a movement route as an argument value.
pub open spec fn move_command_text(c: MoveCommandView) -> Seq<char> {
    "MoveCommand(code="@ + nat_text(c.code as nat) + ", parameters="@ + (match c.parameters {
        Some(p) => json_list_debug(p),
        None => "None"@,
    }) + ", indent="@ + (match c.indent {
        Some(n) => nat_text(n as nat),
        None => "None"@,
    }) + seq![')']
}

/// The commands of a movement route, one per line.
pub open spec fn move_command_lines(indent: int, list: Seq<MoveCommandView>) -> Seq<char>
    decreases list.len(),
{
    if list.len() == 0 {
        seq![]
    } else {
        move_command_lines(indent, list.drop_last()) + tabs(indent + 2) + move_command_text(
            list.last(),
        ) + seq![',', '\n']
    }
}

/// A movement route as an argument value.
pub open spec fn route_value_text(indent: int, r: MoveRouteView) -> Seq<char> {
    "MoveRoute(\n"@ + field_line(indent + 1, "repeat="@, bool_text(r.repeat)) + field_line(
        indent + 1,
        "skippable="@,
        bool_text(r.skippable),
    ) + field_line(indent + 1, "wait="@, bool_text(r.wait)) + tabs(indent + 1) + "list=[\n"@
        + move_command_lines(indent, r.list) + field_line(indent + 1, seq![']'], seq![]) + tabs(
        indent,
    ) + seq![')']
}

/// Appends `n` tabs to `out`.
pub fn write_indent(out: &mut String, indent: u16)
    ensures
        final(out)@ == old(out)@ + tabs(indent as int),
{
    let mut i: u16 = 0;
    while i < indent
        invariant
            i <= indent,
            out@ == old(out)@ + tabs(i as int),
        decreases indent - i,
    {
        push_char(out, '\t');
        i = i + 1;
    }
}

/// `input` with each `'` escaped by a backslash.
pub fn escape_string(input: &str) -> (r: String)
    ensures
        r@ == escape(input@),
{
    let chars = crate::text::chars_of(input);
    let mut r = String::new();
    let mut i: usize = 0;
    while i < chars.len()
        invariant
            i <= chars@.len(),
            chars@ == input@,
            r@ == escape(input@.subrange(0, i as int)),
        decreases chars@.len() - i,
    {
        let c = chars[i];
        let ghost prefix = input@.subrange(0, i + 1);
        assert(prefix.drop_last() =~= input@.subrange(0, i as int));
        if c == '\'' {
            push_char(&mut r, '\\');
        }
        push_char(&mut r, c);
        assert(r@ =~= escape(prefix));
        i = i + 1;
    }
    assert(input@.subrange(0, chars@.len() as int) =~= input@);
    r
}

/// Appends `s` as a Python string literal in single quotes.
pub fn push_quoted(out: &mut String, s: &str)
    ensures
        final(out)@ == old(out)@ + quoted(s@),
{
    push_char(out, '\'');
    let e = escape_string(s);
    push_str(out, e.as_str());
    push_char(out, '\'');
    assert(final(out)@ =~= old(out)@ + quoted(s@));
}

/// Appends `"True"` or `"False"`.
pub fn push_bool(out: &mut String, b: bool)
    ensures
        final(out)@ == old(out)@ + bool_text(b),
{
    if b {
        push_str(out, "True");
    } else {
        push_str(out, "False");
    }
}

/// Appends a string in the `Debug` rendering of strings, quotes included.
pub fn push_debug_str(out: &mut String, s: &str)
    ensures
        final(out)@ == old(out)@ + seq!['"'] + debug_str_chars(s@) + seq!['"'],
{
    let chars = crate::text::chars_of(s);
    push_char(out, '"');
    let ghost start = out@;
    let mut i: usize = 0;
    while i < chars.len()
        invariant
            i <= chars@.len(),
            chars@ == s@,
            out@ == start + debug_str_chars(s@.subrange(0, i as int)),
        decreases chars@.len() - i,
    {
        let c = chars[i];
        let ghost prefix = s@.subrange(0, i + 1);
        assert(prefix.drop_last() =~= s@.subrange(0, i as int));
        if c == '"' {
            push_char(out, '\\');
            push_char(out, '"');
        } else if c == '\\' {
            push_char(out, '\\');
            push_char(out, '\\');
        } else if c == '\n' {
            push_char(out, '\\');
            push_char(out, 'n');
        } else if c == '\r' {
            push_char(out, '\\');
            push_char(out, 'r');
        } else if c == '\t' {
            push_char(out, '\\');
            push_char(out, 't');
        } else if c == '\0' {
            push_char(out, '\\');
            push_char(out, '0');
        } else {
            push_char(out, c);
        }
        assert(out@ =~= start + debug_str_chars(prefix));
        i = i + 1;
    }
    assert(s@.subrange(0, chars@.len() as int) =~= s@);
    push_char(out, '"');
    assert(final(out)@ =~= old(out)@ + seq!['"'] + debug_str_chars(s@) + seq!['"']);
}

/// A value that can stand as an argument of a call.
pub trait FunctionParamValue {
    /// The text of the value, for a call at `indent`.
    spec fn value_text(&self, indent: int) -> Seq<char>;

    /// How far beyond `indent` the lines of the value are indented.
    spec fn nesting(&self) -> nat;

    /// Appends the text of the value to `out`.
    fn write_param_value(&self, out: &mut String, indent: u16)
        requires
            indent + self.nesting() <= u16::MAX,
        ensures
            final(out)@ == old(out)@ + self.value_text(indent as int),
    ;
}

/// Text that stands as it is, such as a name or an expression.
pub struct Ident(pub String);

impl FunctionParamValue for Ident {
    open spec fn value_text(&self, indent: int) -> Seq<char> {
        self.0@
    }

    open spec fn nesting(&self) -> nat {
        0
    }

    fn write_param_value(&self, out: &mut String, indent: u16) {
        push_str(out, self.0.as_str());
    }
}

impl FunctionParamValue for String {
    open spec fn value_text(&self, indent: int) -> Seq<char> {
        quoted(self@)
    }

    open spec fn nesting(&self) -> nat {
        0
    }

    fn write_param_value(&self, out: &mut String, indent: u16) {
        push_quoted(out, self.as_str());
    }
}

impl FunctionParamValue for u32 {
    open spec fn value_text(&self, indent: int) -> Seq<char> {
        nat_text(*self as nat)
    }

    open spec fn nesting(&self) -> nat {
        0
    }

    fn write_param_value(&self, out: &mut String, indent: u16) {
        push_u64(out, *self as u64);
    }
}

impl FunctionParamValue for u8 {
    open spec fn value_text(&self, indent: int) -> Seq<char> {
        nat_text(*self as nat)
    }

    open spec fn nesting(&self) -> nat {
        0
    }

    fn write_param_value(&self, out: &mut String, indent: u16) {
        push_u64(out, *self as u64);
    }
}

impl FunctionParamValue for i32 {
    open spec fn value_text(&self, indent: int) -> Seq<char> {
        int_text(*self as int)
    }

    open spec fn nesting(&self) -> nat {
        0
    }

    fn write_param_value(&self, out: &mut String, indent: u16) {
        push_i64(out, *self as i64);
    }
}

impl FunctionParamValue for i64 {
    open spec fn value_text(&self, indent: int) -> Seq<char> {
        int_text(*self as int)
    }

    open spec fn nesting(&self) -> nat {
        0
    }

    fn write_param_value(&self, out: &mut String, indent: u16) {
        push_i64(out, *self);
    }
}

impl FunctionParamValue for bool {
    open spec fn value_text(&self, indent: int) -> Seq<char> {
        bool_text(*self)
    }

    open spec fn nesting(&self) -> nat {
        0
    }

    fn write_param_value(&self, out: &mut String, indent: u16) {
        push_bool(out, *self);
    }
}

impl FunctionParamValue for Vec<String> {
    open spec fn value_text(&self, indent: int) -> Seq<char> {
        list_text(indent, self@.map_values(|s: String| s@))
    }

    open spec fn nesting(&self) -> nat {
        if self@.len() > 0 {
            1
        } else {
            0
        }
    }

    fn write_param_value(&self, out: &mut String, indent: u16) {
        let ghost items = self@.map_values(|s: String| s@);
        push_char(out, '[');
        push_char(out, '\n');
        let ghost start = out@;
        let mut i: usize = 0;
        while i < self.len()
            invariant
                i <= self@.len(),
                self@.len() > 0 ==> indent < u16::MAX,
                items == self@.map_values(|s: String| s@),
                out@ == start + list_entries(indent as int, items.subrange(0, i as int)),
            decreases self@.len() - i,
        {
            let ghost prefix = items.subrange(0, i + 1);
            assert(prefix.drop_last() =~= items.subrange(0, i as int));
            assert(prefix.last() == self@[i as int]@);
            write_indent(out, indent + 1);
            push_quoted(out, self[i].as_str());
            push_char(out, ',');
            push_char(out, '\n');
            assert(out@ =~= start + list_entries(indent as int, prefix));
            i = i + 1;
        }
        assert(items.subrange(0, self@.len() as int) =~= items);
        write_indent(out, indent);
        push_char(out, ']');
        assert(final(out)@ =~= old(out)@ + list_text(indent as int, items));
    }
}

/// Appends the start of a `key=value,` line: the indent and the key.
fn push_key(out: &mut String, indent: u16, key: &str)
    ensures
        final(out)@ == old(out)@ + tabs(indent as int) + key@,
{
    write_indent(out, indent);
    push_str(out, key);
}

/// Appends the end of a `key=value,` line.
fn push_line_end(out: &mut String)
    ensures
        final(out)@ == old(out)@ + seq![',', '\n'],
{
    push_char(out, ',');
    push_char(out, '\n');
    assert(final(out)@ =~= old(out)@ + seq![',', '\n']);
}

/// Appends a `key=number,` line.
fn push_number_line(out: &mut String, indent: u16, key: &str, n: u64)
    ensures
        final(out)@ == old(out)@ + field_line(indent as int, key@, nat_text(n as nat)),
{
    push_key(out, indent, key);
    push_u64(out, n);
    push_line_end(out);
    assert(final(out)@ =~= old(out)@ + field_line(indent as int, key@, nat_text(n as nat)));
}

/// Appends a `key=True,` or `key=False,` line.
fn push_bool_line(out: &mut String, indent: u16, key: &str, b: bool)
    ensures
        final(out)@ == old(out)@ + field_line(indent as int, key@, bool_text(b)),
{
    push_key(out, indent, key);
    push_bool(out, b);
    push_line_end(out);
    assert(final(out)@ =~= old(out)@ + field_line(indent as int, key@, bool_text(b)));
}

/// Appends a `key='text',` line.
fn push_quoted_line(out: &mut String, indent: u16, key: &str, text: &str)
    ensures
        final(out)@ == old(out)@ + field_line(indent as int, key@, quoted(text@)),
{
    push_key(out, indent, key);
    push_quoted(out, text);
    push_line_end(out);
    assert(final(out)@ =~= old(out)@ + field_line(indent as int, key@, quoted(text@)));
}

impl FunctionParamValue for AudioFile {
    open spec fn value_text(&self, indent: int) -> Seq<char> {
        audio_value_text(indent, self@)
    }

    open spec fn nesting(&self) -> nat {
        1
    }

    fn write_param_value(&self, out: &mut String, indent: u16) {
        let ghost s0 = out@;
        push_str(out, "AudioFile(\n");
        let ghost s1 = out@;
        push_quoted_line(out, indent + 1, "name=", self.name.as_str());
        let ghost s2 = out@;
        push_number_line(out, indent + 1, "pan=", self.pan as u64);
        let ghost s3 = out@;
        push_number_line(out, indent + 1, "pitch=", self.pitch as u64);
        let ghost s4 = out@;
        push_number_line(out, indent + 1, "volume=", self.volume as u64);
        let ghost s5 = out@;
        write_indent(out, indent);
        push_char(out, ')');
        assert(out@ =~= s5 + tabs(indent as int) + seq![')']);
        assert(final(out)@ =~= old(out)@ + audio_value_text(indent as int, self@));
    }
}

/// Appends a JSON value in the `Debug` rendering of JSON values.
pub fn push_json_debug(out: &mut String, v: &JsonValue)
    ensures
        final(out)@ == old(out)@ + json_debug_text(v@),
    decreases v,
{
    match v {
        JsonValue::Null => push_str(out, "Null"),
        JsonValue::Bool(b) => {
            push_str(out, "Bool(");
            if *b {
                push_str(out, "true");
            } else {
                push_str(out, "false");
            }
            push_char(out, ')');
        },
        JsonValue::Int(i) => {
            push_str(out, "Number(");
            push_i64(out, *i);
            push_char(out, ')');
        },
        JsonValue::UInt(u) => {
            push_str(out, "Number(");
            push_u64(out, *u);
            push_char(out, ')');
        },
        JsonValue::Float { text } => {
            push_str(out, "Number(");
            push_str(out, text.as_str());
            push_char(out, ')');
        },
        JsonValue::String(s) => {
            push_str(out, "String(");
            push_debug_str(out, s.as_str());
            push_char(out, ')');
        },
        JsonValue::Array(a) => {
            push_str(out, "Array ");
            assert(decreases_to!(v => a));
            push_json_list_debug(out, a);
        },
        JsonValue::Object(o) => {
            push_str(out, "Object ");
            push_char(out, '{');
            let ghost start = out@;
            let ghost views = crate::json::entry_views(o@);
            proof {
                crate::json::lemma_entry_views(o@);
            }
            assert(decreases_to!(v => o));
            let mut i: usize = 0;
            while i < o.len()
                invariant
                    i <= o@.len(),
                    decreases_to!(v => o),
                    views == crate::json::entry_views(o@),
                    views.len() == o@.len(),
                    forall|j: int|
                        0 <= j < o@.len() ==> #[trigger] views[j] == (
                            o@[j].0@,
                            crate::json::json_view(o@[j].1),
                        ),
                    out@ == start + json_entries_debug(views.subrange(0, i as int)),
                decreases o@.len() - i,
            {
                let ghost prefix = views.subrange(0, i + 1);
                assert(prefix.drop_last() =~= views.subrange(0, i as int));
                assert(prefix.last() == views[i as int]);
                if i > 0 {
                    push_char(out, ',');
                    push_char(out, ' ');
                }
                push_debug_str(out, o[i].0.as_str());
                push_char(out, ':');
                push_char(out, ' ');
                assert(decreases_to!(o => o@));
                assert(decreases_to!(o@ => o@[i as int]));
                assert(decreases_to!(o@[i as int] => o@[i as int].1));
                push_json_debug(out, &o[i].1);
                assert(out@ =~= start + json_entries_debug(prefix));
                i = i + 1;
            }
            assert(views.subrange(0, o@.len() as int) =~= views);
            push_char(out, '}');
            assert(final(out)@ =~= old(out)@ + json_debug_text(v@));
        },
    }
}

/// Appends a list of JSON values in the `Debug` rendering of lists.
pub fn push_json_list_debug(out: &mut String, a: &Vec<JsonValue>)
    ensures
        final(out)@ == old(out)@ + json_list_debug(json_views(a@)),
    decreases a,
{
    let ghost views = json_views(a@);
    proof {
        crate::json::lemma_json_views(a@);
    }
    push_char(out, '[');
    let ghost start = out@;
    let mut i: usize = 0;
    while i < a.len()
        invariant
            i <= a@.len(),
            views == json_views(a@),
            views.len() == a@.len(),
            forall|j: int| 0 <= j < a@.len() ==> #[trigger] views[j] == a@[j]@,
            out@ == start + json_items_debug(views.subrange(0, i as int)),
        decreases a@.len() - i,
    {
        let ghost prefix = views.subrange(0, i + 1);
        assert(prefix.drop_last() =~= views.subrange(0, i as int));
        assert(prefix.last() == views[i as int]);
        if i > 0 {
            push_char(out, ',');
            push_char(out, ' ');
        }
        assert(decreases_to!(a => a@));
        assert(decreases_to!(a@ => a@[i as int]));
        push_json_debug(out, &a[i]);
        assert(out@ =~= start + json_items_debug(prefix));
        i = i + 1;
    }
    assert(views.subrange(0, a@.len() as int) =~= views);
    push_char(out, ']');
    assert(final(out)@ =~= old(out)@ + json_list_debug(views));
}

/// Appends one command of a movement route.
fn push_move_command(out: &mut String, c: &crate::types::MoveCommand)
    ensures
        final(out)@ == old(out)@ + move_command_text(c@),
{
    let ghost s0 = out@;
    push_str(out, "MoveCommand(code=");
    push_u64(out, c.code as u64);
    push_str(out, ", parameters=");
    let ghost s1 = out@;
    match &c.parameters {
        Some(p) => push_json_list_debug(out, p),
        None => push_str(out, "None"),
    }
    let ghost s2 = out@;
    push_str(out, ", indent=");
    match c.indent {
        Some(n) => push_u64(out, n as u64),
        None => push_str(out, "None"),
    }
    push_char(out, ')');
    assert(final(out)@ =~= old(out)@ + move_command_text(c@));
}

impl FunctionParamValue for MoveRoute {
    open spec fn value_text(&self, indent: int) -> Seq<char> {
        route_value_text(indent, self@)
    }

    open spec fn nesting(&self) -> nat {
        if self.list@.len() > 0 {
            2
        } else {
            1
        }
    }

    #[verifier::rlimit(40)]
    #[verifier::spinoff_prover]
    fn write_param_value(&self, out: &mut String, indent: u16) {
        push_str(out, "MoveRoute(\n");
        push_bool_line(out, indent + 1, "repeat=", self.repeat);
        push_bool_line(out, indent + 1, "skippable=", self.skippable);
        push_bool_line(out, indent + 1, "wait=", self.wait);
        push_key(out, indent + 1, "list=[\n");
        let ghost mid = out@;
        let ghost list = self@.list;
        let mut i: usize = 0;
        while i < self.list.len()
            invariant
                i <= self.list@.len(),
                self.list@.len() > 0 ==> indent + 2 <= u16::MAX,
                list == self@.list,
                list.len() == self.list@.len(),
                out@ == mid + move_command_lines(indent as int, list.subrange(0, i as int)),
            decreases self.list@.len() - i,
        {
            let ghost prefix = list.subrange(0, i + 1);
            assert(prefix.drop_last() =~= list.subrange(0, i as int));
            assert(prefix.last() == self.list@[i as int]@);
            write_indent(out, indent + 2);
            push_move_command(out, &self.list[i]);
            push_line_end(out);
            assert(out@ =~= mid + move_command_lines(indent as int, prefix));
            i = i + 1;
        }
        assert(list.subrange(0, self.list@.len() as int) =~= list);
        let ghost s6 = out@;
        push_key(out, indent + 1, "]");
        push_line_end(out);
        proof {
            reveal_strlit("]");
        }
        assert(out@ =~= s6 + field_line(indent + 1, seq![']'], seq![]));
        write_indent(out, indent);
        push_char(out, ')');
        assert(final(out)@ =~= old(out)@ + route_value_text(indent as int, self@));
    }
}

/// Writes a call: its name, then each argument, then its end.
pub struct FunctionCallWriter {
    pub text: String,
    pub indent: u16,
    pub has_params: bool,
    pub multiline: bool,
}

impl FunctionCallWriter {
    /// Starts a multi-line call of `name` at `indent`.
    pub fn new(indent: u16, name: &str) -> (w: Self)
        ensures
            w.text@ == call_open(indent as int, name@),
            w.indent == indent,
            !w.has_params,
            w.multiline,
    {
        let mut text = String::new();
        write_indent(&mut text, indent);
        push_str(&mut text, name);
        push_char(&mut text, '(');
        assert(text@ =~= call_open(indent as int, name@));
        FunctionCallWriter { text, indent, has_params: false, multiline: true }
    }

    /// Whether the arguments go on lines of their own.
    pub fn set_multiline(&mut self, multiline: bool)
        ensures
            final(self).text@ == old(self).text@,
            final(self).indent == old(self).indent,
            final(self).has_params == old(self).has_params,
            final(self).multiline == multiline,
    {
        self.multiline = multiline;
    }

    /// Writes the argument `name=param`.
    pub fn write_param<T: FunctionParamValue>(&mut self, name: &str, param: &T)
        requires
            old(self).indent + 1 + param.nesting() <= u16::MAX,
        ensures
            final(self).text@ == old(self).text@ + param_piece(
                old(self).has_params,
                old(self).multiline,
                old(self).indent as int,
                name@,
                param.value_text(old(self).indent + 1),
            ),
            final(self).indent == old(self).indent,
            final(self).has_params,
            final(self).multiline == old(self).multiline,
    {
        let ghost start = self.text@;
        if self.has_params {
            push_char(&mut self.text, ',');
        }
        if self.multiline {
            push_char(&mut self.text, '\n');
            write_indent(&mut self.text, self.indent + 1);
        }
        push_str(&mut self.text, name);
        push_char(&mut self.text, '=');
        param.write_param_value(&mut self.text, self.indent + 1);
        self.has_params = true;
        assert(self.text@ =~= start + param_piece(
            old(self).has_params,
            old(self).multiline,
            old(self).indent as int,
            name@,
            param.value_text(old(self).indent + 1),
        ));
    }

    /// Ends the call.
    pub fn finish(&mut self)
        ensures
            final(self).text@ == old(self).text@ + call_close(
                old(self).has_params,
                old(self).multiline,
                old(self).indent as int,
            ),
            final(self).indent == old(self).indent,
            final(self).has_params == old(self).has_params,
            final(self).multiline == old(self).multiline,
    {
        let ghost start = self.text@;
        if self.has_params && self.multiline {
            push_char(&mut self.text, ',');
            push_char(&mut self.text, '\n');
            write_indent(&mut self.text, self.indent);
        }
        push_char(&mut self.text, ')');
        push_char(&mut self.text, '\n');
        assert(self.text@ =~= start + call_close(
            old(self).has_params,
            old(self).multiline,
            old(self).indent as int,
        ));
    }
}

/// A quote in escaped text always follows a backslash.
pub proof fn lemma_escaped_quotes(s: Seq<char>)
    ensures
        forall|i: int|
            0 <= i < escape(s).len()
                && #[trigger] escape(s)[i] == '\'' ==> i > 0
                && escape(s)[i - 1] == '\\',
    decreases s.len(),
{
    lemma_escape_step(s);
}

/// The induction of `lemma_escaped_quotes`.
proof fn lemma_escape_step(s: Seq<char>)
    ensures
        forall|i: int|
            0 <= i < escape(s).len()
                && #[trigger] escape(s)[i] == '\'' ==> i > 0
                && escape(s)[i - 1] == '\\',
    decreases s.len(),
{
    if s.len() > 0 {
        let t = s.drop_last();
        lemma_escape_step(t);
        let e = escape(s);
        let et = escape(t);
        assert forall|i: int| 0 <= i < e.len() && #[trigger] e[i] == '\'' implies i > 0 && e[i
            - 1] == '\\' by {
            if i < et.len() {
                assert(e[i] == et[i]);
                if i > 0 {
                    assert(e[i - 1] == et[i - 1]);
                }
            } else if s.last() == '\'' {
                assert(e == et + seq!['\\', '\'']);
                if i == et.len() {
                    assert(e[i] == '\\');
                } else {
                    assert(e[i - 1] == '\\');
                }
            } else {
                assert(e == et.push(s.last()));
            }
        }
    }
}

} // verus!
