//! Decoding a whole list of event commands: continuation commands extend the
//! command before them instead of standing alone.
use crate::code;
use crate::command::{read_string, str_at, texts, Command, CommandView};
use crate::command_decode::{decode_command, decode_event_command, readable};
use crate::json::{json_views, lemma_json_views, JsonView};
use crate::types::{
    decode_move_command, decode_move_command_exec, move_command_eq, EventCommand,
    EventCommandView, MoveCommandView,
};
use vstd::prelude::*;

verus! {

/// The commands decoded so far, each with its indent, and how many commands
/// of the last movement route have been repeated after it.
pub struct ListState {
    pub commands: Seq<(u16, CommandView)>,
    pub move_index: nat,
}

/// Whether an event command with `code` adds a line to the command `last`.
pub open spec fn continues_with_line(last: CommandView, code: u32) -> bool {
    ||| code == code::TEXT_DATA && last is ShowText
    ||| code == code::SHOW_SCROLLING_TEXT_EXTRA && last is ShowScrollingText
    ||| code == code::SCRIPT_EXTRA && last is Script
}

/// The commands of the route of a movement-route command.
pub open spec fn route_list(c: CommandView) -> Seq<MoveCommandView> {
    match c {
        CommandView::SetMovementRoute { route, .. } => route.list,
        _ => seq![],
    }
}

/// Whether an event command with `code` repeats the next command of the route
/// of `last`.
pub open spec fn continues_route(last: CommandView, code: u32, move_index: nat) -> bool {
    code == code::SET_MOVEMENT_ROUTE_EXTRA && last is SetMovementRoute && move_index < route_list(
        last,
    ).len()
}

/// The command `c` with one more line.
pub open spec fn with_line(c: CommandView, line: Seq<char>) -> CommandView {
    match c {
        CommandView::ShowText { face_name, face_index, background, position_type, lines } =>
            CommandView::ShowText {
            face_name,
            face_index,
            background,
            position_type,
            lines: lines.push(line),
        },
        CommandView::ShowScrollingText { speed, no_fast, lines } =>
            CommandView::ShowScrollingText { speed, no_fast, lines: lines.push(line) },
        CommandView::Script { lines } => CommandView::Script { lines: lines.push(line) },
        _ => c,
    }
}

/// The state after one more event command, where it decodes.
pub open spec fn step(s: ListState, e: EventCommandView) -> Option<ListState> {
    let n = s.commands.len();
    let p = e.parameters;
    if n > 0 && continues_with_line(s.commands[n - 1].1, e.code) {
        if p.len() == 1 {
            match str_at(p, 0) {
                Some(line) => Some(
                    ListState {
                        commands: s.commands.update(
                            n - 1,
                            (s.commands[n - 1].0, with_line(s.commands[n - 1].1, line)),
                        ),
                        move_index: s.move_index,
                    },
                ),
                None => None,
            }
        } else {
            None
        }
    } else if n > 0 && continues_route(s.commands[n - 1].1, e.code, s.move_index) {
        if p.len() == 1 && decode_move_command(p[0]) == Some(
            route_list(s.commands[n - 1].1)[s.move_index as int],
        ) {
            Some(ListState { commands: s.commands, move_index: s.move_index + 1 })
        } else {
            None
        }
    } else {
        match decode_command(e.code, p) {
            Some(c) => Some(
                ListState {
                    commands: s.commands.push((e.indent, c)),
                    move_index: if e.code == code::SET_MOVEMENT_ROUTE {
                        0
                    } else {
                        s.move_index
                    },
                },
            ),
            None => None,
        }
    }
}

/// The state after a list of event commands, or the index of the first one
/// that does not decode.
pub open spec fn parse_list(es: Seq<EventCommandView>) -> Result<ListState, nat>
    decreases es.len(),
{
    if es.len() == 0 {
        Ok(ListState { commands: seq![], move_index: 0 })
    } else {
        match parse_list(es.drop_last()) {
            Ok(s) => match step(s, es.last()) {
                Some(t) => Ok(t),
                None => Err((es.len() - 1) as nat),
            },
            Err(i) => Err(i),
        }
    }
}

/// Once a prefix of the list fails to decode, so does the whole list, at the
/// same index.
proof fn lemma_err_extends(es: Seq<EventCommandView>, k: int, j: nat)
    requires
        0 <= k <= es.len(),
        parse_list(es.take(k)) == Err::<ListState, nat>(j),
    ensures
        parse_list(es) == Err::<ListState, nat>(j),
    decreases es.len() - k,
{
    if k == es.len() {
        assert(es.take(k) =~= es);
    } else {
        let next = es.take(k + 1);
        assert(next.drop_last() =~= es.take(k));
        lemma_err_extends(es, k + 1, j);
    }
}

/// A list whose prefix of `i` commands decodes, and whose next command does
/// not, fails at `i`.
proof fn lemma_fail_at(es: Seq<EventCommandView>, i: int)
    requires
        0 <= i < es.len(),
        parse_list(es.take(i)) is Ok,
        step(parse_list(es.take(i))->Ok_0, es[i]) is None,
    ensures
        parse_list(es) == Err::<ListState, nat>(i as nat),
{
    let next = es.take(i + 1);
    assert(next.drop_last() =~= es.take(i));
    assert(next.last() == es[i]);
    lemma_err_extends(es, i + 1, i as nat);
}

/// Whether every event command that decoding reaches can be read: one that
/// cannot be read only stands after a command that does not decode.
pub open spec fn list_readable(es: Seq<EventCommandView>) -> bool {
    forall|i: int|
        0 <= i < es.len() && #[trigger] parse_list(es.take(i)) is Ok ==> readable(
            es[i].code,
            es[i].parameters,
        )
}

/// The abstract values of a list of event commands.
pub open spec fn event_views(list: Seq<EventCommand>) -> Seq<EventCommandView> {
    list.map_values(|e: EventCommand| e@)
}

/// The abstract values of a list of commands with their indents.
pub open spec fn command_views(v: Seq<(u16, Command)>) -> Seq<(u16, CommandView)> {
    v.map_values(|x: (u16, Command)| (x.0, x.1@))
}

/// The event command that did not decode: its index in the list and its code.
#[derive(Debug, Clone, Copy, PartialEq, Eq)]
pub struct CommandListError {
    pub index: usize,
    pub code: u32,
}

/// Whether `code` adds a line to the command `last`.
fn takes_line(last: &Command, code: u32) -> (r: bool)
    ensures
        r == continues_with_line(last@, code),
{
    match last {
        Command::ShowText { .. } => code == code::TEXT_DATA,
        Command::ShowScrollingText { .. } => code == code::SHOW_SCROLLING_TEXT_EXTRA,
        Command::Script { .. } => code == code::SCRIPT_EXTRA,
        _ => false,
    }
}

/// Whether `code` repeats the next command of the route of `last`.
fn takes_route_step(last: &Command, code: u32, move_index: usize) -> (r: bool)
    ensures
        r == continues_route(last@, code, move_index as nat),
        r ==> move_index < usize::MAX,
{
    match last {
        Command::SetMovementRoute { route, .. } => {
            assert(route_list(last@) == route@.list);
            code == code::SET_MOVEMENT_ROUTE_EXTRA && move_index < route.list.len()
        },
        _ => false,
    }
}

/// The command `c` with one more line.
fn add_line(c: Command, line: String) -> (r: Command)
    ensures
        r@ == with_line(c@, line@),
{
    match c {
        Command::ShowText { face_name, face_index, background, position_type, mut lines } => {
            let ghost old_lines = lines@;
            lines.push(line);
            assert(texts(lines@) =~= texts(old_lines).push(line@));
            Command::ShowText { face_name, face_index, background, position_type, lines }
        },
        Command::ShowScrollingText { speed, no_fast, mut lines } => {
            let ghost old_lines = lines@;
            lines.push(line);
            assert(texts(lines@) =~= texts(old_lines).push(line@));
            Command::ShowScrollingText { speed, no_fast, lines }
        },
        Command::Script { mut lines } => {
            let ghost old_lines = lines@;
            lines.push(line);
            assert(texts(lines@) =~= texts(old_lines).push(line@));
            Command::Script { lines }
        },
        other => other,
    }
}

/// Whether the move command decoded from `p` is the next command of the route
/// of `last`.
fn matches_route_step(last: &Command, e: &EventCommand, move_index: usize) -> (r: bool)
    requires
        continues_route(last@, e@.code, move_index as nat),
    ensures
        r == (e@.parameters.len() == 1 && decode_move_command(e@.parameters[0]) == Some(
            route_list(last@)[move_index as int],
        )),
{
    proof {
        lemma_json_views(e.parameters@);
    }
    if e.parameters.len() != 1 {
        return false;
    }
    let mc = match decode_move_command_exec(&e.parameters[0]) {
        Some(mc) => mc,
        None => return false,
    };
    match last {
        Command::SetMovementRoute { route, .. } => {
            assert(route@.list[move_index as int] == route.list@[move_index as int]@);
            move_command_eq(&mc, &route.list[move_index])
        },
        _ => false,
    }
}

/// Applies one event command to the commands decoded so far; `false` where
/// it does not decode.
fn apply_step(ret: &mut Vec<(u16, Command)>, move_index: &mut usize, e: &EventCommand) -> (ok:
    bool)
    requires
        readable(e@.code, e@.parameters),
    ensures
        ({
            let s = ListState {
                commands: command_views(old(ret)@),
                move_index: *old(move_index) as nat,
            };
            &&& ok == step(s, e@) is Some
            &&& ok ==> step(s, e@) == Some(
                ListState {
                    commands: command_views(final(ret)@),
                    move_index: *final(move_index) as nat,
                },
            )
        }),
{
    let ghost s = ListState { commands: command_views(ret@), move_index: *move_index as nat };
    let n = ret.len();
    let line = n > 0 && takes_line(&ret[n - 1].1, e.code);
    if line {
        proof {
            lemma_json_views(e.parameters@);
        }
        if e.parameters.len() != 1 {
            return false;
        }
        let text = match read_string(&e.parameters, 0) {
            Some(t) => t,
            None => {
                return false;
            },
        };
        let (indent, last) = ret.pop().unwrap();
        let updated = add_line(last, text);
        ret.push((indent, updated));
        assert(command_views(ret@) =~= s.commands.update(
            n - 1,
            (s.commands[n - 1].0, with_line(s.commands[n - 1].1, text@)),
        ));
        true
    } else {
        let route = n > 0 && takes_route_step(&ret[n - 1].1, e.code, *move_index);
        if route {
            if !matches_route_step(&ret[n - 1].1, e, *move_index) {
                return false;
            }
            *move_index = *move_index + 1;
            true
        } else {
            let c = match decode_event_command(e) {
                Some(c) => c,
                None => {
                    return false;
                },
            };
            let is_route = e.code == code::SET_MOVEMENT_ROUTE;
            ret.push((e.indent, c));
            assert(command_views(ret@) =~= s.commands.push((e@.indent, c@)));
            if is_route {
                *move_index = 0;
            }
            true
        }
    }
}

/// Decodes a list of event commands into commands, each with its indent.
/// A text line after a text, a scrolling text or a script is added to it; a
/// repeat of the next command of a movement route is checked against the
/// route and dropped. The error gives the first event command that does not
/// decode.
pub fn parse_event_command_list(list: &Vec<EventCommand>) -> (r: Result<
    Vec<(u16, Command)>,
    CommandListError,
>)
    requires
        list_readable(event_views(list@)),
    ensures
        match r {
            Ok(v) => parse_list(event_views(list@)) matches Ok(s) && s.commands == command_views(
                v@,
            ),
            Err(e) => parse_list(event_views(list@)) == Err::<ListState, nat>(e.index as nat)
                && e.index < list@.len() && e.code == list@[e.index as int].code,
        },
{
    let ghost views = event_views(list@);
    let mut ret: Vec<(u16, Command)> = Vec::new();
    let mut move_index: usize = 0;
    let mut i: usize = 0;
    assert(views.take(0) =~= seq![]);
    assert(command_views(ret@) =~= seq![]);
    while i < list.len()
        invariant
            i <= list@.len(),
            views == event_views(list@),
            list_readable(views),
            parse_list(views.take(i as int)) == Ok::<ListState, nat>(
                ListState { commands: command_views(ret@), move_index: move_index as nat },
            ),
        decreases list@.len() - i,
    {
        let e = &list[i];
        let ghost prefix = views.take(i + 1);
        assert(prefix.drop_last() =~= views.take(i as int));
        assert(prefix.last() == e@);
        assert(views[i as int] == e@);
        if !apply_step(&mut ret, &mut move_index, e) {
            proof {
                lemma_fail_at(views, i as int);
            }
            return Err(CommandListError { index: i, code: e.code });
        }
        i = i + 1;
    }
    assert(views.take(list@.len() as int) =~= views);
    Ok(ret)
}

/// Decoding never yields more commands than there are event commands, and
/// each command keeps the indent of an event command of the list.
pub proof fn lemma_parse_list_bounds(es: Seq<EventCommandView>)
    ensures
        parse_list(es) matches Ok(s) ==> s.commands.len() <= es.len() && forall|i: int|
            0 <= i < s.commands.len() ==> exists|j: int|
                0 <= j < es.len() && #[trigger] s.commands[i].0 == es[j].indent,
    decreases es.len(),
{
    if es.len() > 0 {
        let prefix = es.drop_last();
        lemma_parse_list_bounds(prefix);
        if let Ok(s) = parse_list(es) {
            let t = parse_list(prefix)->Ok_0;
            assert forall|i: int| 0 <= i < s.commands.len() implies exists|j: int|
                0 <= j < es.len() && #[trigger] s.commands[i].0 == es[j].indent by {
                if i < t.commands.len() {
                    let j = choose|j: int|
                        0 <= j < prefix.len() && #[trigger] t.commands[i].0 == prefix[j].indent;
                    assert(es[j] == prefix[j]);
                    assert(s.commands[i].0 == t.commands[i].0) by {
                        let n = t.commands.len();
                        if n > 0 && continues_with_line(t.commands[n - 1].1, es.last().code) {
                        }
                    }
                } else {
                    assert(s.commands[i].0 == es.last().indent);
                    assert(es[es.len() - 1] == es.last());
                }
            }
        }
    }
}

} // verus!

verus! {

/// A list of one event command decodes to the command it stands for, at its
/// indent, and fails at index 0 where it stands for none.
pub proof fn lemma_single_command_list(e: EventCommandView)
    ensures
        match decode_command(e.code, e.parameters) {
            Some(c) => parse_list(seq![e]) == Ok::<ListState, nat>(
                ListState { commands: seq![(e.indent, c)], move_index: 0 },
            ),
            None => parse_list(seq![e]) == Err::<ListState, nat>(0),
        },
{
    assert(seq![e].drop_last() =~= Seq::<EventCommandView>::empty());
    let s = ListState { commands: seq![], move_index: 0 };
    assert(parse_list(Seq::<EventCommandView>::empty()) == Ok::<ListState, nat>(s));
    if let Some(c) = decode_command(e.code, e.parameters) {
        assert(s.commands.push((e.indent, c)) =~= seq![(e.indent, c)]);
    }
}

/// A text line after a message adds the line to the message: a Show Text
/// command followed by a Text Data command (401) whose one parameter is the
/// string `t` decodes to the message with `t` as its last line.
pub proof fn lemma_text_line_joins_message(show: EventCommandView, line: EventCommandView, t: Seq<char>)
    requires
        decode_command(show.code, show.parameters) matches Some(CommandView::ShowText { .. }),
        line.code == 401,
        line.parameters == seq![JsonView::Str(t)],
    ensures
        match decode_command(show.code, show.parameters) {
            Some(CommandView::ShowText { face_name, face_index, background, position_type, lines }) =>
                parse_list(seq![show, line]) matches Ok(s) && s.commands == seq![
                (
                    show.indent,
                    CommandView::ShowText {
                        face_name,
                        face_index,
                        background,
                        position_type,
                        lines: lines.push(t),
                    },
                ),
            ],
            _ => false,
        },
{
    lemma_single_command_list(show);
    let es = seq![show, line];
    assert(es.drop_last() =~= seq![show]);
    assert(es.last() == line);
    let c = decode_command(show.code, show.parameters)->0;
    let s0 = ListState { commands: seq![(show.indent, c)], move_index: 0 };
    assert(continues_with_line(c, 401));
    assert(str_at(line.parameters, 0) == Some(t));
    let s1 = step(s0, line)->0;
    assert(s1.commands =~= s0.commands.update(0, (show.indent, with_line(c, t))));
}

} // verus!
