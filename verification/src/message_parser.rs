//! A parser for RPG Maker message text with text codes, such as `\C[2]`, `\G`
//! or, with YEP_MessageCore, `\n<Bob>`.
//!
//! A message is read from left to right. Plain text runs up to the next `\`.
//! After a `\`, the code name grows one character at a time; it ends
//! - at a `[`, opening the body of a text code with a body, closed by `]`;
//! - at a `<`, when YEP_MessageCore is enabled, opening a body closed by `>`;
//! - as soon as the name read so far is a known single text code.
//!
//! Code names are matched without regard to ASCII case.
use crate::text::{
    ascii_lower,
    ascii_lowercase_of,
    contains_string,
    owned,
    push_char,
    string_of,
    to_ascii_lowercase,
};
use vstd::prelude::*;

verus! {

/// A node of a parsed message.
#[derive(Debug, PartialEq, Eq)]
pub enum MessageNode {
    /// Plain text.
    Text { value: String },
    /// A text code without a body, like `\G`.
    TextCode { name: String },
    /// A text code with a body, like `\C[2]`.
    TextCodeWithBody { name: String, body: String },
    /// A YEP_MessageCore text code with a body, like `\n<Bob>`.
    YepTextCodeWithBody { name: String, body: String },
}

/// The abstract value of a node.
pub enum NodeView {
    Text(Seq<char>),
    TextCode(Seq<char>),
    TextCodeWithBody(Seq<char>, Seq<char>),
    YepTextCodeWithBody(Seq<char>, Seq<char>),
}

impl View for MessageNode {
    type V = NodeView;

    open spec fn view(&self) -> NodeView {
        match self {
            MessageNode::Text { value } => NodeView::Text(value@),
            MessageNode::TextCode { name } => NodeView::TextCode(name@),
            MessageNode::TextCodeWithBody { name, body } => NodeView::TextCodeWithBody(
                name@,
                body@,
            ),
            MessageNode::YepTextCodeWithBody { name, body } => NodeView::YepTextCodeWithBody(
                name@,
                body@,
            ),
        }
    }
}

/// Why a message could not be parsed.
#[derive(Debug, PartialEq, Eq)]
pub enum ParseError {
    /// A `[` followed a name that is not a text code with a body.
    UnknownTextCode { name: String },
    /// A `<` followed a name that is not a YEP_MessageCore text code.
    UnknownYepTextCode { name: String },
    /// The message ended right after a `\`.
    IncompleteTextCode,
    /// The message ended inside a name that is not a single text code.
    UnknownSingleTextCode { name: String },
    /// The message ended inside the body of a text code.
    UnterminatedBody,
}

/// The abstract value of a parse error.
pub enum ParseErrorView {
    UnknownTextCode(Seq<char>),
    UnknownYepTextCode(Seq<char>),
    IncompleteTextCode,
    UnknownSingleTextCode(Seq<char>),
    UnterminatedBody,
}

impl View for ParseError {
    type V = ParseErrorView;

    open spec fn view(&self) -> ParseErrorView {
        match self {
            ParseError::UnknownTextCode { name } => ParseErrorView::UnknownTextCode(name@),
            ParseError::UnknownYepTextCode { name } => ParseErrorView::UnknownYepTextCode(name@),
            ParseError::IncompleteTextCode => ParseErrorView::IncompleteTextCode,
            ParseError::UnknownSingleTextCode { name } => ParseErrorView::UnknownSingleTextCode(
                name@,
            ),
            ParseError::UnterminatedBody => ParseErrorView::UnterminatedBody,
        }
    }
}

/// The text codes a parser knows, each set lowercase.
pub struct CodeSets {
    pub single: Set<Seq<char>>,
    pub with_body: Set<Seq<char>>,
    pub yep: Set<Seq<char>>,
    pub yep_enabled: bool,
}

/// The result of parsing: the nodes, or the first error.
pub type ParseResult = Result<Seq<NodeView>, ParseErrorView>;

/// Put `nodes` in front of the nodes of `r`.
pub open spec fn prepend(nodes: Seq<NodeView>, r: ParseResult) -> ParseResult {
    match r {
        Ok(rest) => Ok(nodes + rest),
        Err(e) => Err(e),
    }
}

/// Parse plain text that began at `start`, where everything before `p` has
/// been read and held no `\`.
pub open spec fn text_run(cfg: CodeSets, chars: Seq<char>, start: int, p: int) -> ParseResult
    decreases chars.len() - p, 0int,
{
    if p >= chars.len() {
        if start < chars.len() {
            Ok(seq![NodeView::Text(chars.subrange(start, chars.len() as int))])
        } else {
            Ok(seq![])
        }
    } else if chars[p] == '\\' {
        let text = if start < p {
            seq![NodeView::Text(chars.subrange(start, p))]
        } else {
            seq![]
        };
        prepend(text, code_name(cfg, chars, p + 1, p + 1))
    } else {
        text_run(cfg, chars, start, p + 1)
    }
}

/// Parse from `p`, where nothing of the current node has been read yet.
pub open spec fn parse_from(cfg: CodeSets, chars: Seq<char>, p: int) -> ParseResult
    decreases chars.len() - p, 1int,
{
    if p >= chars.len() {
        Ok(seq![])
    } else {
        text_run(cfg, chars, p, p)
    }
}

/// Parse a code name that began at `start`, where `chars[start..k]` has been read.
pub open spec fn code_name(cfg: CodeSets, chars: Seq<char>, start: int, k: int) -> ParseResult
    decreases chars.len() - k, 2int,
{
    if k >= chars.len() {
        if start >= chars.len() {
            Err(ParseErrorView::IncompleteTextCode)
        } else {
            let name = chars.subrange(start, chars.len() as int);
            if cfg.single.contains(ascii_lower(name)) {
                Ok(seq![NodeView::TextCode(name)])
            } else {
                Err(ParseErrorView::UnknownSingleTextCode(name))
            }
        }
    } else {
        let name = chars.subrange(start, k);
        let c = chars[k];
        if c == '[' {
            if cfg.with_body.contains(ascii_lower(name)) {
                code_body(cfg, chars, name, false, k + 1, k + 1)
            } else {
                Err(ParseErrorView::UnknownTextCode(name))
            }
        } else if cfg.yep_enabled && c == '<' {
            if cfg.yep.contains(ascii_lower(name)) {
                code_body(cfg, chars, name, true, k + 1, k + 1)
            } else {
                Err(ParseErrorView::UnknownYepTextCode(name))
            }
        } else if cfg.single.contains(ascii_lower(name)) {
            prepend(seq![NodeView::TextCode(name)], text_run(cfg, chars, k, k))
        } else {
            code_name(cfg, chars, start, k + 1)
        }
    }
}

/// Parse the body of the code `name` that began at `start`, where
/// `chars[start..p]` has been read.
pub open spec fn code_body(
    cfg: CodeSets,
    chars: Seq<char>,
    name: Seq<char>,
    yep: bool,
    start: int,
    p: int,
) -> ParseResult
    decreases chars.len() - p, 3int,
{
    if p >= chars.len() {
        Err(ParseErrorView::UnterminatedBody)
    } else if chars[p] == ']' {
        prepend(
            seq![NodeView::TextCodeWithBody(name, chars.subrange(start, p))],
            parse_from(cfg, chars, p + 1),
        )
    } else if yep && chars[p] == '>' {
        prepend(
            seq![NodeView::YepTextCodeWithBody(name, chars.subrange(start, p))],
            parse_from(cfg, chars, p + 1),
        )
    } else {
        code_body(cfg, chars, name, yep, start, p + 1)
    }
}

/// What parsing the whole message `chars` gives.
pub open spec fn parse_message(cfg: CodeSets, chars: Seq<char>) -> ParseResult {
    parse_from(cfg, chars, 0)
}

/// The text that a node stands for in the message.
pub open spec fn node_text(n: NodeView) -> Seq<char> {
    match n {
        NodeView::Text(v) => v,
        NodeView::TextCode(name) => seq!['\\'] + name,
        NodeView::TextCodeWithBody(name, body) => seq!['\\'] + name + seq!['['] + body + seq![
            ']',
        ],
        NodeView::YepTextCodeWithBody(name, body) => seq!['\\'] + name + seq!['<'] + body
            + seq!['>'],
    }
}

/// The text that a sequence of nodes stands for.
pub open spec fn nodes_text(nodes: Seq<NodeView>) -> Seq<char>
    decreases nodes.len(),
{
    if nodes.len() == 0 {
        seq![]
    } else {
        node_text(nodes[0]) + nodes_text(nodes.drop_first())
    }
}

/// The parser state: which part of a node is being read, and where it began.
#[derive(Debug, Clone, Copy)]
pub enum MessageParserState {
    Normal { start_index: Option<usize> },
    TextCodeName { start_index: Option<usize> },
    TextCodeBody {
        start_index: Option<usize>,
        name_start: usize,
        name_end: usize,
        yep_message_core: bool,
    },
}

/// A message parser.
pub struct MessageParser {
    input: Vec<char>,
    position: usize,
    state: MessageParserState,
    yep_message_core: bool,
    single_text_codes: Vec<String>,
    text_codes: Vec<String>,
    yep_text_codes: Vec<String>,
}

/// The set of the texts of a list of strings.
pub open spec fn string_set(v: Seq<String>) -> Set<Seq<char>> {
    v.map_values(|s: String| s@).to_set()
}

/// The single text codes of RPG Maker MV: `g ! { } | < > c . ^`.
pub open spec fn mv_single_codes() -> Set<Seq<char>> {
    set![
        seq!['g'],
        seq!['!'],
        seq!['{'],
        seq!['}'],
        seq!['|'],
        seq!['<'],
        seq!['>'],
        seq!['c'],
        seq!['.'],
        seq!['^'],
    ]
}

/// The text codes with a body of RPG Maker MV: `c i v n`.
pub open spec fn mv_body_codes() -> Set<Seq<char>> {
    set![seq!['c'], seq!['i'], seq!['v'], seq!['n']]
}

/// The YEP_MessageCore codes with a `<..>` body: `n`.
pub open spec fn mv_yep_codes() -> Set<Seq<char>> {
    set![seq!['n']]
}

/// The single text codes of YEP_MessageCore: `fr fb fi`.
pub open spec fn yep_single_codes() -> Set<Seq<char>> {
    set![seq!['f', 'r'], seq!['f', 'b'], seq!['f', 'i']]
}

/// The text codes with a body of YEP_MessageCore: `is`.
pub open spec fn yep_body_codes() -> Set<Seq<char>> {
    set![seq!['i', 's']]
}

/// The abstract state of the parser, in terms of [`text_run`], [`code_name`] and [`code_body`]:
/// what the rest of a parse gives from here.
pub open spec fn resume(
    cfg: CodeSets,
    chars: Seq<char>,
    state: MessageParserState,
    p: int,
) -> ParseResult {
    match state {
        MessageParserState::Normal { start_index } => match start_index {
            Some(s) => text_run(cfg, chars, s as int, p),
            None => parse_from(cfg, chars, p),
        },
        MessageParserState::TextCodeName { start_index } => match start_index {
            Some(s) => code_name(cfg, chars, s as int, p),
            None => code_name(cfg, chars, p, p),
        },
        MessageParserState::TextCodeBody {
            start_index,
            name_start,
            name_end,
            yep_message_core,
        } => {
            let name = chars.subrange(name_start as int, name_end as int);
            match start_index {
                Some(s) => code_body(cfg, chars, name, yep_message_core, s as int, p),
                None => code_body(cfg, chars, name, yep_message_core, p, p),
            }
        },
    }
}

/// Well-formedness of a parser state at position `p` of `chars`.
pub open spec fn state_wf(chars: Seq<char>, state: MessageParserState, p: int) -> bool {
    &&& 0 <= p <= chars.len()
    &&& match state {
        MessageParserState::Normal { start_index } => match start_index {
            Some(s) => s <= p && s < chars.len() && (forall|i: int|
                s <= i < p ==> chars[i] != '\\'),
            None => true,
        },
        MessageParserState::TextCodeName { start_index } => match start_index {
            Some(s) => s <= p,
            None => true,
        },
        MessageParserState::TextCodeBody { start_index, name_start, name_end, .. } => {
            &&& name_start <= name_end <= chars.len()
            &&& match start_index {
                Some(s) => s <= p,
                None => true,
            }
        },
    }
}

impl MessageParser {
    /// The characters of the message.
    pub closed spec fn spec_input(&self) -> Seq<char> {
        self.input@
    }

    /// The text codes this parser knows.
    pub closed spec fn code_sets(&self) -> CodeSets {
        CodeSets {
            single: string_set(self.single_text_codes@),
            with_body: string_set(self.text_codes@),
            yep: string_set(self.yep_text_codes@),
            yep_enabled: self.yep_message_core,
        }
    }

    /// Whether nothing of the message has been parsed yet.
    pub closed spec fn is_fresh(&self) -> bool {
        self.position == 0 && self.state matches MessageParserState::Normal { start_index: None }
    }

    /// Well-formedness of the parser.
    pub closed spec fn wf(&self) -> bool {
        state_wf(self.input@, self.state, self.position as int)
    }

    /// What the rest of parsing gives from where this parser stands.
    pub closed spec fn remaining_result(&self) -> ParseResult {
        resume(self.code_sets(), self.input@, self.state, self.position as int)
    }

    /// Whether the whole message has been read.
    pub closed spec fn at_end(&self) -> bool {
        self.position == self.input@.len()
    }

    /// Make a new message parser to parse some text, which knows the RPG Maker MV text codes.
    pub fn new(input: &str) -> (p: Self)
        ensures
            p.spec_input() == input@,
            p.is_fresh(),
            p.wf(),
            p.code_sets() == (CodeSets {
                single: mv_single_codes(),
                with_body: mv_body_codes(),
                yep: mv_yep_codes(),
                yep_enabled: false,
            }),
            p.code_sets().single.contains(seq!['g']),
            p.code_sets().single.contains(seq!['!']),
            p.code_sets().single.contains(seq!['{']),
            p.code_sets().single.contains(seq!['}']),
            p.code_sets().single.contains(seq!['|']),
            p.code_sets().single.contains(seq!['<']),
            p.code_sets().single.contains(seq!['>']),
            p.code_sets().single.contains(seq!['c']),
            p.code_sets().single.contains(seq!['.']),
            p.code_sets().single.contains(seq!['^']),
            p.code_sets().with_body.contains(seq!['c']),
            p.code_sets().with_body.contains(seq!['i']),
            p.code_sets().with_body.contains(seq!['v']),
            p.code_sets().with_body.contains(seq!['n']),
    {
        let parser = MessageParser {
            input: crate::text::chars_of(input),
            position: 0,
            state: MessageParserState::Normal { start_index: None },
            yep_message_core: false,
            single_text_codes: Vec::new(),
            text_codes: Vec::new(),
            yep_text_codes: Vec::new(),
        };
        assert(string_set(parser.single_text_codes@) =~= Set::empty());
        assert(string_set(parser.text_codes@) =~= Set::empty());
        assert(string_set(parser.yep_text_codes@) =~= Set::empty());
        let p = parser.add_rpgmaker_mv_text_codes();
        assert(Set::<Seq<char>>::empty().union(mv_single_codes()) =~= mv_single_codes());
        assert(Set::<Seq<char>>::empty().union(mv_body_codes()) =~= mv_body_codes());
        assert(Set::<Seq<char>>::empty().union(mv_yep_codes()) =~= mv_yep_codes());
        p
    }

    /// Add RPG Maker MV text codes.
    ///
    /// See: https://www.yanfly.moe/wiki/Category:Text_Codes_(MV)
    pub fn add_rpgmaker_mv_text_codes(self) -> (p: Self)
        ensures
            p.spec_input() == self.spec_input(),
            p.is_fresh() == self.is_fresh(),
            p.wf() == self.wf(),
            p.remaining_result_state_eq(&self),
            p.code_sets() == (CodeSets {
                single: self.code_sets().single.union(mv_single_codes()),
                with_body: self.code_sets().with_body.union(mv_body_codes()),
                yep: self.code_sets().yep.union(mv_yep_codes()),
                yep_enabled: self.code_sets().yep_enabled,
            }),            forall|c: char|
                #![trigger p.code_sets().single.contains(seq![c])]
                c == 'g' || c == '!' || c == '{' || c == '}' || c == '|' || c == '<' || c == '>'
                    || c == 'c' || c == '.' || c == '^' ==> p.code_sets().single.contains(seq![c]),
            forall|c: char|
                #![trigger p.code_sets().with_body.contains(seq![c])]
                c == 'c' || c == 'i' || c == 'v' || c == 'n' ==> p.code_sets().with_body.contains(
                    seq![c],
                ),
            p.code_sets().yep.contains(seq!['n']),
    {
        let mut p = self;
        let ghost single0 = string_set(p.single_text_codes@);
        let ghost text0 = string_set(p.text_codes@);
        let ghost yep0 = string_set(p.yep_text_codes@);
        // Single
        push_code(&mut p.single_text_codes, "g");
        push_code(&mut p.single_text_codes, "!");
        push_code(&mut p.single_text_codes, "{");
        push_code(&mut p.single_text_codes, "}");
        push_code(&mut p.single_text_codes, "|");
        push_code(&mut p.single_text_codes, "<");
        push_code(&mut p.single_text_codes, ">");
        // \C changes the color of future text to color 0, based on window skin.
        //
        // This is actually the text code \C[n],
        // but a bug in RPG Maker makes it accept this as a single text code as well.
        push_code(&mut p.single_text_codes, "c");
        // \. waits for 1/4 second.
        push_code(&mut p.single_text_codes, ".");
        // \^ does not wait for input after showing the text.
        push_code(&mut p.single_text_codes, "^");

        // Body
        // \C[n] changes the color of future text to color n, based on window skin.
        push_code(&mut p.text_codes, "c");
        push_code(&mut p.text_codes, "i");
        push_code(&mut p.text_codes, "v");
        // \N[n] is replaced with the name of actor n.
        push_code(&mut p.text_codes, "n");

        // YEP_MessageCore
        // \n<x> creates a name box with contents x on the left side on top of the message box.
        push_code(&mut p.yep_text_codes, "n");
        proof {
            reveal_strlit("g");
            reveal_strlit("!");
            reveal_strlit("{");
            reveal_strlit("}");
            reveal_strlit("|");
            reveal_strlit("<");
            reveal_strlit(">");
            reveal_strlit("c");
            reveal_strlit(".");
            reveal_strlit("^");
            reveal_strlit("i");
            reveal_strlit("v");
            reveal_strlit("n");
            assert("g"@ =~= seq!['g']);
            assert("!"@ =~= seq!['!']);
            assert("{"@ =~= seq!['{']);
            assert("}"@ =~= seq!['}']);
            assert("|"@ =~= seq!['|']);
            assert("<"@ =~= seq!['<']);
            assert(">"@ =~= seq!['>']);
            assert("c"@ =~= seq!['c']);
            assert("."@ =~= seq!['.']);
            assert("^"@ =~= seq!['^']);
            assert("i"@ =~= seq!['i']);
            assert("v"@ =~= seq!['v']);
            assert("n"@ =~= seq!['n']);
            assert(string_set(p.single_text_codes@) =~= single0.union(mv_single_codes()));
            assert(string_set(p.text_codes@) =~= text0.union(mv_body_codes()));
            assert(string_set(p.yep_text_codes@) =~= yep0.union(mv_yep_codes()));
        }
        p
    }

    /// Whether this parser and `other` read the same message from the same place.
    pub closed spec fn remaining_result_state_eq(&self, other: &Self) -> bool {
        self.position == other.position && self.state == other.state && self.input@
            == other.input@
    }

    /// Enable support for parsing YEP_MessageCore.js messages.
    pub fn yep_message_core(self, value: bool) -> (p: Self)
        ensures
            p.spec_input() == self.spec_input(),
            p.is_fresh() == self.is_fresh(),
            p.wf() == self.wf(),
            p.remaining_result_state_eq(&self),
            p.code_sets() == (CodeSets { yep_enabled: value, ..self.code_sets() }),
    {
        let mut p = self;
        p.yep_message_core = value;
        p
    }

    /// Add YEP_MessageCore.js text codes.
    ///
    /// See: https://www.yanfly.moe/wiki/Category:Text_Codes_(MV)
    pub fn add_yep_message_core_text_codes(self) -> (p: Self)
        ensures
            p.spec_input() == self.spec_input(),
            p.is_fresh() == self.is_fresh(),
            p.wf() == self.wf(),
            p.remaining_result_state_eq(&self),
            p.code_sets() == (CodeSets {
                single: self.code_sets().single.union(yep_single_codes()),
                with_body: self.code_sets().with_body.union(yep_body_codes()),
                ..self.code_sets()
            }),
    {
        let mut p = self;
        let ghost single0 = string_set(p.single_text_codes@);
        let ghost text0 = string_set(p.text_codes@);
        // \fr resets all font changes.
        push_code(&mut p.single_text_codes, "fr");
        // \fb toggles font boldness.
        push_code(&mut p.single_text_codes, "fb");
        // \fi toggles font italic.
        push_code(&mut p.single_text_codes, "fi");
        // \is[n] writes out skill n's name including icon.
        push_code(&mut p.text_codes, "is");
        proof {
            reveal_strlit("fr");
            reveal_strlit("fb");
            reveal_strlit("fi");
            reveal_strlit("is");
            assert("fr"@ =~= seq!['f', 'r']);
            assert("fb"@ =~= seq!['f', 'b']);
            assert("fi"@ =~= seq!['f', 'i']);
            assert("is"@ =~= seq!['i', 's']);
            assert(string_set(p.single_text_codes@) =~= single0.union(yep_single_codes()));
            assert(string_set(p.text_codes@) =~= text0.union(yep_body_codes()));
        }
        p
    }

    /// Add a new single text code to the parser.
    pub fn add_single_text_code(&mut self, single_text_code: &str)
        ensures
            final(self).spec_input() == old(self).spec_input(),
            final(self).is_fresh() == old(self).is_fresh(),
            final(self).wf() == old(self).wf(),
            final(self).remaining_result_state_eq(old(self)),
            final(self).code_sets() == (CodeSets {
                single: old(self).code_sets().single.insert(ascii_lower(single_text_code@)),
                ..old(self).code_sets()
            }),
    {
        let ghost before = self.single_text_codes@;
        let code = to_ascii_lowercase(single_text_code);
        self.single_text_codes.push(code);
        proof {
            assert(self.single_text_codes@ == before.push(code));
            lemma_string_set_push(before, code);
        }
    }

    /// Add a new text code with a body to the parser.
    pub fn add_text_code(&mut self, text_code: &str)
        ensures
            final(self).spec_input() == old(self).spec_input(),
            final(self).is_fresh() == old(self).is_fresh(),
            final(self).wf() == old(self).wf(),
            final(self).remaining_result_state_eq(old(self)),
            final(self).code_sets() == (CodeSets {
                with_body: old(self).code_sets().with_body.insert(ascii_lower(text_code@)),
                ..old(self).code_sets()
            }),
    {
        let ghost before = self.text_codes@;
        let code = to_ascii_lowercase(text_code);
        self.text_codes.push(code);
        proof {
            assert(self.text_codes@ == before.push(code));
            lemma_string_set_push(before, code);
        }
    }

    fn create_text_node(&self, start: usize, end: usize) -> (n: MessageNode)
        requires
            start <= end <= self.input@.len(),
        ensures
            n@ == NodeView::Text(self.input@.subrange(start as int, end as int)),
    {
        MessageNode::Text { value: string_of(&self.input, start, end) }
    }

    /// Whether the lowercase of `input[start..end]` is one of `codes`.
    fn is_code(&self, codes: &Vec<String>, start: usize, end: usize) -> (b: bool)
        requires
            start <= end <= self.input@.len(),
        ensures
            b == string_set(codes@).contains(
                ascii_lower(self.input@.subrange(start as int, end as int)),
            ),
    {
        let lower = ascii_lowercase_of(&self.input, start, end);
        let b = contains_string(codes, &lower);
        proof {
            let views = codes@.map_values(|s: String| s@);
            if b {
                assert(views.to_set().contains(lower@));
            } else {
                if views.to_set().contains(lower@) {
                    assert(views.contains(lower@));
                }
            }
        }
        b
    }

    /// Parse the message, from where this parser stands.
    ///
    /// On a fresh parser the result is [`parse_message`] of the input.
    pub fn parse(&mut self) -> (r: Result<Vec<MessageNode>, ParseError>)
        requires
            old(self).wf(),
        ensures
            final(self).spec_input() == old(self).spec_input(),
            final(self).code_sets() == old(self).code_sets(),
            match (r, old(self).remaining_result()) {
                (Ok(nodes), Ok(expected)) => nodes@.map_values(|n: MessageNode| n@) == expected,
                (Err(e), Err(expected)) => e@ == expected,
                _ => false,
            },
            r is Ok ==> final(self).at_end(),
            old(self).is_fresh() ==> old(self).remaining_result() == parse_message(
                old(self).code_sets(),
                old(self).spec_input(),
            ),
    {
        let ghost cfg = self.code_sets();
        let ghost chars = self.input@;
        let ghost expected = self.remaining_result();
        let mut nodes: Vec<MessageNode> = Vec::new();
        let len = self.input.len();
        while self.position < len
            invariant
                self.input@ == chars,
                chars == old(self).input@,
                cfg == old(self).code_sets(),
                expected == old(self).remaining_result(),
                len == chars.len(),
                self.code_sets() == cfg,
                state_wf(chars, self.state, self.position as int),
                expected == prepend(
                    nodes@.map_values(|n: MessageNode| n@),
                    resume(cfg, chars, self.state, self.position as int),
                ),
            decreases len - self.position, if self.state is TextCodeName {
                1int
            } else {
                0int
            },
        {
            let ch_index = self.position;
            let ch = self.input[ch_index];
            let ghost nodes_before = nodes@.map_values(|n: MessageNode| n@);
            match self.state {
                MessageParserState::Normal { start_index } => {
                    let start_index = match start_index {
                        Some(s) => s,
                        None => ch_index,
                    };
                    if ch == '\\' {
                        if start_index != ch_index {
                            let node = self.create_text_node(start_index, ch_index);
                            nodes.push(node);
                        }
                        self.state = MessageParserState::TextCodeName { start_index: None };
                    } else {
                        self.state = MessageParserState::Normal { start_index: Some(start_index) };
                    }
                    self.position = ch_index + 1;
                    proof {
                        lemma_text_run_step(cfg, chars, start_index as int, ch_index as int);
                        let after = nodes@.map_values(|n: MessageNode| n@);
                        if ch == '\\' && start_index != ch_index {
                            let text = seq![
                                NodeView::Text(chars.subrange(start_index as int, ch_index as int)),
                            ];
                            assert(after =~= nodes_before + text);
                            lemma_prepend_assoc(nodes_before, text, code_name(cfg, chars, ch_index + 1, ch_index + 1));
                        } else {
                            assert(after =~= nodes_before);
                            lemma_prepend_assoc(nodes_before, seq![], code_name(cfg, chars, ch_index + 1, ch_index + 1));
                        }
                    }
                },
                MessageParserState::TextCodeName { start_index } => {
                    let start_index = match start_index {
                        Some(s) => s,
                        None => ch_index,
                    };
                    if ch == '[' {
                        if !self.is_code(&self.text_codes, start_index, ch_index) {
                            let name = string_of(&self.input, start_index, ch_index);
                            self.state = MessageParserState::TextCodeName {
                                start_index: Some(start_index),
                            };
                            self.position = ch_index + 1;
                            return Err(ParseError::UnknownTextCode { name });
                        }
                        self.state = MessageParserState::TextCodeBody {
                            start_index: None,
                            name_start: start_index,
                            name_end: ch_index,
                            yep_message_core: false,
                        };
                        self.position = ch_index + 1;
                    } else if self.yep_message_core && ch == '<' {
                        if !self.is_code(&self.yep_text_codes, start_index, ch_index) {
                            let name = string_of(&self.input, start_index, ch_index);
                            self.state = MessageParserState::TextCodeName {
                                start_index: Some(start_index),
                            };
                            self.position = ch_index + 1;
                            return Err(ParseError::UnknownYepTextCode { name });
                        }
                        self.state = MessageParserState::TextCodeBody {
                            start_index: None,
                            name_start: start_index,
                            name_end: ch_index,
                            yep_message_core: true,
                        };
                        self.position = ch_index + 1;
                    } else if self.is_code(&self.single_text_codes, start_index, ch_index) {
                        let name = string_of(&self.input, start_index, ch_index);
                        nodes.push(MessageNode::TextCode { name });
                        // The current character is part of the next node.
                        self.state = MessageParserState::Normal { start_index: Some(ch_index) };
                        proof {
                            let after = nodes@.map_values(|n: MessageNode| n@);
                            let node = seq![
                                NodeView::TextCode(chars.subrange(start_index as int, ch_index as int)),
                            ];
                            assert(after =~= nodes_before + node);
                            lemma_text_run_start(cfg, chars, ch_index as int);
                            lemma_prepend_assoc(nodes_before, node, text_run(cfg, chars, ch_index as int, ch_index as int));
                        }
                    } else {
                        self.state = MessageParserState::TextCodeName {
                            start_index: Some(start_index),
                        };
                        self.position = ch_index + 1;
                        assert(nodes@.map_values(|n: MessageNode| n@) =~= nodes_before);
                    }
                },
                MessageParserState::TextCodeBody {
                    start_index,
                    name_start,
                    name_end,
                    yep_message_core,
                } => {
                    let start_index = match start_index {
                        Some(s) => s,
                        None => ch_index,
                    };
                    if ch == ']' {
                        let name = string_of(&self.input, name_start, name_end);
                        let body = string_of(&self.input, start_index, ch_index);
                        nodes.push(MessageNode::TextCodeWithBody { name, body });
                        self.state = MessageParserState::Normal { start_index: None };
                        proof {
                            let after = nodes@.map_values(|n: MessageNode| n@);
                            let node = seq![
                                NodeView::TextCodeWithBody(
                                    chars.subrange(name_start as int, name_end as int),
                                    chars.subrange(start_index as int, ch_index as int),
                                ),
                            ];
                            assert(after =~= nodes_before + node);
                            lemma_prepend_assoc(nodes_before, node, parse_from(cfg, chars, ch_index + 1));
                        }
                    } else if yep_message_core && ch == '>' {
                        let name = string_of(&self.input, name_start, name_end);
                        let body = string_of(&self.input, start_index, ch_index);
                        nodes.push(MessageNode::YepTextCodeWithBody { name, body });
                        self.state = MessageParserState::Normal { start_index: None };
                        proof {
                            let after = nodes@.map_values(|n: MessageNode| n@);
                            let node = seq![
                                NodeView::YepTextCodeWithBody(
                                    chars.subrange(name_start as int, name_end as int),
                                    chars.subrange(start_index as int, ch_index as int),
                                ),
                            ];
                            assert(after =~= nodes_before + node);
                            lemma_prepend_assoc(nodes_before, node, parse_from(cfg, chars, ch_index + 1));
                        }
                    } else {
                        self.state = MessageParserState::TextCodeBody {
                            start_index: Some(start_index),
                            name_start,
                            name_end,
                            yep_message_core,
                        };
                        assert(nodes@.map_values(|n: MessageNode| n@) =~= nodes_before);
                    }
                    self.position = ch_index + 1;
                },
            }
        }
        let ghost nodes_before = nodes@.map_values(|n: MessageNode| n@);
        match self.state {
            MessageParserState::Normal { start_index } => {
                if let Some(start_index) = start_index {
                    let node = self.create_text_node(start_index, len);
                    nodes.push(node);
                    assert(nodes@.map_values(|n: MessageNode| n@) =~= nodes_before + seq![
                        NodeView::Text(chars.subrange(start_index as int, len as int)),
                    ]);
                } else {
                    assert(nodes@.map_values(|n: MessageNode| n@) =~= nodes_before);
                    assert(nodes_before + seq![] =~= nodes_before);
                }
            },
            MessageParserState::TextCodeName { start_index } => {
                let start_index = match start_index {
                    Some(start_index) => start_index,
                    // A \ was parsed, and then the text ended.
                    None => return Err(ParseError::IncompleteTextCode),
                };
                if start_index >= len {
                    return Err(ParseError::IncompleteTextCode);
                }
                if self.is_code(&self.single_text_codes, start_index, len) {
                    let name = string_of(&self.input, start_index, len);
                    nodes.push(MessageNode::TextCode { name });
                    assert(nodes@.map_values(|n: MessageNode| n@) =~= nodes_before + seq![
                        NodeView::TextCode(chars.subrange(start_index as int, len as int)),
                    ]);
                } else {
                    let name = string_of(&self.input, start_index, len);
                    return Err(ParseError::UnknownSingleTextCode { name });
                }
            },
            _ => return Err(ParseError::UnterminatedBody),
        }
        Ok(nodes)
    }
}

/// Adds the code `s` to a list of codes.
fn push_code(codes: &mut Vec<String>, s: &str)
    ensures
        string_set(final(codes)@) == string_set(old(codes)@).insert(s@),
{
    let code = owned(s);
    let ghost before = codes@;
    codes.push(code);
    proof {
        lemma_string_set_push(before, code);
    }
}

proof fn lemma_string_set_push(v: Seq<String>, s: String)
    ensures
        string_set(v.push(s)) == string_set(v).insert(s@),
{
    assert(v.push(s).map_values(|x: String| x@) =~= v.map_values(|x: String| x@).push(s@));
    v.map_values(|x: String| x@).lemma_push_to_set_commute(s@);
}

/// Putting nodes in front twice is putting them in front at once.
proof fn lemma_prepend_assoc(a: Seq<NodeView>, b: Seq<NodeView>, r: ParseResult)
    ensures
        prepend(a, prepend(b, r)) == prepend(a + b, r),
        prepend(a, r) == prepend(a + seq![], r),
{
    assert(a + seq![] =~= a);
    match r {
        Ok(v) => {
            assert(a + (b + v) =~= (a + b) + v);
        },
        Err(_) => {},
    }
}

/// One step of plain text: reading a character that is not `\` keeps the run going.
proof fn lemma_text_run_step(cfg: CodeSets, chars: Seq<char>, start: int, p: int)
    requires
        0 <= start <= p < chars.len(),
    ensures
        chars[p] != '\\' ==> text_run(cfg, chars, start, p) == text_run(cfg, chars, start, p + 1),
        chars[p] == '\\' ==> text_run(cfg, chars, start, p) == prepend(
            if start < p {
                seq![NodeView::Text(chars.subrange(start, p))]
            } else {
                seq![]
            },
            code_name(cfg, chars, p + 1, p + 1),
        ),
        start == p ==> parse_from(cfg, chars, p) == text_run(cfg, chars, start, p),
{
}

/// Plain text that starts at `p` is what parsing from `p` gives.
proof fn lemma_text_run_start(cfg: CodeSets, chars: Seq<char>, p: int)
    requires
        0 <= p < chars.len(),
    ensures
        parse_from(cfg, chars, p) == text_run(cfg, chars, p, p),
{
}

} // verus!

verus! {

/// Whether every text node holds some text and no `\`.
pub open spec fn plain_texts(nodes: Seq<NodeView>) -> bool {
    forall|i: int|
        0 <= i < nodes.len() ==> (#[trigger] nodes[i] matches NodeView::Text(t) ==> t.len() > 0
            && !t.contains('\\'))
}

/// The text of two node sequences one after the other.
pub proof fn lemma_nodes_text_concat(a: Seq<NodeView>, b: Seq<NodeView>)
    ensures
        nodes_text(a + b) == nodes_text(a) + nodes_text(b),
    decreases a.len(),
{
    if a.len() == 0 {
        assert(a + b =~= b);
    } else {
        assert((a + b).drop_first() =~= a.drop_first() + b);
        lemma_nodes_text_concat(a.drop_first(), b);
        assert(nodes_text(a) + nodes_text(b) =~= node_text(a[0]) + (nodes_text(a.drop_first())
            + nodes_text(b)));
    }
}

proof fn lemma_nodes_text_single(n: NodeView)
    ensures
        nodes_text(seq![n]) == node_text(n),
{
    reveal_with_fuel(nodes_text, 2);
    assert(seq![n].drop_first() =~= Seq::<NodeView>::empty());
    assert(node_text(n) + Seq::<char>::empty() =~= node_text(n));
}

proof fn lemma_plain_texts_concat(a: Seq<NodeView>, b: Seq<NodeView>)
    requires
        plain_texts(a),
        plain_texts(b),
    ensures
        plain_texts(a + b),
{
    assert forall|i: int| 0 <= i < (a + b).len() implies ((#[trigger] (a + b)[i]) matches NodeView::Text(t)
        ==> t.len() > 0 && !t.contains('\\')) by {
        if i < a.len() {
            assert((a + b)[i] == a[i]);
        } else {
            assert((a + b)[i] == b[i - a.len()]);
        }
    }
}

/// Whether no two text nodes stand side by side.
pub open spec fn no_adjacent_texts(nodes: Seq<NodeView>) -> bool {
    forall|i: int|
        0 <= i < nodes.len() - 1 ==> !(#[trigger] nodes[i] is Text && nodes[i + 1] is Text)
}

/// Whether the nodes start with a code.
pub open spec fn starts_with_code(nodes: Seq<NodeView>) -> bool {
    nodes.len() > 0 && !(nodes[0] is Text)
}

proof fn lemma_no_adjacent_concat(a: Seq<NodeView>, b: Seq<NodeView>)
    requires
        no_adjacent_texts(a),
        no_adjacent_texts(b),
        a.len() == 0 || b.len() == 0 || !(a.last() is Text) || !(b[0] is Text),
    ensures
        no_adjacent_texts(a + b),
{
    let c = a + b;
    assert forall|i: int| 0 <= i < c.len() - 1 implies !(#[trigger] c[i] is Text && c[i
        + 1] is Text) by {
        if i + 1 < a.len() {
            assert(c[i] == a[i] && c[i + 1] == a[i + 1]);
        } else if i >= a.len() {
            assert(c[i] == b[i - a.len()] && c[i + 1] == b[i - a.len() + 1]);
        } else {
            assert(c[i] == a.last() && c[i + 1] == b[0]);
        }
    }
}

/// What plain text gives: its nodes spell it out and their texts are plain.
proof fn lemma_text_run_facts(cfg: CodeSets, chars: Seq<char>, s: int, p: int)
    requires
        0 <= s <= p <= chars.len(),
        s < chars.len() || s == p,
        forall|i: int| s <= i < p ==> chars[i] != '\\',
    ensures
        text_run(cfg, chars, s, p) matches Ok(v) ==> plain_texts(v) && no_adjacent_texts(v),
        !cfg.yep_enabled ==> (text_run(cfg, chars, s, p) matches Ok(v) ==> nodes_text(v)
            == chars.subrange(s, chars.len() as int)),
    decreases chars.len() - p, 0int,
{
    if p >= chars.len() {
        if s < chars.len() {
            let t = chars.subrange(s, chars.len() as int);
            lemma_nodes_text_single(NodeView::Text(t));
            assert(!t.contains('\\')) by {
                if t.contains('\\') {
                    let j = choose|j: int| 0 <= j < t.len() && t[j] == '\\';
                    assert(chars[s + j] == '\\');
                }
            }
        } else {
            assert(chars.subrange(s, chars.len() as int) =~= Seq::<char>::empty());
        }
    } else if chars[p] == '\\' {
        let text = if s < p {
            seq![NodeView::Text(chars.subrange(s, p))]
        } else {
            seq![]
        };
        lemma_code_name_facts(cfg, chars, p + 1, p + 1);
        if let Ok(w) = code_name(cfg, chars, p + 1, p + 1) {
            lemma_no_adjacent_concat(text, w);
            lemma_nodes_text_concat(text, w);
            if s < p {
                let t = chars.subrange(s, p);
                lemma_nodes_text_single(NodeView::Text(t));
                assert(!t.contains('\\')) by {
                    if t.contains('\\') {
                        let j = choose|j: int| 0 <= j < t.len() && t[j] == '\\';
                        assert(chars[s + j] == '\\');
                    }
                }
                assert(plain_texts(text));
            } else {
                assert(nodes_text(text) =~= Seq::<char>::empty());
                assert(plain_texts(text));
            }
            lemma_plain_texts_concat(text, w);
            if !cfg.yep_enabled {
                assert(chars.subrange(s, chars.len() as int) =~= chars.subrange(s, p) + seq!['\\']
                    + chars.subrange(p + 1, chars.len() as int));
                assert(nodes_text(text) =~= chars.subrange(s, p));
            }
        }
    } else {
        lemma_text_run_facts(cfg, chars, s, p + 1);
    }
}

/// What a code name gives: its nodes spell out a `\` and the rest of the
/// message, and their texts are plain.
proof fn lemma_code_name_facts(cfg: CodeSets, chars: Seq<char>, start: int, k: int)
    requires
        0 <= start <= k <= chars.len(),
    ensures
        code_name(cfg, chars, start, k) matches Ok(v) ==> plain_texts(v) && no_adjacent_texts(v)
            && starts_with_code(v),
        !cfg.yep_enabled ==> (code_name(cfg, chars, start, k) matches Ok(v) ==> nodes_text(v)
            == seq!['\\'] + chars.subrange(start, chars.len() as int)),
    decreases chars.len() - k, 2int,
{
    if k >= chars.len() {
        if start < chars.len() {
            let name = chars.subrange(start, chars.len() as int);
            lemma_nodes_text_single(NodeView::TextCode(name));
        }
    } else {
        let name = chars.subrange(start, k);
        let c = chars[k];
        if c == '[' {
            lemma_code_body_facts(cfg, chars, name, false, k + 1, k + 1);
            if !cfg.yep_enabled {
                assert(chars.subrange(start, chars.len() as int) =~= name + seq!['['] + chars.subrange(
                    k + 1,
                    chars.len() as int,
                ));
                assert(seq!['\\'] + name + seq!['['] + chars.subrange(k + 1, chars.len() as int)
                    =~= seq!['\\'] + chars.subrange(start, chars.len() as int));
            }
        } else if cfg.yep_enabled && c == '<' {
            lemma_code_body_facts(cfg, chars, name, true, k + 1, k + 1);
        } else if cfg.single.contains(ascii_lower(name)) {
            let node = seq![NodeView::TextCode(name)];
            lemma_text_run_facts(cfg, chars, k, k);
            if let Ok(w) = text_run(cfg, chars, k, k) {
                lemma_no_adjacent_concat(node, w);
                assert((node + w)[0] == node[0]);
                lemma_nodes_text_single(NodeView::TextCode(name));
                lemma_nodes_text_concat(node, w);
                assert(plain_texts(node));
                lemma_plain_texts_concat(node, w);
                if !cfg.yep_enabled {
                    assert(chars.subrange(start, chars.len() as int) =~= name + chars.subrange(
                        k,
                        chars.len() as int,
                    ));
                    assert(seq!['\\'] + name + chars.subrange(k, chars.len() as int) =~= seq!['\\']
                        + chars.subrange(start, chars.len() as int));
                }
            }
        } else {
            lemma_code_name_facts(cfg, chars, start, k + 1);
        }
    }
}

/// What a code body gives: its nodes spell out the code, its `[`, and the rest
/// of the message, and their texts are plain.
proof fn lemma_code_body_facts(
    cfg: CodeSets,
    chars: Seq<char>,
    name: Seq<char>,
    yep: bool,
    s: int,
    p: int,
)
    requires
        0 <= s <= p <= chars.len(),
    ensures
        code_body(cfg, chars, name, yep, s, p) matches Ok(v) ==> plain_texts(v)
            && no_adjacent_texts(v) && starts_with_code(v),
        !cfg.yep_enabled && !yep ==> (code_body(cfg, chars, name, yep, s, p) matches Ok(v)
            ==> nodes_text(v) == seq!['\\'] + name + seq!['['] + chars.subrange(
            s,
            chars.len() as int,
        )),
    decreases chars.len() - p, 3int,
{
    if p >= chars.len() {
    } else if chars[p] == ']' || (yep && chars[p] == '>') {
        let node = if chars[p] == ']' {
            seq![NodeView::TextCodeWithBody(name, chars.subrange(s, p))]
        } else {
            seq![NodeView::YepTextCodeWithBody(name, chars.subrange(s, p))]
        };
        assert(plain_texts(node));
        if p + 1 < chars.len() {
            lemma_text_run_facts(cfg, chars, p + 1, p + 1);
        }
        if let Ok(w) = parse_from(cfg, chars, p + 1) {
            lemma_no_adjacent_concat(node, w);
            assert((node + w)[0] == node[0]);
            lemma_nodes_text_concat(node, w);
            lemma_plain_texts_concat(node, w);
            if !cfg.yep_enabled && !yep {
                lemma_nodes_text_single(node[0]);
                if p + 1 >= chars.len() {
                    assert(nodes_text(w) =~= Seq::<char>::empty());
                }
                assert(nodes_text(w) =~= chars.subrange(p + 1, chars.len() as int));
                assert(chars.subrange(s, chars.len() as int) =~= chars.subrange(s, p) + seq![']']
                    + chars.subrange(p + 1, chars.len() as int));
                assert(nodes_text(node + w) =~= seq!['\\'] + name + seq!['['] + chars.subrange(
                    s,
                    chars.len() as int,
                ));
            }
        }
    } else {
        lemma_code_body_facts(cfg, chars, name, yep, s, p + 1);
    }
}

/// A parsed message spells out the message: without YEP_MessageCore, the
/// nodes of a successful parse, written back as text and codes, give the
/// message character for character.
pub proof fn lemma_parse_spells_message(cfg: CodeSets, chars: Seq<char>)
    requires
        !cfg.yep_enabled,
    ensures
        parse_message(cfg, chars) matches Ok(nodes) ==> nodes_text(nodes) == chars,
{
    if chars.len() > 0 {
        lemma_text_run_facts(cfg, chars, 0, 0);
        assert(chars.subrange(0, chars.len() as int) =~= chars);
    } else {
        assert(nodes_text(seq![]) =~= chars);
    }
}

/// Text nodes are plain: every text node of a successful parse holds some
/// text and no `\`, whatever codes the parser knows.
pub proof fn lemma_parse_texts_are_plain(cfg: CodeSets, chars: Seq<char>)
    ensures
        parse_message(cfg, chars) matches Ok(nodes) ==> plain_texts(nodes),
{
    if chars.len() > 0 {
        lemma_text_run_facts(cfg, chars, 0, 0);
    }
}

/// No two text nodes of a successful parse stand side by side: a run of
/// text always ends at a code or at the end of the message.
pub proof fn lemma_parse_no_adjacent_texts(cfg: CodeSets, chars: Seq<char>)
    ensures
        parse_message(cfg, chars) matches Ok(nodes) ==> no_adjacent_texts(nodes),
{
    if chars.len() > 0 {
        lemma_text_run_facts(cfg, chars, 0, 0);
    }
}

/// A message without `\` is one text node, or nothing when it is empty.
pub proof fn lemma_parse_plain_message(cfg: CodeSets, chars: Seq<char>)
    requires
        !chars.contains('\\'),
    ensures
        parse_message(cfg, chars) == if chars.len() == 0 {
            Ok::<Seq<NodeView>, ParseErrorView>(seq![])
        } else {
            Ok(seq![NodeView::Text(chars)])
        },
{
    if chars.len() > 0 {
        lemma_plain_text_run(cfg, chars, 0);
        assert(chars.subrange(0, chars.len() as int) =~= chars);
    }
}

proof fn lemma_plain_text_run(cfg: CodeSets, chars: Seq<char>, p: int)
    requires
        0 <= p <= chars.len(),
        chars.len() > 0,
        !chars.contains('\\'),
    ensures
        text_run(cfg, chars, 0, p) == Ok::<Seq<NodeView>, ParseErrorView>(
            seq![NodeView::Text(chars.subrange(0, chars.len() as int))],
        ),
    decreases chars.len() - p,
{
    if p < chars.len() {
        assert(chars[p] != '\\') by {
            if chars[p] == '\\' {
                assert(chars.contains('\\'));
            }
        }
        lemma_plain_text_run(cfg, chars, p + 1);
    }
}

} // verus!

verus! {

/// The text codes a fresh parser knows: those of RPG Maker MV.
pub open spec fn mv_code_sets() -> CodeSets {
    CodeSets {
        single: mv_single_codes(),
        with_body: mv_body_codes(),
        yep: mv_yep_codes(),
        yep_enabled: false,
    }
}

proof fn lemma_plain_run_from(cfg: CodeSets, chars: Seq<char>, s: int, p: int)
    requires
        0 <= s <= p <= chars.len(),
        s < chars.len(),
        forall|i: int| s <= i < chars.len() ==> chars[i] != '\\',
    ensures
        text_run(cfg, chars, s, p) == Ok::<Seq<NodeView>, ParseErrorView>(
            seq![NodeView::Text(chars.subrange(s, chars.len() as int))],
        ),
    decreases chars.len() - p,
{
    if p < chars.len() {
        lemma_plain_run_from(cfg, chars, s, p + 1);
    }
}

/// Every single text code of RPG Maker MV (`g ! { } | < > c . ^`) is known
/// to a fresh parser: `\` and the code, followed by plain text that does not
/// open a body, parse as that code and then the text.
pub proof fn lemma_mv_single_code_parses(c: char, rest: Seq<char>)
    requires
        c == 'g' || c == '!' || c == '{' || c == '}' || c == '|' || c == '<' || c == '>' || c
            == 'c' || c == '.' || c == '^',
        rest.len() > 0,
        rest[0] != '[',
        !rest.contains('\\'),
    ensures
        parse_message(mv_code_sets(), seq!['\\', c] + rest) == Ok::<
            Seq<NodeView>,
            ParseErrorView,
        >(seq![NodeView::TextCode(seq![c]), NodeView::Text(rest)]),
{
    let cfg = mv_code_sets();
    let chars = seq!['\\', c] + rest;
    assert(chars[0] == '\\');
    assert(chars[1] == c);
    assert(chars[2] == rest[0]);
    assert(chars.subrange(1, 1) =~= Seq::<char>::empty());
    assert(ascii_lower(Seq::<char>::empty()) =~= Seq::<char>::empty());
    assert(!cfg.single.contains(Seq::<char>::empty())) by {
        if cfg.single.contains(Seq::<char>::empty()) {
            assert(Seq::<char>::empty().len() == 1);
        }
    }
    assert(chars.subrange(1, 2) =~= seq![c]);
    assert(ascii_lower(seq![c]) =~= seq![c]);
    assert(cfg.single.contains(seq![c]));
    assert forall|i: int| 2 <= i < chars.len() implies chars[i] != '\\' by {
        assert(chars[i] == rest[i - 2]);
        if chars[i] == '\\' {
            assert(rest.contains('\\'));
        }
    }
    lemma_plain_run_from(cfg, chars, 2, 2);
    assert(chars.subrange(2, chars.len() as int) =~= rest);
    assert(code_name(cfg, chars, 1, 1) == code_name(cfg, chars, 1, 2));
    assert(seq![NodeView::TextCode(seq![c])] + seq![NodeView::Text(rest)] =~= seq![
        NodeView::TextCode(seq![c]),
        NodeView::Text(rest),
    ]);
    assert(Seq::<NodeView>::empty() + seq![NodeView::TextCode(seq![c]), NodeView::Text(rest)]
        =~= seq![NodeView::TextCode(seq![c]), NodeView::Text(rest)]);
}

} // verus!
