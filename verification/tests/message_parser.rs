use rpgmv_tool::message_parser::{MessageNode, MessageParser, ParseError};

#[test]
fn yep() {
    let tests = [
        (
            "\\n<Bob>Hello!",
            vec![
                MessageNode::YepTextCodeWithBody {
                    name: "n".into(),
                    body: "Bob".into(),
                },
                MessageNode::Text {
                    value: "Hello!".into(),
                },
            ],
        ),
        (
            "\\fbThis is bold.\\fiThis is italic.\\frThis is normal.",
            vec![
                MessageNode::TextCode { name: "fb".into() },
                MessageNode::Text {
                    value: "This is bold.".into(),
                },
                MessageNode::TextCode { name: "fi".into() },
                MessageNode::Text {
                    value: "This is italic.".into(),
                },
                MessageNode::TextCode { name: "fr".into() },
                MessageNode::Text {
                    value: "This is normal.".into(),
                },
            ],
        ),
    ];

    for (input, expected_output) in tests {
        let mut parser = MessageParser::new(input)
            .yep_message_core(true)
            .add_yep_message_core_text_codes();
        let actual_output = parser.parse().expect("Failed to parse");
        assert!(
            actual_output == expected_output,
            "actual != expected, {actual_output:#?} != {expected_output:#?}"
        );
    }
}

#[test]
fn strip_escapes() {
    let tests = [
        (
            "\\C[2]Colored",
            vec![
                MessageNode::TextCodeWithBody {
                    name: "C".into(),
                    body: "2".into(),
                },
                MessageNode::Text {
                    value: "Colored".into(),
                },
            ],
        ),
        ("", vec![]),
        (" ", vec![MessageNode::Text { value: " ".into() }]),
        (
            "Colored\\C[2]",
            vec![
                MessageNode::Text {
                    value: "Colored".into(),
                },
                MessageNode::TextCodeWithBody {
                    name: "C".into(),
                    body: "2".into(),
                },
            ],
        ),
        (
            "\\G abc",
            vec![
                MessageNode::TextCode { name: "G".into() },
                MessageNode::Text {
                    value: " abc".into(),
                },
            ],
        ),
        ("\\G", vec![MessageNode::TextCode { name: "G".into() }]),
        (
            "\\V[1] potions",
            vec![
                MessageNode::TextCodeWithBody {
                    name: "V".into(),
                    body: "1".into(),
                },
                MessageNode::Text {
                    value: " potions".into(),
                },
            ],
        ),
        (
            "\\C[2]Colored\\C",
            vec![
                MessageNode::TextCodeWithBody {
                    name: "C".into(),
                    body: "2".into(),
                },
                MessageNode::Text {
                    value: "Colored".into(),
                },
                MessageNode::TextCode { name: "C".into() },
            ],
        ),
        (
            "\\C[2]Colored\\C ",
            vec![
                MessageNode::TextCodeWithBody {
                    name: "C".into(),
                    body: "2".into(),
                },
                MessageNode::Text {
                    value: "Colored".into(),
                },
                MessageNode::TextCode { name: "C".into() },
                MessageNode::Text { value: " ".into() },
            ],
        ),
        (
            "\\^nowait",
            vec![
                MessageNode::TextCode { name: "^".into() },
                MessageNode::Text {
                    value: "nowait".into(),
                },
            ],
        ),
        (
            "\\.\\.test",
            vec![
                MessageNode::TextCode { name: ".".into() },
                MessageNode::TextCode { name: ".".into() },
                MessageNode::Text {
                    value: "test".into(),
                },
            ],
        ),
    ];

    for (input, expected_output) in tests {
        let mut parser = MessageParser::new(input);
        let actual_output = parser.parse().expect("Failed to parse");
        assert!(actual_output == expected_output);
    }
}

#[test]
fn message_parser_errors() {
    let mut parser = MessageParser::new("\\");
    assert_eq!(parser.parse(), Err(ParseError::IncompleteTextCode));

    let mut parser = MessageParser::new("\\Q[1]");
    assert_eq!(
        parser.parse(),
        Err(ParseError::UnknownTextCode { name: "Q".into() })
    );

    let mut parser = MessageParser::new("\\C[2");
    assert_eq!(parser.parse(), Err(ParseError::UnterminatedBody));
}

#[test]
fn message_parser_extra_codes() {
    let mut parser = MessageParser::new("\\Shake[3]Boom");
    parser.add_text_code("shake");
    assert_eq!(
        parser.parse(),
        Ok(vec![
            MessageNode::TextCodeWithBody {
                name: "Shake".into(),
                body: "3".into(),
            },
            MessageNode::Text {
                value: "Boom".into(),
            },
        ])
    );
}

#[test]
fn message_text_round_trip() {
    // The nodes spell the message back, text codes included.
    let input = "\\C[2]Hi \\G there\\.";
    let mut parser = MessageParser::new(input);
    let nodes = parser.parse().expect("Failed to parse");
    let mut spelled = String::new();
    for node in nodes.iter() {
        match node {
            MessageNode::Text { value } => spelled.push_str(value),
            MessageNode::TextCode { name } => {
                spelled.push('\\');
                spelled.push_str(name);
            }
            MessageNode::TextCodeWithBody { name, body } => {
                spelled.push('\\');
                spelled.push_str(name);
                spelled.push('[');
                spelled.push_str(body);
                spelled.push(']');
            }
            MessageNode::YepTextCodeWithBody { name, body } => {
                spelled.push('\\');
                spelled.push_str(name);
                spelled.push('<');
                spelled.push_str(body);
                spelled.push('>');
            }
        }
    }
    assert_eq!(spelled, input);
}

#[test]
fn text_nodes_never_touch() {
    let mut parser = MessageParser::new("a\\Gb\\C[2]\\.c");
    let nodes = parser.parse().expect("Failed to parse");
    assert_eq!(nodes.len(), 6);
    for pair in nodes.windows(2) {
        assert!(!matches!(
            (&pair[0], &pair[1]),
            (MessageNode::Text { .. }, MessageNode::Text { .. })
        ));
    }
}
