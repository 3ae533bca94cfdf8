use infrarust::packets::play::commands::{
    indexed_parser_to_name, named_parser_to_id, string_parser, CCommands, CommandNode, Parser, NODE_TYPE_ROOT,
};
use infrarust::packets::Packet;
use infrarust::version::{ProtocolVersion, V1_16, V1_21};

fn round_trip(pkt: &CCommands, version: ProtocolVersion) -> CCommands {
    let mut buf = Vec::new();
    pkt.encode(&mut buf, version).unwrap();
    CCommands::decode(&mut buf.as_slice(), version).unwrap()
}

#[test]
fn empty_tree_round_trip() {
    let root = CommandNode {
        flags: NODE_TYPE_ROOT,
        children: vec![],
        redirect_node: None,
        name: None,
        parser: None,
        suggestions_type: None,
    };
    let pkt = CCommands {
        nodes: vec![root],
        root_index: 0,
    };
    let decoded = round_trip(&pkt, ProtocolVersion(V1_21));
    assert_eq!(decoded.nodes.len(), 1);
    assert_eq!(decoded.root_index, 0);
    assert_eq!(decoded.nodes[0].node_type(), NODE_TYPE_ROOT);
}

#[test]
fn literal_node_round_trip() {
    let pkt = CCommands {
        nodes: vec![
            CommandNode {
                flags: NODE_TYPE_ROOT,
                children: vec![1],
                redirect_node: None,
                name: None,
                parser: None,
                suggestions_type: None,
            },
            CommandNode::literal_executable("test"),
        ],
        root_index: 0,
    };
    let decoded = round_trip(&pkt, ProtocolVersion(V1_21));
    assert_eq!(decoded.nodes.len(), 2);
    assert_eq!(decoded.nodes[1].name.as_deref(), Some("test"));
    assert!(decoded.nodes[1].is_executable());
}

#[test]
fn argument_node_with_string_parser_1_19_plus() {
    let parser = string_parser(0, ProtocolVersion(V1_21));
    let pkt = CCommands {
        nodes: vec![
            CommandNode {
                flags: NODE_TYPE_ROOT,
                children: vec![1],
                redirect_node: None,
                name: None,
                parser: None,
                suggestions_type: None,
            },
            CommandNode::argument("name", parser, Some("minecraft:ask_server")),
        ],
        root_index: 0,
    };
    let decoded = round_trip(&pkt, ProtocolVersion(V1_21));
    assert_eq!(decoded.nodes[1].name.as_deref(), Some("name"));
    assert!(matches!(
        decoded.nodes[1].parser,
        Some(Parser::Indexed { id: 5, .. })
    ));
    assert_eq!(
        decoded.nodes[1].suggestions_type.as_deref(),
        Some("minecraft:ask_server")
    );
}

#[test]
fn argument_node_with_string_parser_pre_1_19() {
    let parser = string_parser(2, ProtocolVersion(V1_16));
    let pkt = CCommands {
        nodes: vec![
            CommandNode {
                flags: NODE_TYPE_ROOT,
                children: vec![1],
                redirect_node: None,
                name: None,
                parser: None,
                suggestions_type: None,
            },
            CommandNode::argument("msg", parser, None),
        ],
        root_index: 0,
    };
    let decoded = round_trip(&pkt, ProtocolVersion(V1_16));
    assert!(matches!(
        decoded.nodes[1].parser,
        Some(Parser::Named { ref identifier, .. }) if identifier == "brigadier:string"
    ));
}

#[test]
fn redirect_node_round_trip() {
    let pkt = CCommands {
        nodes: vec![
            CommandNode {
                flags: NODE_TYPE_ROOT,
                children: vec![1, 2],
                redirect_node: None,
                name: None,
                parser: None,
                suggestions_type: None,
            },
            CommandNode::literal_executable("original"),
            CommandNode::redirect("alias", 1),
        ],
        root_index: 0,
    };
    let decoded = round_trip(&pkt, ProtocolVersion(V1_21));
    assert_eq!(decoded.nodes[2].redirect_node, Some(1));
    assert_eq!(decoded.nodes[2].name.as_deref(), Some("alias"));
}

#[test]
fn literal_node_bytes_are_exact() {
    let pkt = CCommands {
        nodes: vec![CommandNode::literal("a")],
        root_index: 0,
    };
    let mut buf = Vec::new();
    pkt.encode(&mut buf, ProtocolVersion(V1_21)).unwrap();
    // count, flags (literal), no children, name "a", root index
    assert_eq!(buf, vec![1, 0x01, 0, 1, b'a', 0]);
}

#[test]
fn string_parser_ids_by_version() {
    assert!(matches!(string_parser(1, ProtocolVersion(V1_21)), Parser::Indexed { id: 5, .. }));
    assert!(matches!(string_parser(1, ProtocolVersion(V1_16)), Parser::Named { .. }));
}

#[test]
fn truncated_tree_is_refused() {
    let mut raw: &[u8] = &[2, 0x00, 1, 1];
    assert!(CCommands::decode(&mut raw, ProtocolVersion(V1_21)).is_err());
}

#[test]
fn string_parser_reads_back_with_its_mode() {
    for (version, mode) in [(V1_16, 2), (V1_21, 1)] {
        let pkt = CCommands {
            nodes: vec![
                CommandNode {
                    flags: NODE_TYPE_ROOT,
                    children: vec![1],
                    redirect_node: None,
                    name: None,
                    parser: None,
                    suggestions_type: None,
                },
                CommandNode::argument("msg", string_parser(mode, ProtocolVersion(version)), None),
            ],
            root_index: 0,
        };
        let decoded = round_trip(&pkt, ProtocolVersion(version));
        match &decoded.nodes[1].parser {
            Some(Parser::Named { identifier, properties }) => {
                assert_eq!(version, V1_16);
                assert_eq!(identifier, "brigadier:string");
                assert_eq!(properties, &vec![mode as u8]);
            }
            Some(Parser::Indexed { id, properties }) => {
                assert_eq!(version, V1_21);
                assert_eq!(*id, 5);
                assert_eq!(properties, &vec![mode as u8]);
            }
            None => panic!("parser lost"),
        }
    }
}

#[test]
fn parser_names_and_indices_round_trip() {
    for id in 0..48 {
        assert_eq!(named_parser_to_id(indexed_parser_to_name(id)), id, "{id}");
    }
    assert_eq!(named_parser_to_id("minecraft:unknown"), -1);
    assert_eq!(indexed_parser_to_name(48), "brigadier:string");
}
