//! The command tree packet (Declare Commands) and its nodes.

use vstd::prelude::*;

use crate::codec::raw::{push_all, read_bool, read_exact, read_u8};
use crate::codec::spec::{
    bool_bytes, lemma_p_byte_round_trips, lemma_string_round_trip, lemma_varint_round_trip, p_bytes, p_string, p_u8, p_varint, string_bytes, varint_bytes, SpecParse,
    MAX_STRING_CHARS,
};
use crate::codec::types::{encode_string, read_string};
use crate::codec::VarInt;
use crate::error::{eof, ErrorClass, ProtocolError, ProtocolResult};
use crate::packets::{packet_round_trips, Packet};
use crate::text::str_eq;
use crate::version::{ConnectionState, Direction, ProtocolVersion, V1_19};

use crate::registry::PacketKind;

verus! {

pub const NODE_TYPE_MASK: u8 = 0x03;
pub const NODE_TYPE_ROOT: u8 = 0x00;
pub const NODE_TYPE_LITERAL: u8 = 0x01;
pub const NODE_TYPE_ARGUMENT: u8 = 0x02;
pub const FLAG_EXECUTABLE: u8 = 0x04;
pub const FLAG_REDIRECT: u8 = 0x08;
pub const FLAG_SUGGESTIONS: u8 = 0x10;

/// The command tree sent to the client.
#[derive(Debug, Clone)]
pub struct CCommands {
    pub nodes: Vec<CommandNode>,
    pub root_index: i32,
}

/// One node of the command tree.
#[derive(Debug, Clone)]
pub struct CommandNode {
    pub flags: u8,
    pub children: Vec<i32>,
    pub redirect_node: Option<i32>,
    pub name: Option<String>,
    pub parser: Option<Parser>,
    pub suggestions_type: Option<String>,
}

/// The parser of an argument node: by identifier before 1.19, by registry
/// index from 1.19; its properties are kept as raw bytes.
#[derive(Debug, Clone)]
pub enum Parser {
    Named { identifier: String, properties: Vec<u8> },
    Indexed { id: i32, properties: Vec<u8> },
}

pub enum ParserView {
    Named { identifier: Seq<char>, properties: Seq<u8> },
    Indexed { id: i32, properties: Seq<u8> },
}

pub struct CommandNodeView {
    pub flags: u8,
    pub children: Seq<i32>,
    pub redirect_node: Option<i32>,
    pub name: Option<Seq<char>>,
    pub parser: Option<ParserView>,
    pub suggestions_type: Option<Seq<char>>,
}

pub struct CCommandsView {
    pub nodes: Seq<CommandNodeView>,
    pub root_index: i32,
}

pub open spec fn opt_str_view(s: Option<String>) -> Option<Seq<char>> {
    match s {
        Some(x) => Some(x@),
        None => None,
    }
}

impl View for Parser {
    type V = ParserView;

    open spec fn view(&self) -> ParserView {
        match self {
            Parser::Named { identifier, properties } => ParserView::Named {
                identifier: identifier@,
                properties: properties@,
            },
            Parser::Indexed { id, properties } => ParserView::Indexed {
                id: *id,
                properties: properties@,
            },
        }
    }
}

impl View for CommandNode {
    type V = CommandNodeView;

    open spec fn view(&self) -> CommandNodeView {
        CommandNodeView {
            flags: self.flags,
            children: self.children@,
            redirect_node: self.redirect_node,
            name: opt_str_view(self.name),
            parser: match self.parser {
                Some(p) => Some(p@),
                None => None,
            },
            suggestions_type: opt_str_view(self.suggestions_type),
        }
    }
}

impl View for CCommands {
    type V = CCommandsView;

    open spec fn view(&self) -> CCommandsView {
        CCommandsView {
            nodes: self.nodes@.map_values(|n: CommandNode| n@),
            root_index: self.root_index,
        }
    }
}

/// A fresh node with the given flags and name and nothing else.
pub open spec fn plain_node(flags: u8, name: Seq<char>, redirect: Option<i32>) -> CommandNodeView {
    CommandNodeView {
        flags,
        children: seq![],
        redirect_node: redirect,
        name: Some(name),
        parser: None,
        suggestions_type: None,
    }
}

impl CommandNode {
    /// The node type: root, literal or argument (the low two flag bits).
    pub fn node_type(&self) -> (t: u8)
        ensures
            t == self.flags & NODE_TYPE_MASK,
    {
        self.flags & NODE_TYPE_MASK
    }

    /// Whether the node completes an executable command.
    pub fn is_executable(&self) -> (b: bool)
        ensures
            b == (self.flags & FLAG_EXECUTABLE != 0),
    {
        self.flags & FLAG_EXECUTABLE != 0
    }

    /// A literal node, not executable.
    pub fn literal(name: &str) -> (n: CommandNode)
        ensures
            n@ == plain_node(NODE_TYPE_LITERAL, name@, None),
    {
        CommandNode {
            flags: NODE_TYPE_LITERAL,
            children: vec![],
            redirect_node: None,
            name: Some(name.to_string()),
            parser: None,
            suggestions_type: None,
        }
    }

    /// A literal node that completes an executable command.
    pub fn literal_executable(name: &str) -> (n: CommandNode)
        ensures
            n@ == plain_node(NODE_TYPE_LITERAL | FLAG_EXECUTABLE, name@, None),
    {
        CommandNode {
            flags: NODE_TYPE_LITERAL | FLAG_EXECUTABLE,
            children: vec![],
            redirect_node: None,
            name: Some(name.to_string()),
            parser: None,
            suggestions_type: None,
        }
    }

    /// A literal node redirecting to the node at index `target`.
    pub fn redirect(name: &str, target: i32) -> (n: CommandNode)
        ensures
            n@ == plain_node(NODE_TYPE_LITERAL | FLAG_REDIRECT, name@, Some(target)),
    {
        CommandNode {
            flags: NODE_TYPE_LITERAL | FLAG_REDIRECT,
            children: vec![],
            redirect_node: Some(target),
            name: Some(name.to_string()),
            parser: None,
            suggestions_type: None,
        }
    }

    /// An executable argument node; a suggestion type sets the suggestions flag.
    pub fn argument(name: &str, parser: Parser, suggestions: Option<&str>) -> (n: CommandNode)
        ensures
            n@ == (CommandNodeView {
                flags: if suggestions is Some {
                    NODE_TYPE_ARGUMENT | FLAG_EXECUTABLE | FLAG_SUGGESTIONS
                } else {
                    NODE_TYPE_ARGUMENT | FLAG_EXECUTABLE
                },
                children: seq![],
                redirect_node: None,
                name: Some(name@),
                parser: Some(parser@),
                suggestions_type: match suggestions {
                    Some(s) => Some(s@),
                    None => None,
                },
            }),
    {
        let mut flags = NODE_TYPE_ARGUMENT | FLAG_EXECUTABLE;
        let suggestions_type = match suggestions {
            Some(s) => {
                flags = flags | FLAG_SUGGESTIONS;
                Some(s.to_string())
            },
            None => None,
        };
        CommandNode {
            flags,
            children: vec![],
            redirect_node: None,
            name: Some(name.to_string()),
            parser: Some(parser),
            suggestions_type,
        }
    }

    /// A non-executable argument node; a suggestion type sets the suggestions flag.
    pub fn argument_non_executable(name: &str, parser: Parser, suggestions: Option<&str>) -> (n:
        CommandNode)
        ensures
            n@ == (CommandNodeView {
                flags: if suggestions is Some {
                    NODE_TYPE_ARGUMENT | FLAG_SUGGESTIONS
                } else {
                    NODE_TYPE_ARGUMENT
                },
                children: seq![],
                redirect_node: None,
                name: Some(name@),
                parser: Some(parser@),
                suggestions_type: match suggestions {
                    Some(s) => Some(s@),
                    None => None,
                },
            }),
    {
        let mut flags = NODE_TYPE_ARGUMENT;
        let suggestions_type = match suggestions {
            Some(s) => {
                flags = flags | FLAG_SUGGESTIONS;
                Some(s.to_string())
            },
            None => None,
        };
        CommandNode {
            flags,
            children: vec![],
            redirect_node: None,
            name: Some(name.to_string()),
            parser: Some(parser),
            suggestions_type,
        }
    }
}

// ---------------------------------------------------------------------------
// Parser identifiers
// ---------------------------------------------------------------------------
/// The index of a named parser (`-1` for an unknown name).
pub open spec fn parser_id_of_name(name: Seq<char>) -> i32 {
    if name == "brigadier:bool"@ {
        0
    } else if name == "brigadier:float"@ {
        1
    } else if name == "brigadier:double"@ {
        2
    } else if name == "brigadier:integer"@ {
        3
    } else if name == "brigadier:long"@ {
        4
    } else if name == "brigadier:string"@ {
        5
    } else if name == "minecraft:entity"@ {
        6
    } else if name == "minecraft:game_profile"@ {
        7
    } else if name == "minecraft:block_pos"@ {
        8
    } else if name == "minecraft:column_pos"@ {
        9
    } else if name == "minecraft:vec3"@ {
        10
    } else if name == "minecraft:vec2"@ {
        11
    } else if name == "minecraft:block_state"@ {
        12
    } else if name == "minecraft:block_predicate"@ {
        13
    } else if name == "minecraft:item_stack"@ {
        14
    } else if name == "minecraft:item_predicate"@ {
        15
    } else if name == "minecraft:color"@ {
        16
    } else if name == "minecraft:component"@ {
        17
    } else if name == "minecraft:message"@ {
        18
    } else if name == "minecraft:nbt_compound_tag"@ || name == "minecraft:nbt"@ {
        19
    } else if name == "minecraft:nbt_tag"@ {
        20
    } else if name == "minecraft:nbt_path"@ {
        21
    } else if name == "minecraft:objective"@ {
        22
    } else if name == "minecraft:objective_criteria"@ {
        23
    } else if name == "minecraft:operation"@ {
        24
    } else if name == "minecraft:particle"@ {
        25
    } else if name == "minecraft:angle"@ {
        26
    } else if name == "minecraft:rotation"@ {
        27
    } else if name == "minecraft:scoreboard_slot"@ {
        28
    } else if name == "minecraft:score_holder"@ {
        29
    } else if name == "minecraft:swizzle"@ {
        30
    } else if name == "minecraft:team"@ {
        31
    } else if name == "minecraft:item_slot"@ {
        32
    } else if name == "minecraft:resource_location"@ {
        33
    } else if name == "minecraft:function"@ {
        34
    } else if name == "minecraft:entity_anchor"@ {
        35
    } else if name == "minecraft:int_range"@ {
        36
    } else if name == "minecraft:float_range"@ {
        37
    } else if name == "minecraft:dimension"@ {
        38
    } else if name == "minecraft:gamemode"@ {
        39
    } else if name == "minecraft:time"@ {
        40
    } else if name == "minecraft:resource_or_tag"@ {
        41
    } else if name == "minecraft:resource_or_tag_key"@ {
        42
    } else if name == "minecraft:resource"@ {
        43
    } else if name == "minecraft:resource_key"@ {
        44
    } else if name == "minecraft:template_mirror"@ {
        45
    } else if name == "minecraft:template_rotation"@ {
        46
    } else if name == "minecraft:heightmap"@ {
        47
    } else {
        -1i32
    }
}

/// The name of an indexed parser (`brigadier:string` for an unknown index).
pub open spec fn parser_name_of_id(id: i32) -> Seq<char> {
    if id == 0 {
        "brigadier:bool"@
    } else if id == 1 {
        "brigadier:float"@
    } else if id == 2 {
        "brigadier:double"@
    } else if id == 3 {
        "brigadier:integer"@
    } else if id == 4 {
        "brigadier:long"@
    } else if id == 5 {
        "brigadier:string"@
    } else if id == 6 {
        "minecraft:entity"@
    } else if id == 7 {
        "minecraft:game_profile"@
    } else if id == 8 {
        "minecraft:block_pos"@
    } else if id == 9 {
        "minecraft:column_pos"@
    } else if id == 10 {
        "minecraft:vec3"@
    } else if id == 11 {
        "minecraft:vec2"@
    } else if id == 12 {
        "minecraft:block_state"@
    } else if id == 13 {
        "minecraft:block_predicate"@
    } else if id == 14 {
        "minecraft:item_stack"@
    } else if id == 15 {
        "minecraft:item_predicate"@
    } else if id == 16 {
        "minecraft:color"@
    } else if id == 17 {
        "minecraft:component"@
    } else if id == 18 {
        "minecraft:message"@
    } else if id == 19 {
        "minecraft:nbt_compound_tag"@
    } else if id == 20 {
        "minecraft:nbt_tag"@
    } else if id == 21 {
        "minecraft:nbt_path"@
    } else if id == 22 {
        "minecraft:objective"@
    } else if id == 23 {
        "minecraft:objective_criteria"@
    } else if id == 24 {
        "minecraft:operation"@
    } else if id == 25 {
        "minecraft:particle"@
    } else if id == 26 {
        "minecraft:angle"@
    } else if id == 27 {
        "minecraft:rotation"@
    } else if id == 28 {
        "minecraft:scoreboard_slot"@
    } else if id == 29 {
        "minecraft:score_holder"@
    } else if id == 30 {
        "minecraft:swizzle"@
    } else if id == 31 {
        "minecraft:team"@
    } else if id == 32 {
        "minecraft:item_slot"@
    } else if id == 33 {
        "minecraft:resource_location"@
    } else if id == 34 {
        "minecraft:function"@
    } else if id == 35 {
        "minecraft:entity_anchor"@
    } else if id == 36 {
        "minecraft:int_range"@
    } else if id == 37 {
        "minecraft:float_range"@
    } else if id == 38 {
        "minecraft:dimension"@
    } else if id == 39 {
        "minecraft:gamemode"@
    } else if id == 40 {
        "minecraft:time"@
    } else if id == 41 {
        "minecraft:resource_or_tag"@
    } else if id == 42 {
        "minecraft:resource_or_tag_key"@
    } else if id == 43 {
        "minecraft:resource"@
    } else if id == 44 {
        "minecraft:resource_key"@
    } else if id == 45 {
        "minecraft:template_mirror"@
    } else if id == 46 {
        "minecraft:template_rotation"@
    } else if id == 47 {
        "minecraft:heightmap"@
    } else {
        "brigadier:string"@
    }
}

/// The index of a named parser (`-1` for an unknown name).
pub fn named_parser_to_id(name: &str) -> (id: i32)
    ensures
        id == parser_id_of_name(name@),
{
    if str_eq(name, "brigadier:bool") {
        return 0;
    }
    if str_eq(name, "brigadier:float") {
        return 1;
    }
    if str_eq(name, "brigadier:double") {
        return 2;
    }
    if str_eq(name, "brigadier:integer") {
        return 3;
    }
    if str_eq(name, "brigadier:long") {
        return 4;
    }
    if str_eq(name, "brigadier:string") {
        return 5;
    }
    if str_eq(name, "minecraft:entity") {
        return 6;
    }
    if str_eq(name, "minecraft:game_profile") {
        return 7;
    }
    if str_eq(name, "minecraft:block_pos") {
        return 8;
    }
    if str_eq(name, "minecraft:column_pos") {
        return 9;
    }
    if str_eq(name, "minecraft:vec3") {
        return 10;
    }
    if str_eq(name, "minecraft:vec2") {
        return 11;
    }
    if str_eq(name, "minecraft:block_state") {
        return 12;
    }
    if str_eq(name, "minecraft:block_predicate") {
        return 13;
    }
    if str_eq(name, "minecraft:item_stack") {
        return 14;
    }
    if str_eq(name, "minecraft:item_predicate") {
        return 15;
    }
    if str_eq(name, "minecraft:color") {
        return 16;
    }
    if str_eq(name, "minecraft:component") {
        return 17;
    }
    if str_eq(name, "minecraft:message") {
        return 18;
    }
    if str_eq(name, "minecraft:nbt_compound_tag") || str_eq(name, "minecraft:nbt") {
        return 19;
    }
    if str_eq(name, "minecraft:nbt_tag") {
        return 20;
    }
    if str_eq(name, "minecraft:nbt_path") {
        return 21;
    }
    if str_eq(name, "minecraft:objective") {
        return 22;
    }
    if str_eq(name, "minecraft:objective_criteria") {
        return 23;
    }
    if str_eq(name, "minecraft:operation") {
        return 24;
    }
    if str_eq(name, "minecraft:particle") {
        return 25;
    }
    if str_eq(name, "minecraft:angle") {
        return 26;
    }
    if str_eq(name, "minecraft:rotation") {
        return 27;
    }
    if str_eq(name, "minecraft:scoreboard_slot") {
        return 28;
    }
    if str_eq(name, "minecraft:score_holder") {
        return 29;
    }
    if str_eq(name, "minecraft:swizzle") {
        return 30;
    }
    if str_eq(name, "minecraft:team") {
        return 31;
    }
    if str_eq(name, "minecraft:item_slot") {
        return 32;
    }
    if str_eq(name, "minecraft:resource_location") {
        return 33;
    }
    if str_eq(name, "minecraft:function") {
        return 34;
    }
    if str_eq(name, "minecraft:entity_anchor") {
        return 35;
    }
    if str_eq(name, "minecraft:int_range") {
        return 36;
    }
    if str_eq(name, "minecraft:float_range") {
        return 37;
    }
    if str_eq(name, "minecraft:dimension") {
        return 38;
    }
    if str_eq(name, "minecraft:gamemode") {
        return 39;
    }
    if str_eq(name, "minecraft:time") {
        return 40;
    }
    if str_eq(name, "minecraft:resource_or_tag") {
        return 41;
    }
    if str_eq(name, "minecraft:resource_or_tag_key") {
        return 42;
    }
    if str_eq(name, "minecraft:resource") {
        return 43;
    }
    if str_eq(name, "minecraft:resource_key") {
        return 44;
    }
    if str_eq(name, "minecraft:template_mirror") {
        return 45;
    }
    if str_eq(name, "minecraft:template_rotation") {
        return 46;
    }
    if str_eq(name, "minecraft:heightmap") {
        return 47;
    }
    -1
}

/// The name of an indexed parser (`brigadier:string` for an unknown index).
pub fn indexed_parser_to_name(id: i32) -> (name: &'static str)
    ensures
        name@ == parser_name_of_id(id),
{
    match id {
        0 => "brigadier:bool",
        1 => "brigadier:float",
        2 => "brigadier:double",
        3 => "brigadier:integer",
        4 => "brigadier:long",
        5 => "brigadier:string",
        6 => "minecraft:entity",
        7 => "minecraft:game_profile",
        8 => "minecraft:block_pos",
        9 => "minecraft:column_pos",
        10 => "minecraft:vec3",
        11 => "minecraft:vec2",
        12 => "minecraft:block_state",
        13 => "minecraft:block_predicate",
        14 => "minecraft:item_stack",
        15 => "minecraft:item_predicate",
        16 => "minecraft:color",
        17 => "minecraft:component",
        18 => "minecraft:message",
        19 => "minecraft:nbt_compound_tag",
        20 => "minecraft:nbt_tag",
        21 => "minecraft:nbt_path",
        22 => "minecraft:objective",
        23 => "minecraft:objective_criteria",
        24 => "minecraft:operation",
        25 => "minecraft:particle",
        26 => "minecraft:angle",
        27 => "minecraft:rotation",
        28 => "minecraft:scoreboard_slot",
        29 => "minecraft:score_holder",
        30 => "minecraft:swizzle",
        31 => "minecraft:team",
        32 => "minecraft:item_slot",
        33 => "minecraft:resource_location",
        34 => "minecraft:function",
        35 => "minecraft:entity_anchor",
        36 => "minecraft:int_range",
        37 => "minecraft:float_range",
        38 => "minecraft:dimension",
        39 => "minecraft:gamemode",
        40 => "minecraft:time",
        41 => "minecraft:resource_or_tag",
        42 => "minecraft:resource_or_tag_key",
        43 => "minecraft:resource",
        44 => "minecraft:resource_key",
        45 => "minecraft:template_mirror",
        46 => "minecraft:template_rotation",
        47 => "minecraft:heightmap",
        _ => "brigadier:string",
    }
}

// ---------------------------------------------------------------------------
// Parser properties
// ---------------------------------------------------------------------------
/// The optional min and max of a numeric parser: a flags byte, then a
/// `width`-byte bound for each of its two low bits. The bytes are kept.
pub open spec fn p_range_props(s: Seq<u8>, width: nat) -> SpecParse<Seq<u8>> {
    match p_u8(s, eof()) {
        Err(e) => Err(e),
        Ok((flags, r1)) => {
            let min = if flags & 0x01 != 0 {
                p_bytes(r1, width, eof())
            } else {
                Ok((seq![], r1))
            };
            match min {
                Err(e) => Err(e),
                Ok((a, r2)) => {
                    let max = if flags & 0x02 != 0 {
                        p_bytes(r2, width, eof())
                    } else {
                        Ok((seq![], r2))
                    };
                    match max {
                        Err(e) => Err(e),
                        Ok((b, r3)) => Ok((seq![flags] + a + b, r3)),
                    }
                },
            }
        },
    }
}

/// The property bytes of the parser with index `id` (1.19 numbering), read
/// exactly as far as that parser needs and kept as they were on the wire.
pub open spec fn p_props(s: Seq<u8>, id: i32) -> SpecParse<Seq<u8>> {
    if id == 1 || id == 3 {
        p_range_props(s, 4)
    } else if id == 2 || id == 4 {
        p_range_props(s, 8)
    } else if id == 5 {
        match p_varint(s, eof()) {
            Err(e) => Err(e),
            Ok((mode, r)) => Ok((varint_bytes(mode), r)),
        }
    } else if id == 6 || id == 31 {
        match p_u8(s, eof()) {
            Err(e) => Err(e),
            Ok((b, r)) => Ok((seq![b], r)),
        }
    } else if id == 43 {
        p_bytes(s, 4, eof())
    } else if 44 <= id <= 47 {
        match p_string(s, MAX_STRING_CHARS as nat, eof()) {
            Err(e) => Err(e),
            Ok((text, r)) => Ok((string_bytes(text).unwrap(), r)),
        }
    } else {
        Ok((seq![], s))
    }
}

fn read_range_props(r: &mut &[u8], width: usize) -> (res: ProtocolResult<Vec<u8>>)
    requires
        width == 4 || width == 8,
    ensures
        crate::codec::spec::parsed(p_range_props(old(r)@, width as nat), res, final(r)@),
{
    let flags = match read_u8(r, true, "parser flags") {
        Ok(f) => f,
        Err(e) => return Err(e),
    };
    let mut buf: Vec<u8> = Vec::new();
    buf.push(flags);
    let ghost r1 = r@;
    let ghost a: Seq<u8> = seq![];
    if flags & 0x01 != 0 {
        match read_exact(r, width, true, "parser bound") {
            Ok(bytes) => {
                assert(bytes.deep_view() =~= bytes@);
                push_all(&mut buf, bytes.as_slice());
                proof {
                    a = bytes@;
                }
            },
            Err(e) => return Err(e),
        }
    }
    let ghost b: Seq<u8> = seq![];
    if flags & 0x02 != 0 {
        match read_exact(r, width, true, "parser bound") {
            Ok(bytes) => {
                assert(bytes.deep_view() =~= bytes@);
                push_all(&mut buf, bytes.as_slice());
                proof {
                    b = bytes@;
                }
            },
            Err(e) => return Err(e),
        }
    }
    assert(buf@ =~= seq![flags] + a + b);
    assert(buf.deep_view() =~= buf@);
    Ok(buf)
}

/// Reads the properties of the parser with index `id`.
fn read_parser_properties(r: &mut &[u8], id: i32) -> (res: ProtocolResult<Vec<u8>>)
    ensures
        crate::codec::spec::parsed(p_props(old(r)@, id), res, final(r)@),
{
    if id == 1 || id == 3 {
        read_range_props(r, 4)
    } else if id == 2 || id == 4 {
        read_range_props(r, 8)
    } else if id == 5 {
        match VarInt::read(r, true) {
            Ok(mode) => {
                let mut buf: Vec<u8> = Vec::new();
                mode.encode(&mut buf);
                assert(buf.deep_view() =~= buf@);
                Ok(buf)
            },
            Err(e) => Err(e),
        }
    } else if id == 6 || id == 31 {
        match read_u8(r, true, "parser flags") {
            Ok(b) => {
                let mut buf: Vec<u8> = Vec::new();
                buf.push(b);
                assert(buf.deep_view() =~= seq![b]);
                Ok(buf)
            },
            Err(e) => Err(e),
        }
    } else if id == 43 {
        read_exact(r, 4, true, "parser properties")
    } else if 44 <= id && id <= 47 {
        match read_string(r, MAX_STRING_CHARS, true) {
            Ok(text) => {
                let mut buf: Vec<u8> = Vec::new();
                match encode_string(text.as_str(), &mut buf) {
                    Ok(()) => {},
                    Err(e) => return Err(e),
                }
                assert(buf.deep_view() =~= buf@);
                assert(buf@ =~= string_bytes(text@).unwrap());
                Ok(buf)
            },
            Err(e) => Err(e),
        }
    } else {
        let buf: Vec<u8> = Vec::new();
        assert(buf.deep_view() =~= seq![]);
        Ok(buf)
    }
}

// ---------------------------------------------------------------------------
// Parsers and nodes on the wire
// ---------------------------------------------------------------------------
/// A parser: from 1.19 a `VarInt` index, before 1.19 an identifier (whose
/// properties are read as those of the index it maps to); then its properties.
pub open spec fn p_parser(s: Seq<u8>, version: i32) -> SpecParse<ParserView> {
    if version >= V1_19 {
        match p_varint(s, eof()) {
            Err(e) => Err(e),
            Ok((id, r1)) => match p_props(r1, id) {
                Err(e) => Err(e),
                Ok((props, r2)) => Ok((ParserView::Indexed { id, properties: props }, r2)),
            },
        }
    } else {
        match p_string(s, MAX_STRING_CHARS as nat, eof()) {
            Err(e) => Err(e),
            Ok((ident, r1)) => match p_props(r1, parser_id_of_name(ident)) {
                Err(e) => Err(e),
                Ok((props, r2)) => Ok(
                    (ParserView::Named { identifier: ident, properties: props }, r2),
                ),
            },
        }
    }
}

/// `n` `VarInt`s.
pub open spec fn p_varints(s: Seq<u8>, n: nat) -> SpecParse<Seq<i32>>
    decreases n,
{
    if n == 0 {
        Ok((seq![], s))
    } else {
        match p_varint(s, eof()) {
            Err(e) => Err(e),
            Ok((v, r1)) => match p_varints(r1, (n - 1) as nat) {
                Err(e) => Err(e),
                Ok((vs, r2)) => Ok((seq![v] + vs, r2)),
            },
        }
    }
}

/// An optional string, present when `present`.
pub open spec fn p_opt_string(s: Seq<u8>, present: bool) -> SpecParse<Option<Seq<char>>> {
    if present {
        match p_string(s, MAX_STRING_CHARS as nat, eof()) {
            Err(e) => Err(e),
            Ok((t, r)) => Ok((Some(t), r)),
        }
    } else {
        Ok((None, s))
    }
}

/// A node: flags, `VarInt`-counted children (a negative count is
/// `Invalid`), the redirect target when its flag is set, then by type:
/// nothing (root), a name (literal), or a name, a parser and, when its flag
/// is set, a suggestion type (argument). Type 3 is `Invalid`.
#[verifier::opaque]
pub open spec fn p_node(s: Seq<u8>, version: i32) -> SpecParse<CommandNodeView> {
    match p_u8(s, eof()) {
        Err(e) => Err(e),
        Ok((flags, r1)) => match p_varint(r1, eof()) {
            Err(e) => Err(e),
            Ok((count, r2)) => if count < 0 {
                Err(ErrorClass::Invalid)
            } else {
                match p_varints(r2, count as nat) {
                    Err(e) => Err(e),
                    Ok((children, r3)) => {
                        let redirect = if flags & FLAG_REDIRECT != 0 {
                            match p_varint(r3, eof()) {
                                Err(e) => Err(e),
                                Ok((t, r)) => Ok((Some(t), r)),
                            }
                        } else {
                            Ok((None, r3))
                        };
                        match redirect {
                            Err(e) => Err(e),
                            Ok((redirect_node, r4)) => {
                                let t = flags & NODE_TYPE_MASK;
                                if t == NODE_TYPE_ROOT {
                                    Ok(
                                        (
                                            CommandNodeView {
                                                flags,
                                                children,
                                                redirect_node,
                                                name: None,
                                                parser: None,
                                                suggestions_type: None,
                                            },
                                            r4,
                                        ),
                                    )
                                } else if t == NODE_TYPE_LITERAL {
                                    match p_string(r4, MAX_STRING_CHARS as nat, eof()) {
                                        Err(e) => Err(e),
                                        Ok((name, r5)) => Ok(
                                            (
                                                CommandNodeView {
                                                    flags,
                                                    children,
                                                    redirect_node,
                                                    name: Some(name),
                                                    parser: None,
                                                    suggestions_type: None,
                                                },
                                                r5,
                                            ),
                                        ),
                                    }
                                } else if t == NODE_TYPE_ARGUMENT {
                                    match p_string(r4, MAX_STRING_CHARS as nat, eof()) {
                                        Err(e) => Err(e),
                                        Ok((name, r5)) => match p_parser(r5, version) {
                                            Err(e) => Err(e),
                                            Ok((parser, r6)) => match p_opt_string(
                                                r6,
                                                flags & FLAG_SUGGESTIONS != 0,
                                            ) {
                                                Err(e) => Err(e),
                                                Ok((sugg, r7)) => Ok(
                                                    (
                                                        CommandNodeView {
                                                            flags,
                                                            children,
                                                            redirect_node,
                                                            name: Some(name),
                                                            parser: Some(parser),
                                                            suggestions_type: sugg,
                                                        },
                                                        r7,
                                                    ),
                                                ),
                                            },
                                        },
                                    }
                                } else {
                                    Err(ErrorClass::Invalid)
                                }
                            },
                        }
                    },
                }
            },
        },
    }
}

/// `n` nodes.
pub open spec fn p_nodes(s: Seq<u8>, version: i32, n: nat) -> SpecParse<Seq<CommandNodeView>>
    decreases n,
{
    if n == 0 {
        Ok((seq![], s))
    } else {
        match p_node(s, version) {
            Err(e) => Err(e),
            Ok((node, r1)) => match p_nodes(r1, version, (n - 1) as nat) {
                Err(e) => Err(e),
                Ok((ns, r2)) => Ok((seq![node] + ns, r2)),
            },
        }
    }
}

/// The bytes of a sequence of `VarInt`s.
pub open spec fn varints_bytes(vs: Seq<i32>) -> Seq<u8>
    decreases vs.len(),
{
    if vs.len() == 0 {
        seq![]
    } else {
        varints_bytes(vs.drop_last()) + varint_bytes(vs.last())
    }
}

/// The bytes of a parser: its index (from 1.19, a named parser's mapped
/// index) or its identifier (before 1.19, an indexed parser's name), then
/// its raw properties.
pub open spec fn parser_bytes(p: ParserView, version: i32) -> Result<Seq<u8>, ErrorClass> {
    match p {
        ParserView::Indexed { id, properties } => if version >= V1_19 {
            Ok(varint_bytes(id) + properties)
        } else {
            match string_bytes(parser_name_of_id(id)) {
                Err(e) => Err(e),
                Ok(b) => Ok(b + properties),
            }
        },
        ParserView::Named { identifier, properties } => if version >= V1_19 {
            Ok(varint_bytes(parser_id_of_name(identifier)) + properties)
        } else {
            match string_bytes(identifier) {
                Err(e) => Err(e),
                Ok(b) => Ok(b + properties),
            }
        },
    }
}

/// The bytes of an optional string: nothing when absent.
pub open spec fn opt_string_bytes(s: Option<Seq<char>>) -> Result<Seq<u8>, ErrorClass> {
    match s {
        Some(t) => string_bytes(t),
        None => Ok(seq![]),
    }
}

/// The bytes of the type-dependent tail of a node: nothing for a root (or
/// an unknown type), the name for a literal, and the name, parser and
/// suggestion type for an argument, each only when present.
pub open spec fn node_tail_bytes(n: CommandNodeView, version: i32) -> Result<Seq<u8>, ErrorClass> {
    let t = n.flags & NODE_TYPE_MASK;
    if t == NODE_TYPE_LITERAL {
        opt_string_bytes(n.name)
    } else if t == NODE_TYPE_ARGUMENT {
        match opt_string_bytes(n.name) {
            Err(e) => Err(e),
            Ok(a) => match (match n.parser {
                Some(p) => parser_bytes(p, version),
                None => Ok(seq![]),
            }) {
                Err(e) => Err(e),
                Ok(b) => match opt_string_bytes(n.suggestions_type) {
                    Err(e) => Err(e),
                    Ok(c) => Ok(a + b + c),
                },
            },
        }
    } else {
        Ok(seq![])
    }
}

/// The bytes of a node: flags, the children count (as an `i32`) and the
/// children, the redirect target when present, then its tail.
pub open spec fn node_bytes(n: CommandNodeView, version: i32) -> Result<Seq<u8>, ErrorClass> {
    match node_tail_bytes(n, version) {
        Err(e) => Err(e),
        Ok(tail) => Ok(
            seq![n.flags] + varint_bytes(n.children.len() as i32) + varints_bytes(n.children) + (
            match n.redirect_node {
                Some(t) => varint_bytes(t),
                None => seq![],
            }) + tail,
        ),
    }
}

/// The bytes of a sequence of nodes; the first node that fails decides.
pub open spec fn nodes_bytes(ns: Seq<CommandNodeView>, version: i32) -> Result<Seq<u8>, ErrorClass>
    decreases ns.len(),
{
    if ns.len() == 0 {
        Ok(seq![])
    } else {
        match nodes_bytes(ns.drop_last(), version) {
            Err(e) => Err(e),
            Ok(a) => match node_bytes(ns.last(), version) {
                Err(e) => Err(e),
                Ok(b) => Ok(a + b),
            },
        }
    }
}

fn read_varints(r: &mut &[u8], count: i32) -> (res: ProtocolResult<Vec<i32>>)
    requires
        count >= 0,
    ensures
        match p_varints(old(r)@, count as nat) {
            Ok((vs, rest)) => res matches Ok(v) && v@ == vs && final(r)@ == rest,
            Err(c) => res matches Err(e) && e.class() == c,
        },
{
    let ghost s0 = r@;
    let mut out: Vec<i32> = Vec::new();
    let mut i: i32 = 0;
    while i < count
        invariant
            0 <= i <= count,
            s0 == old(r)@,
            p_varints(s0, count as nat) == match p_varints(r@, (count - i) as nat) {
                Ok((vs, rest)) => Ok((out@ + vs, rest)),
                Err(e) => Err(e),
            },
        decreases count - i,
    {
        let ghost before = r@;
        let ghost prev = out@;
        let v = match VarInt::read(r, true) {
            Ok(v) => v.0,
            Err(e) => return Err(e),
        };
        out.push(v);
        i = i + 1;
        proof {
            match p_varints(r@, (count - i) as nat) {
                Ok((vs, rest)) => {
                    assert(prev + (seq![v] + vs) =~= out@ + vs);
                },
                Err(_) => {},
            }
        }
    }
    assert(out@ + seq![] =~= out@);
    Ok(out)
}

fn write_varints(w: &[i32], out: &mut Vec<u8>)
    ensures
        final(out)@ == old(out)@ + varints_bytes(w@),
{
    let n = w.len();
    let mut i: usize = 0;
    while i < n
        invariant
            i <= n,
            n == w@.len(),
            out@ == old(out)@ + varints_bytes(w@.take(i as int)),
        decreases n - i,
    {
        VarInt(w[i]).encode(out);
        assert(w@.take(i + 1).drop_last() =~= w@.take(i as int));
        i = i + 1;
        assert(out@ =~= old(out)@ + varints_bytes(w@.take(i as int)));
    }
    assert(w@.take(n as int) =~= w@);
}

fn read_opt_string(r: &mut &[u8], present: bool) -> (res: ProtocolResult<Option<String>>)
    ensures
        match p_opt_string(old(r)@, present) {
            Ok((v, rest)) => res matches Ok(o) && opt_str_view(o) == v && final(r)@ == rest,
            Err(c) => res matches Err(e) && e.class() == c,
        },
{
    if present {
        match read_string(r, MAX_STRING_CHARS, true) {
            Ok(s) => Ok(Some(s)),
            Err(e) => Err(e),
        }
    } else {
        Ok(None)
    }
}

fn write_opt_string(s: &Option<String>, w: &mut Vec<u8>) -> (res: ProtocolResult<()>)
    ensures
        crate::codec::spec::written(opt_string_bytes(opt_str_view(*s)), res, old(w)@, final(w)@),
{
    match s {
        Some(t) => encode_string(t.as_str(), w),
        None => {
            assert(w@ =~= old(w)@ + seq![]);
            Ok(())
        },
    }
}

fn decode_parser(r: &mut &[u8], version: ProtocolVersion) -> (res: ProtocolResult<Parser>)
    ensures
        crate::codec::spec::parsed_view(p_parser(old(r)@, version.0), res, final(r)@),
{
    if version.no_less_than(ProtocolVersion(V1_19)) {
        let id = match VarInt::read(r, true) {
            Ok(v) => v.0,
            Err(e) => return Err(e),
        };
        match read_parser_properties(r, id) {
            Ok(properties) => {
                assert(properties.deep_view() =~= properties@);
                Ok(Parser::Indexed { id, properties })
            },
            Err(e) => Err(e),
        }
    } else {
        let identifier = match read_string(r, MAX_STRING_CHARS, true) {
            Ok(s) => s,
            Err(e) => return Err(e),
        };
        let id = named_parser_to_id(identifier.as_str());
        match read_parser_properties(r, id) {
            Ok(properties) => {
                assert(properties.deep_view() =~= properties@);
                Ok(Parser::Named { identifier, properties })
            },
            Err(e) => Err(e),
        }
    }
}

fn encode_parser(parser: &Parser, w: &mut Vec<u8>, version: ProtocolVersion) -> (res: ProtocolResult<()>)
    ensures
        crate::codec::spec::written(parser_bytes(parser@, version.0), res, old(w)@, final(w)@),
{
    match parser {
        Parser::Indexed { id, properties } => {
            if version.no_less_than(ProtocolVersion(V1_19)) {
                VarInt(*id).encode(w);
            } else {
                let name = indexed_parser_to_name(*id);
                match encode_string(name, w) {
                    Ok(()) => {},
                    Err(e) => return Err(e),
                }
            }
            push_all(w, properties.as_slice());
        },
        Parser::Named { identifier, properties } => {
            if version.no_less_than(ProtocolVersion(V1_19)) {
                let id = named_parser_to_id(identifier.as_str());
                VarInt(id).encode(w);
            } else {
                match encode_string(identifier.as_str(), w) {
                    Ok(()) => {},
                    Err(e) => return Err(e),
                }
            }
            push_all(w, properties.as_slice());
        },
    }
    assert(w@ =~= old(w)@ + parser_bytes(parser@, version.0).unwrap());
    Ok(())
}

fn decode_node(r: &mut &[u8], version: ProtocolVersion) -> (res: ProtocolResult<CommandNode>)
    ensures
        crate::codec::spec::parsed_view(p_node(old(r)@, version.0), res, final(r)@),
{
    reveal(p_node);
    let flags = match read_u8(r, true, "node flags") {
        Ok(f) => f,
        Err(e) => return Err(e),
    };
    let child_count = match VarInt::read(r, true) {
        Ok(v) => v.0,
        Err(e) => return Err(e),
    };
    if child_count < 0 {
        return Err(ProtocolError::invalid("negative child count"));
    }
    let children = match read_varints(r, child_count) {
        Ok(c) => c,
        Err(e) => return Err(e),
    };
    let redirect_node = if flags & FLAG_REDIRECT != 0 {
        match VarInt::read(r, true) {
            Ok(v) => Some(v.0),
            Err(e) => return Err(e),
        }
    } else {
        None
    };
    let node_type = flags & NODE_TYPE_MASK;
    if node_type == NODE_TYPE_ROOT {
        Ok(CommandNode { flags, children, redirect_node, name: None, parser: None, suggestions_type: None })
    } else if node_type == NODE_TYPE_LITERAL {
        let name = match read_string(r, MAX_STRING_CHARS, true) {
            Ok(s) => s,
            Err(e) => return Err(e),
        };
        Ok(CommandNode {
            flags,
            children,
            redirect_node,
            name: Some(name),
            parser: None,
            suggestions_type: None,
        })
    } else if node_type == NODE_TYPE_ARGUMENT {
        let name = match read_string(r, MAX_STRING_CHARS, true) {
            Ok(s) => s,
            Err(e) => return Err(e),
        };
        let parser = match decode_parser(r, version) {
            Ok(p) => p,
            Err(e) => return Err(e),
        };
        let suggestions_type = match read_opt_string(r, flags & FLAG_SUGGESTIONS != 0) {
            Ok(s) => s,
            Err(e) => return Err(e),
        };
        Ok(CommandNode {
            flags,
            children,
            redirect_node,
            name: Some(name),
            parser: Some(parser),
            suggestions_type,
        })
    } else {
        Err(ProtocolError::invalid("unknown command node type"))
    }
}

#[verifier::spinoff_prover]
#[verifier::rlimit(30)]
fn encode_node(node: &CommandNode, w: &mut Vec<u8>, version: ProtocolVersion) -> (res: ProtocolResult<()>)
    ensures
        crate::codec::spec::written(node_bytes(node@, version.0), res, old(w)@, final(w)@),
{
    w.push(node.flags);
    VarInt(node.children.len() as i32).encode(w);
    write_varints(node.children.as_slice(), w);
    match node.redirect_node {
        Some(t) => {
            VarInt(t).encode(w);
        },
        None => {},
    }
    let ghost head = w@;
    let node_type = node.flags & NODE_TYPE_MASK;
    if node_type == NODE_TYPE_LITERAL {
        match write_opt_string(&node.name, w) {
            Ok(()) => {},
            Err(e) => return Err(e),
        }
    } else if node_type == NODE_TYPE_ARGUMENT {
        match write_opt_string(&node.name, w) {
            Ok(()) => {},
            Err(e) => return Err(e),
        }
        let ghost a = w@;
        match &node.parser {
            Some(p) => {
                match encode_parser(p, w, version) {
                    Ok(()) => {},
                    Err(e) => return Err(e),
                }
            },
            None => {},
        }
        let ghost b = w@;
        match write_opt_string(&node.suggestions_type, w) {
            Ok(()) => {},
            Err(e) => return Err(e),
        }
        assert(w@ =~= head + node_tail_bytes(node@, version.0).unwrap());
    }
    assert(w@ =~= old(w)@ + node_bytes(node@, version.0).unwrap());
    Ok(())
}

proof fn lemma_nodes_bytes_prefix_err(ns: Seq<CommandNodeView>, version: i32, k: int)
    requires
        0 <= k <= ns.len(),
        nodes_bytes(ns.take(k), version) is Err,
    ensures
        nodes_bytes(ns, version) == nodes_bytes(ns.take(k), version),
    decreases ns.len() - k,
{
    if k < ns.len() {
        let m = ns.drop_last();
        assert(m.take(k) =~= ns.take(k));
        lemma_nodes_bytes_prefix_err(m, version, k);
    } else {
        assert(ns.take(k) =~= ns);
    }
}

impl Packet for CCommands {
    open spec fn packet_state() -> ConnectionState {
        ConnectionState::Play
    }

    open spec fn packet_direction() -> Direction {
        Direction::Clientbound
    }

    /// A `VarInt` node count (negative is `Invalid`), the nodes, then the
    /// `VarInt` root index.
    open spec fn parse(s: Seq<u8>, version: i32) -> SpecParse<CCommandsView> {
        match p_varint(s, eof()) {
            Err(e) => Err(e),
            Ok((count, r1)) => if count < 0 {
                Err(ErrorClass::Invalid)
            } else {
                match p_nodes(r1, version, count as nat) {
                    Err(e) => Err(e),
                    Ok((nodes, r2)) => match p_varint(r2, eof()) {
                        Err(e) => Err(e),
                        Ok((root, r3)) => Ok((CCommandsView { nodes, root_index: root }, r3)),
                    },
                }
            },
        }
    }

    open spec fn encoding(p: CCommandsView, version: i32) -> Result<Seq<u8>, ErrorClass> {
        match nodes_bytes(p.nodes, version) {
            Err(e) => Err(e),
            Ok(b) => Ok(varint_bytes(p.nodes.len() as i32) + b + varint_bytes(p.root_index)),
        }
    }

    open spec fn name_text() -> Seq<char> {
        "CCommands"@
    }

    fn name() -> (s: &'static str) {
        "CCommands"
    }

    open spec fn packet_kind() -> PacketKind {
        PacketKind::CCommands
    }

    fn kind() -> (k: PacketKind) {
        PacketKind::CCommands
    }

    fn state() -> (s: ConnectionState) {
        ConnectionState::Play
    }

    fn direction() -> (d: Direction) {
        Direction::Clientbound
    }

    fn decode(r: &mut &[u8], version: ProtocolVersion) -> (res: ProtocolResult<CCommands>) {
        let count = match VarInt::read(r, true) {
            Ok(v) => v.0,
            Err(e) => return Err(e),
        };
        if count < 0 {
            return Err(ProtocolError::invalid("negative node count"));
        }
        let ghost s0 = r@;
        let ghost mut acc: Seq<CommandNodeView> = seq![];
        let mut nodes: Vec<CommandNode> = Vec::new();
        let mut i: i32 = 0;
        while i < count
            invariant
                0 <= i <= count,
                p_varint(old(r)@, eof()) == Ok::<(i32, Seq<u8>), ErrorClass>((count, s0)),
                acc.len() == nodes@.len(),
                forall|k: int| 0 <= k < acc.len() ==> acc[k] == #[trigger] nodes@[k]@,
                p_nodes(s0, version.0, count as nat) == match p_nodes(
                    r@,
                    version.0,
                    (count - i) as nat,
                ) {
                    Ok((ns, rest)) => Ok((acc + ns, rest)),
                    Err(e) => Err(e),
                },
            decreases count - i,
        {
            let node = match decode_node(r, version) {
                Ok(n) => n,
                Err(e) => return Err(e),
            };
            let ghost nv = node@;
            nodes.push(node);
            i = i + 1;
            proof {
                let prev = acc;
                acc = acc.push(nv);
                match p_nodes(r@, version.0, (count - i) as nat) {
                    Ok((ns, rest)) => {
                        assert(prev + (seq![nv] + ns) =~= acc + ns);
                    },
                    Err(_) => {},
                }
            }
        }
        assert(nodes@.map_values(|n: CommandNode| n@) =~= acc);
        assert(acc + seq![] =~= acc);
        let root_index = match VarInt::read(r, true) {
            Ok(v) => v.0,
            Err(e) => return Err(e),
        };
        Ok(CCommands { nodes, root_index })
    }

    fn encode(&self, w: &mut Vec<u8>, version: ProtocolVersion) -> (res: ProtocolResult<()>) {
        let ghost vs = self@.nodes;
        VarInt(self.nodes.len() as i32).encode(w);
        let ghost start = w@;
        let n = self.nodes.len();
        let mut i: usize = 0;
        while i < n
            invariant
                i <= n,
                n == self.nodes@.len(),
                vs == self.nodes@.map_values(|x: CommandNode| x@),
                nodes_bytes(vs.take(i as int), version.0) is Ok,
                w@ == start + nodes_bytes(vs.take(i as int), version.0).unwrap(),
            decreases n - i,
        {
            assert(vs.take(i + 1).drop_last() =~= vs.take(i as int));
            assert(vs[i as int] == self.nodes@[i as int]@);
            match encode_node(&self.nodes[i], w, version) {
                Ok(()) => {},
                Err(e) => {
                    proof {
                        lemma_nodes_bytes_prefix_err(vs, version.0, i + 1);
                    }
                    return Err(e);
                },
            }
            i = i + 1;
        }
        assert(vs.take(n as int) =~= vs);
        VarInt(self.root_index).encode(w);
        assert(w@ =~= old(w)@ + Self::encoding(self@, version.0).unwrap());
        Ok(())
    }
}

/// The index of each indexed parser's name is that index: naming a parser
/// and looking the name up again gives the parser back.
#[verifier::spinoff_prover]
pub proof fn law_parser_name_round_trip(id: i32)
    requires
        0 <= id <= 47,
    ensures
        parser_id_of_name(parser_name_of_id(id)) == id,
{
    reveal_strlit("brigadier:bool");
    reveal_strlit("brigadier:float");
    reveal_strlit("brigadier:double");
    reveal_strlit("brigadier:integer");
    reveal_strlit("brigadier:long");
    reveal_strlit("brigadier:string");
    reveal_strlit("minecraft:entity");
    reveal_strlit("minecraft:game_profile");
    reveal_strlit("minecraft:block_pos");
    reveal_strlit("minecraft:column_pos");
    reveal_strlit("minecraft:vec3");
    reveal_strlit("minecraft:vec2");
    reveal_strlit("minecraft:block_state");
    reveal_strlit("minecraft:block_predicate");
    reveal_strlit("minecraft:item_stack");
    reveal_strlit("minecraft:item_predicate");
    reveal_strlit("minecraft:color");
    reveal_strlit("minecraft:component");
    reveal_strlit("minecraft:message");
    reveal_strlit("minecraft:nbt_compound_tag");
    reveal_strlit("minecraft:nbt_tag");
    reveal_strlit("minecraft:nbt_path");
    reveal_strlit("minecraft:objective");
    reveal_strlit("minecraft:objective_criteria");
    reveal_strlit("minecraft:operation");
    reveal_strlit("minecraft:particle");
    reveal_strlit("minecraft:angle");
    reveal_strlit("minecraft:rotation");
    reveal_strlit("minecraft:scoreboard_slot");
    reveal_strlit("minecraft:score_holder");
    reveal_strlit("minecraft:swizzle");
    reveal_strlit("minecraft:team");
    reveal_strlit("minecraft:item_slot");
    reveal_strlit("minecraft:resource_location");
    reveal_strlit("minecraft:function");
    reveal_strlit("minecraft:entity_anchor");
    reveal_strlit("minecraft:int_range");
    reveal_strlit("minecraft:float_range");
    reveal_strlit("minecraft:dimension");
    reveal_strlit("minecraft:gamemode");
    reveal_strlit("minecraft:time");
    reveal_strlit("minecraft:resource_or_tag");
    reveal_strlit("minecraft:resource_or_tag_key");
    reveal_strlit("minecraft:resource");
    reveal_strlit("minecraft:resource_key");
    reveal_strlit("minecraft:template_mirror");
    reveal_strlit("minecraft:template_rotation");
    reveal_strlit("minecraft:heightmap");
    reveal_strlit("minecraft:nbt");
    // No two names agree in length and in their 11th and 14th characters.
    assert("brigadier:bool"@.len() == 14 && "brigadier:bool"@[10] == 'b' && "brigadier:bool"@[13] == 'l');
    assert("brigadier:float"@.len() == 15 && "brigadier:float"@[10] == 'f' && "brigadier:float"@[13] == 'a');
    assert("brigadier:double"@.len() == 16 && "brigadier:double"@[10] == 'd' && "brigadier:double"@[13] == 'b');
    assert("brigadier:integer"@.len() == 17 && "brigadier:integer"@[10] == 'i' && "brigadier:integer"@[13] == 'e');
    assert("brigadier:long"@.len() == 14 && "brigadier:long"@[10] == 'l' && "brigadier:long"@[13] == 'g');
    assert("brigadier:string"@.len() == 16 && "brigadier:string"@[10] == 's' && "brigadier:string"@[13] == 'i');
    assert("minecraft:entity"@.len() == 16 && "minecraft:entity"@[10] == 'e' && "minecraft:entity"@[13] == 'i');
    assert("minecraft:game_profile"@.len() == 22 && "minecraft:game_profile"@[10] == 'g' && "minecraft:game_profile"@[13] == 'e');
    assert("minecraft:block_pos"@.len() == 19 && "minecraft:block_pos"@[10] == 'b' && "minecraft:block_pos"@[13] == 'c');
    assert("minecraft:column_pos"@.len() == 20 && "minecraft:column_pos"@[10] == 'c' && "minecraft:column_pos"@[13] == 'u');
    assert("minecraft:vec3"@.len() == 14 && "minecraft:vec3"@[10] == 'v' && "minecraft:vec3"@[13] == '3');
    assert("minecraft:vec2"@.len() == 14 && "minecraft:vec2"@[10] == 'v' && "minecraft:vec2"@[13] == '2');
    assert("minecraft:block_state"@.len() == 21 && "minecraft:block_state"@[10] == 'b' && "minecraft:block_state"@[13] == 'c');
    assert("minecraft:block_predicate"@.len() == 25 && "minecraft:block_predicate"@[10] == 'b' && "minecraft:block_predicate"@[13] == 'c');
    assert("minecraft:item_stack"@.len() == 20 && "minecraft:item_stack"@[10] == 'i' && "minecraft:item_stack"@[13] == 'm');
    assert("minecraft:item_predicate"@.len() == 24 && "minecraft:item_predicate"@[10] == 'i' && "minecraft:item_predicate"@[13] == 'm');
    assert("minecraft:color"@.len() == 15 && "minecraft:color"@[10] == 'c' && "minecraft:color"@[13] == 'o');
    assert("minecraft:component"@.len() == 19 && "minecraft:component"@[10] == 'c' && "minecraft:component"@[13] == 'p');
    assert("minecraft:message"@.len() == 17 && "minecraft:message"@[10] == 'm' && "minecraft:message"@[13] == 's');
    assert("minecraft:nbt_compound_tag"@.len() == 26 && "minecraft:nbt_compound_tag"@[10] == 'n' && "minecraft:nbt_compound_tag"@[13] == '_');
    assert("minecraft:nbt_tag"@.len() == 17 && "minecraft:nbt_tag"@[10] == 'n' && "minecraft:nbt_tag"@[13] == '_');
    assert("minecraft:nbt_path"@.len() == 18 && "minecraft:nbt_path"@[10] == 'n' && "minecraft:nbt_path"@[13] == '_');
    assert("minecraft:objective"@.len() == 19 && "minecraft:objective"@[10] == 'o' && "minecraft:objective"@[13] == 'e');
    assert("minecraft:objective_criteria"@.len() == 28 && "minecraft:objective_criteria"@[10] == 'o' && "minecraft:objective_criteria"@[13] == 'e');
    assert("minecraft:operation"@.len() == 19 && "minecraft:operation"@[10] == 'o' && "minecraft:operation"@[13] == 'r');
    assert("minecraft:particle"@.len() == 18 && "minecraft:particle"@[10] == 'p' && "minecraft:particle"@[13] == 't');
    assert("minecraft:angle"@.len() == 15 && "minecraft:angle"@[10] == 'a' && "minecraft:angle"@[13] == 'l');
    assert("minecraft:rotation"@.len() == 18 && "minecraft:rotation"@[10] == 'r' && "minecraft:rotation"@[13] == 'a');
    assert("minecraft:scoreboard_slot"@.len() == 25 && "minecraft:scoreboard_slot"@[10] == 's' && "minecraft:scoreboard_slot"@[13] == 'r');
    assert("minecraft:score_holder"@.len() == 22 && "minecraft:score_holder"@[10] == 's' && "minecraft:score_holder"@[13] == 'r');
    assert("minecraft:swizzle"@.len() == 17 && "minecraft:swizzle"@[10] == 's' && "minecraft:swizzle"@[13] == 'z');
    assert("minecraft:team"@.len() == 14 && "minecraft:team"@[10] == 't' && "minecraft:team"@[13] == 'm');
    assert("minecraft:item_slot"@.len() == 19 && "minecraft:item_slot"@[10] == 'i' && "minecraft:item_slot"@[13] == 'm');
    assert("minecraft:resource_location"@.len() == 27 && "minecraft:resource_location"@[10] == 'r' && "minecraft:resource_location"@[13] == 'o');
    assert("minecraft:function"@.len() == 18 && "minecraft:function"@[10] == 'f' && "minecraft:function"@[13] == 'c');
    assert("minecraft:entity_anchor"@.len() == 23 && "minecraft:entity_anchor"@[10] == 'e' && "minecraft:entity_anchor"@[13] == 'i');
    assert("minecraft:int_range"@.len() == 19 && "minecraft:int_range"@[10] == 'i' && "minecraft:int_range"@[13] == '_');
    assert("minecraft:float_range"@.len() == 21 && "minecraft:float_range"@[10] == 'f' && "minecraft:float_range"@[13] == 'a');
    assert("minecraft:dimension"@.len() == 19 && "minecraft:dimension"@[10] == 'd' && "minecraft:dimension"@[13] == 'e');
    assert("minecraft:gamemode"@.len() == 18 && "minecraft:gamemode"@[10] == 'g' && "minecraft:gamemode"@[13] == 'e');
    assert("minecraft:time"@.len() == 14 && "minecraft:time"@[10] == 't' && "minecraft:time"@[13] == 'e');
    assert("minecraft:resource_or_tag"@.len() == 25 && "minecraft:resource_or_tag"@[10] == 'r' && "minecraft:resource_or_tag"@[13] == 'o');
    assert("minecraft:resource_or_tag_key"@.len() == 29 && "minecraft:resource_or_tag_key"@[10] == 'r' && "minecraft:resource_or_tag_key"@[13] == 'o');
    assert("minecraft:resource"@.len() == 18 && "minecraft:resource"@[10] == 'r' && "minecraft:resource"@[13] == 'o');
    assert("minecraft:resource_key"@.len() == 22 && "minecraft:resource_key"@[10] == 'r' && "minecraft:resource_key"@[13] == 'o');
    assert("minecraft:template_mirror"@.len() == 25 && "minecraft:template_mirror"@[10] == 't' && "minecraft:template_mirror"@[13] == 'p');
    assert("minecraft:template_rotation"@.len() == 27 && "minecraft:template_rotation"@[10] == 't' && "minecraft:template_rotation"@[13] == 'p');
    assert("minecraft:heightmap"@.len() == 19 && "minecraft:heightmap"@[10] == 'h' && "minecraft:heightmap"@[13] == 'g');
    assert("minecraft:nbt"@.len() == 13 && "minecraft:nbt"@[10] == 'n');
}

/// The bounds that a numeric parser's flags announce: the minimum when bit 0
/// is set, the maximum when bit 1 is set.
pub open spec fn announced_bounds(flags: u8, min: Seq<u8>, max: Seq<u8>) -> Seq<u8> {
    seq![flags] + (if flags & 0x01 != 0 { min } else { seq![] }) + (if flags & 0x02 != 0 {
        max
    } else {
        seq![]
    })
}

proof fn lemma_range_props_width(flags: u8, min: Seq<u8>, max: Seq<u8>, rest: Seq<u8>, width: nat)
    requires
        min.len() == width,
        max.len() == width,
    ensures
        p_range_props(announced_bounds(flags, min, max) + rest, width) == Ok::<(Seq<u8>, Seq<u8>), ErrorClass>(
            (announced_bounds(flags, min, max), rest),
        ),
{
    let a = if flags & 0x01 != 0 { min } else { seq![] };
    let b = if flags & 0x02 != 0 { max } else { seq![] };
    let s = announced_bounds(flags, min, max) + rest;
    assert(s =~= seq![flags] + (a + (b + rest)));
    assert(s.skip(1) =~= a + (b + rest));
    assert((a + (b + rest)).take(a.len() as int) =~= a);
    assert((a + (b + rest)).skip(a.len() as int) =~= b + rest);
    assert((b + rest).take(b.len() as int) =~= b);
    assert((b + rest).skip(b.len() as int) =~= rest);
    if flags & 0x01 == 0 {
        assert(a + (b + rest) =~= b + rest);
    }
    if flags & 0x02 == 0 {
        assert(b + rest =~= rest);
    }
}

/// The numeric parsers' bounds are 4 bytes each for `brigadier:float` (1)
/// and `brigadier:integer` (3), 8 bytes each for `brigadier:double` (2) and
/// `brigadier:long` (4): their properties are read exactly that far, kept
/// as they were on the wire, and what follows is left untouched.
pub proof fn law_numeric_parser_bound_widths(
    flags: u8,
    min4: Seq<u8>,
    max4: Seq<u8>,
    min8: Seq<u8>,
    max8: Seq<u8>,
    rest: Seq<u8>,
)
    requires
        min4.len() == 4,
        max4.len() == 4,
        min8.len() == 8,
        max8.len() == 8,
    ensures
        p_props(announced_bounds(flags, min4, max4) + rest, 1) == Ok::<(Seq<u8>, Seq<u8>), ErrorClass>(
            (announced_bounds(flags, min4, max4), rest),
        ),
        p_props(announced_bounds(flags, min4, max4) + rest, 3) == Ok::<(Seq<u8>, Seq<u8>), ErrorClass>(
            (announced_bounds(flags, min4, max4), rest),
        ),
        p_props(announced_bounds(flags, min8, max8) + rest, 2) == Ok::<(Seq<u8>, Seq<u8>), ErrorClass>(
            (announced_bounds(flags, min8, max8), rest),
        ),
        p_props(announced_bounds(flags, min8, max8) + rest, 4) == Ok::<(Seq<u8>, Seq<u8>), ErrorClass>(
            (announced_bounds(flags, min8, max8), rest),
        ),
{
    lemma_range_props_width(flags, min4, max4, rest, 4);
    lemma_range_props_width(flags, min8, max8, rest, 8);
}

/// The other parsers' properties: the string parser (5) a `VarInt` mode,
/// the entity (6) and score holder (31) parsers one flags byte, the time
/// parser (43) a 4-byte minimum, the resource parsers (44 to 47) an
/// identifier string, and every other parser none. Each is read exactly
/// that far, kept as it was on the wire, and what follows is untouched.
pub proof fn law_parser_property_shapes(
    id: i32,
    mode: i32,
    flags: u8,
    time_min: Seq<u8>,
    identifier: Seq<char>,
    rest: Seq<u8>,
)
    requires
        time_min.len() == 4,
        identifier.len() <= MAX_STRING_CHARS,
    ensures
        p_props(varint_bytes(mode) + rest, 5) == Ok::<(Seq<u8>, Seq<u8>), ErrorClass>((varint_bytes(mode), rest)),
        p_props(seq![flags] + rest, 6) == Ok::<(Seq<u8>, Seq<u8>), ErrorClass>((seq![flags], rest)),
        p_props(seq![flags] + rest, 31) == Ok::<(Seq<u8>, Seq<u8>), ErrorClass>((seq![flags], rest)),
        p_props(time_min + rest, 43) == Ok::<(Seq<u8>, Seq<u8>), ErrorClass>((time_min, rest)),
        44 <= id <= 47 ==> p_props(string_bytes(identifier).unwrap() + rest, id) == Ok::<
            (Seq<u8>, Seq<u8>),
            ErrorClass,
        >((string_bytes(identifier).unwrap(), rest)),
        id == 0 || 7 <= id <= 30 || 32 <= id <= 42 || id >= 48 || id < 0 ==> p_props(rest, id) == Ok::<
            (Seq<u8>, Seq<u8>),
            ErrorClass,
        >((seq![], rest)),
{
    lemma_varint_round_trip(mode, rest, eof());
    lemma_p_byte_round_trips(flags, false, rest, eof());
    assert((time_min + rest).take(4) =~= time_min);
    assert((time_min + rest).skip(4) =~= rest);
    lemma_string_round_trip(identifier, rest, MAX_STRING_CHARS as nat, eof());
}

/// The `brigadier:string` parser with `mode`: indexed from 1.19, named
/// before, its properties the mode as a `VarInt`.
pub open spec fn string_parser_view(mode: i32, version: i32) -> ParserView {
    if version >= V1_19 {
        ParserView::Indexed { id: 5, properties: varint_bytes(mode) }
    } else {
        ParserView::Named { identifier: "brigadier:string"@, properties: varint_bytes(mode) }
    }
}

/// A `brigadier:string` parser reads back as written, whatever follows it.
pub proof fn law_string_parser_reads_back(mode: i32, version: i32)
    ensures
        parser_reads_back(string_parser_view(mode, version), version),
{
    let p = string_parser_view(mode, version);
    let props = varint_bytes(mode);
    if version >= V1_19 {
        assert forall|rest: Seq<u8>| #[trigger] p_parser(parser_bytes(p, version).unwrap() + rest, version)
            == Ok::<(ParserView, Seq<u8>), ErrorClass>((p, rest)) by {
            assert(varint_bytes(5) + props + rest =~= varint_bytes(5) + (props + rest));
            lemma_varint_round_trip(5, props + rest, eof());
            lemma_varint_round_trip(mode, rest, eof());
        }
    } else {
        reveal_strlit("brigadier:string");
        reveal_strlit("brigadier:bool");
        reveal_strlit("brigadier:float");
        reveal_strlit("brigadier:double");
        reveal_strlit("brigadier:integer");
        reveal_strlit("brigadier:long");
        let name = "brigadier:string"@;
        assert(name != "brigadier:bool"@ && name != "brigadier:float"@ && name != "brigadier:double"@
            && name != "brigadier:integer"@ && name != "brigadier:long"@) by {
            assert(name[10] != "brigadier:bool"@[10]);
            assert(name[10] != "brigadier:float"@[10]);
            assert(name[10] != "brigadier:double"@[10]);
            assert(name[10] != "brigadier:integer"@[10]);
            assert(name[10] != "brigadier:long"@[10]);
        }
        assert(parser_id_of_name(name) == 5);
        lemma_string_round_trip(name, seq![], MAX_STRING_CHARS as nat, eof());
        let b = string_bytes(name).unwrap();
        assert forall|rest: Seq<u8>| #[trigger] p_parser(parser_bytes(p, version).unwrap() + rest, version)
            == Ok::<(ParserView, Seq<u8>), ErrorClass>((p, rest)) by {
            assert(b + props + rest =~= b + (props + rest));
            lemma_string_round_trip(name, props + rest, MAX_STRING_CHARS as nat, eof());
            lemma_varint_round_trip(mode, rest, eof());
        }
    }
}

/// Creates a `brigadier:string` parser with the given mode (0 single word,
/// 1 quotable phrase, 2 greedy phrase): indexed from 1.19, named before. It
/// reads back as written.
pub fn string_parser(mode: i32, version: ProtocolVersion) -> (p: Parser)
    ensures
        p@ == string_parser_view(mode, version.0),
        parser_reads_back(p@, version.0),
{
    proof {
        law_string_parser_reads_back(mode, version.0);
    }
    let mut props: Vec<u8> = Vec::new();
    VarInt(mode).encode(&mut props);
    assert(props@ =~= varint_bytes(mode));
    if version.no_less_than(ProtocolVersion(V1_19)) {
        Parser::Indexed { id: 5, properties: props }
    } else {
        Parser::Named { identifier: "brigadier:string".to_string(), properties: props }
    }
}


// ---------------------------------------------------------------------------
// Command trees read back
// ---------------------------------------------------------------------------
/// A parser that reads back as written, whatever follows it.
pub open spec fn parser_reads_back(p: ParserView, version: i32) -> bool {
    &&& parser_bytes(p, version) is Ok
    &&& forall|rest: Seq<u8>|
        #[trigger] p_parser(parser_bytes(p, version).unwrap() + rest, version) == Ok::<
            (ParserView, Seq<u8>),
            ErrorClass,
        >((p, rest))
}

/// A node whose fields are those its flags announce (a redirect target
/// exactly when the redirect flag is set; a name for literals and
/// arguments; a parser, and a suggestion type exactly when its flag is set,
/// for arguments), whose strings fit the protocol limit, whose children
/// count fits an `i32`, and whose parser reads back.
pub open spec fn node_well_formed(n: CommandNodeView, version: i32) -> bool {
    let t = n.flags & NODE_TYPE_MASK;
    &&& t != 3
    &&& n.children.len() <= i32::MAX
    &&& (n.redirect_node is Some) == (n.flags & FLAG_REDIRECT != 0)
    &&& t == NODE_TYPE_ROOT ==> n.name is None && n.parser is None && n.suggestions_type is None
    &&& t == NODE_TYPE_LITERAL ==> (n.name matches Some(s) && s.len() <= MAX_STRING_CHARS)
        && n.parser is None && n.suggestions_type is None
    &&& t == NODE_TYPE_ARGUMENT ==> (n.name matches Some(s) && s.len() <= MAX_STRING_CHARS) && (
    n.parser matches Some(p) && parser_reads_back(p, version)) && (n.suggestions_type is Some) == (
    n.flags & FLAG_SUGGESTIONS != 0) && (n.suggestions_type matches Some(s) ==> s.len()
        <= MAX_STRING_CHARS)
}

proof fn lemma_varints_cons(v: i32, vs: Seq<i32>)
    ensures
        varints_bytes(seq![v] + vs) == varint_bytes(v) + varints_bytes(vs),
    decreases vs.len(),
{
    assert(varints_bytes(Seq::<i32>::empty()) == Seq::<u8>::empty());
    if vs.len() == 0 {
        assert(seq![v] + vs =~= seq![v]);
        assert(seq![v].drop_last() =~= Seq::<i32>::empty());
        assert(Seq::<u8>::empty() + varint_bytes(v) =~= varint_bytes(v) + Seq::<u8>::empty());
    } else {
        lemma_varints_cons(v, vs.drop_last());
        assert((seq![v] + vs).drop_last() =~= seq![v] + vs.drop_last());
        assert((seq![v] + vs).last() == vs.last());
        let a = varint_bytes(v);
        let b = varints_bytes(vs.drop_last());
        let c = varint_bytes(vs.last());
        assert(a + b + c =~= a + (b + c));
    }
}

proof fn lemma_varints_round_trip(vs: Seq<i32>, rest: Seq<u8>)
    ensures
        p_varints(varints_bytes(vs) + rest, vs.len()) == Ok::<(Seq<i32>, Seq<u8>), ErrorClass>(
            (vs, rest),
        ),
    decreases vs.len(),
{
    if vs.len() == 0 {
        assert(vs =~= Seq::<i32>::empty());
        assert(Seq::<u8>::empty() + rest =~= rest);
    } else {
        let tl = vs.drop_first();
        assert(vs =~= seq![vs[0]] + tl);
        lemma_varints_cons(vs[0], tl);
        lemma_varints_round_trip(tl, rest);
        assert(varint_bytes(vs[0]) + varints_bytes(tl) + rest =~= varint_bytes(vs[0]) + (
        varints_bytes(tl) + rest));
        crate::codec::spec::lemma_varint_round_trip(vs[0], varints_bytes(tl) + rest, eof());
    }
}

proof fn lemma_opt_string_round_trip(s: Option<Seq<char>>, rest: Seq<u8>)
    requires
        s matches Some(t) ==> t.len() <= MAX_STRING_CHARS,
    ensures
        opt_string_bytes(s) is Ok,
        p_opt_string(opt_string_bytes(s).unwrap() + rest, s is Some) == Ok::<
            (Option<Seq<char>>, Seq<u8>),
            ErrorClass,
        >((s, rest)),
{
    match s {
        Some(t) => {
            crate::codec::spec::lemma_string_round_trip(t, rest, MAX_STRING_CHARS as nat, eof());
        },
        None => {
            assert(Seq::<u8>::empty() + rest =~= rest);
        },
    }
}

#[verifier::spinoff_prover]
#[verifier::rlimit(60)]
proof fn lemma_node_round_trip(n: CommandNodeView, version: i32, rest: Seq<u8>)
    requires
        node_well_formed(n, version),
    ensures
        node_bytes(n, version) is Ok,
        p_node(node_bytes(n, version).unwrap() + rest, version) == Ok::<
            (CommandNodeView, Seq<u8>),
            ErrorClass,
        >((n, rest)),
{
    reveal(p_node);
    let f = n.flags;
    let t = f & NODE_TYPE_MASK;
    assert(t <= 3) by (bit_vector)
        requires
            t == f & 0x03u8,
    ;
    let tail = if t == NODE_TYPE_LITERAL {
        lemma_opt_string_round_trip(n.name, rest);
        opt_string_bytes(n.name).unwrap()
    } else if t == NODE_TYPE_ARGUMENT {
        let p = n.parser.unwrap();
        let a = opt_string_bytes(n.name).unwrap();
        let b = parser_bytes(p, version).unwrap();
        lemma_opt_string_round_trip(n.suggestions_type, rest);
        let c = opt_string_bytes(n.suggestions_type).unwrap();
        lemma_opt_string_round_trip(n.name, b + (c + rest));
        assert(p_parser(b + (c + rest), version) == Ok::<(ParserView, Seq<u8>), ErrorClass>(
            (p, c + rest),
        ));
        assert(a + b + c + rest =~= a + (b + (c + rest)));
        a + b + c
    } else {
        seq![]
    };
    assert(node_tail_bytes(n, version) == Ok::<Seq<u8>, ErrorClass>(tail));
    let red = match n.redirect_node {
        Some(x) => varint_bytes(x),
        None => seq![],
    };
    let kids = varints_bytes(n.children);
    let cnt = varint_bytes(n.children.len() as i32);
    let all = seq![n.flags] + cnt + kids + red + tail + rest;
    assert(all =~= seq![n.flags] + (cnt + (kids + (red + (tail + rest)))));
    assert((seq![n.flags] + (cnt + (kids + (red + (tail + rest))))).skip(1) =~= cnt + (kids + (red
        + (tail + rest))));
    crate::codec::spec::lemma_varint_round_trip(
        n.children.len() as i32,
        kids + (red + (tail + rest)),
        eof(),
    );
    lemma_varints_round_trip(n.children, red + (tail + rest));
    match n.redirect_node {
        Some(x) => {
            crate::codec::spec::lemma_varint_round_trip(x, tail + rest, eof());
        },
        None => {
            assert(red + (tail + rest) =~= tail + rest);
        },
    }
    if t == NODE_TYPE_ROOT {
        assert(tail + rest =~= rest);
    }
}

proof fn lemma_nodes_bytes_cons(n: CommandNodeView, ns: Seq<CommandNodeView>, version: i32)
    requires
        node_bytes(n, version) is Ok,
        nodes_bytes(ns, version) is Ok,
    ensures
        nodes_bytes(seq![n] + ns, version) == Ok::<Seq<u8>, ErrorClass>(
            node_bytes(n, version).unwrap() + nodes_bytes(ns, version).unwrap(),
        ),
    decreases ns.len(),
{
    assert(nodes_bytes(Seq::<CommandNodeView>::empty(), version) == Ok::<Seq<u8>, ErrorClass>(seq![]));
    if ns.len() == 0 {
        assert(seq![n] + ns =~= seq![n]);
        assert(seq![n].drop_last() =~= Seq::<CommandNodeView>::empty());
        assert(Seq::<u8>::empty() + node_bytes(n, version).unwrap() =~= node_bytes(n, version).unwrap()
            + Seq::<u8>::empty());
    } else {
        let init = ns.drop_last();
        assert(nodes_bytes(init, version) is Ok);
        lemma_nodes_bytes_cons(n, init, version);
        assert((seq![n] + ns).drop_last() =~= seq![n] + init);
        assert((seq![n] + ns).last() == ns.last());
        let a = node_bytes(n, version).unwrap();
        let b = nodes_bytes(init, version).unwrap();
        let c = node_bytes(ns.last(), version).unwrap();
        assert(a + b + c =~= a + (b + c));
    }
}

proof fn lemma_nodes_round_trip(ns: Seq<CommandNodeView>, version: i32, rest: Seq<u8>)
    requires
        forall|i: int| 0 <= i < ns.len() ==> node_well_formed(#[trigger] ns[i], version),
    ensures
        nodes_bytes(ns, version) is Ok,
        p_nodes(nodes_bytes(ns, version).unwrap() + rest, version, ns.len()) == Ok::<
            (Seq<CommandNodeView>, Seq<u8>),
            ErrorClass,
        >((ns, rest)),
    decreases ns.len(),
{
    if ns.len() == 0 {
        assert(ns =~= Seq::<CommandNodeView>::empty());
        assert(nodes_bytes(ns, version) == Ok::<Seq<u8>, ErrorClass>(seq![]));
        assert(Seq::<u8>::empty() + rest =~= rest);
    } else {
        let n = ns[0];
        let tl = ns.drop_first();
        assert(ns =~= seq![n] + tl);
        assert forall|i: int| 0 <= i < tl.len() implies node_well_formed(#[trigger] tl[i], version) by {
            assert(tl[i] == ns[i + 1]);
        }
        lemma_nodes_round_trip(tl, version, rest);
        lemma_node_round_trip(n, version, seq![]);
        lemma_nodes_bytes_cons(n, tl, version);
        let a = node_bytes(n, version).unwrap();
        let b = nodes_bytes(tl, version).unwrap();
        assert(nodes_bytes(ns, version).unwrap() + rest =~= a + (b + rest));
        lemma_node_round_trip(n, version, b + rest);
        assert(p_nodes(a + (b + rest), version, ns.len()) == Ok::<
            (Seq<CommandNodeView>, Seq<u8>),
            ErrorClass,
        >((seq![n] + tl, rest)));
    }
}

/// A command tree reads back as written when every node is well formed
/// (see [`node_well_formed`]) and the node count fits an `i32`.
pub proof fn law_commands_round_trip(p: CCommandsView, version: i32, rest: Seq<u8>)
    requires
        p.nodes.len() <= i32::MAX,
        forall|i: int| 0 <= i < p.nodes.len() ==> node_well_formed(#[trigger] p.nodes[i], version),
    ensures
        packet_round_trips::<CCommands>(p, version, rest),
{
    lemma_nodes_round_trip(p.nodes, version, varint_bytes(p.root_index) + rest);
    let c = varint_bytes(p.nodes.len() as i32);
    let b = nodes_bytes(p.nodes, version).unwrap();
    let r = varint_bytes(p.root_index);
    assert(c + b + r + rest =~= c + (b + (r + rest)));
    crate::codec::spec::lemma_varint_round_trip(p.nodes.len() as i32, b + (r + rest), eof());
    crate::codec::spec::lemma_varint_round_trip(p.root_index, rest, eof());
}

} // verus!
