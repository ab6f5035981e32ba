//! The parser adapter: a plain-value model of a parsed syntax tree, the
//! failure taxonomy, and the trusted calls into the incremental parser that
//! produce the model.
use vstd::prelude::*;

verus! {

use crate::compress::CompressLanguage;

#[verifier::external_type_specification]
#[verifier::external_body]
pub struct ExNode<'a>(tree_sitter::Node<'a>);

/// One node of a parsed syntax tree, as plain values: its kind name (bytes),
/// its byte span in the parsed text, whether it is an error production, and
/// its children in order.
pub struct SyntaxNode {
    pub kind: Vec<u8>,
    pub start: usize,
    pub end: usize,
    pub error: bool,
    pub children: Vec<SyntaxNode>,
}

/// Spans lie within the text and children lie within their parent.
pub open spec fn node_wf(n: SyntaxNode, len: nat) -> bool
    decreases n,
{
    &&& n.start <= n.end <= len
    &&& forall|i: int|
        0 <= i < n.children@.len() ==> {
            let c = #[trigger] n.children@[i];
            n.start <= c.start && c.end <= n.end && node_wf(c, len)
        }
}

/// Why the parser adapter rejected a text.
#[derive(Debug, Clone, Copy, PartialEq, Eq, Structural)]
pub enum ParseFailure {
    /// The grammar could not be installed in the parser.
    GrammarUnavailable,
    /// The parser produced no tree at all.
    NullTree,
    /// A tree came back, but error productions stand somewhere in it.
    HasErrorNodes,
    /// The parser itself faulted; the caller isolated the fault.
    FaultDuringParse,
}

/// Some node of the tree is an error production.
pub open spec fn spec_has_error(n: SyntaxNode) -> bool
    decreases n,
{
    n.error || exists|i: int|
        0 <= i < n.children@.len() && spec_has_error(#[trigger] n.children@[i])
}

/// Recursively check if the parse tree contains any error productions.
pub fn has_error_nodes(n: &SyntaxNode) -> (r: bool)
    ensures
        r == spec_has_error(*n),
    decreases *n,
{
    if n.error {
        return true;
    }
    let mut i: usize = 0;
    while i < n.children.len()
        invariant
            0 <= i <= n.children@.len(),
            !n.error,
            forall|j: int| 0 <= j < i ==> !spec_has_error(#[trigger] n.children@[j]),
        decreases n.children@.len() - i,
    {
        if has_error_nodes(&n.children[i]) {
            return true;
        }
        i = i + 1;
    }
    false
}

/// What parsing `text` under a grammar yields: the model of the tree, or the
/// raw failure. Parsing is a function of the grammar and the bytes alone.
pub uninterp spec fn parse_result_of(grammar: CompressLanguage, text: Seq<u8>) -> Result<
    SyntaxNode,
    ParseFailure,
>;

/// Relies on tree_sitter::Node (kind, start_byte, end_byte, is_error,
/// children): mirrors one parsed node and its descendants as plain values,
/// in order.
#[verifier::external_body]
fn convert_node(node: tree_sitter::Node) -> SyntaxNode {
    let mut children = Vec::new();
    let mut cursor = node.walk();
    for child in node.children(&mut cursor) {
        children.push(convert_node(child));
    }
    SyntaxNode {
        kind: node.kind().as_bytes().to_vec(),
        start: node.start_byte(),
        end: node.end_byte(),
        error: node.is_error(),
        children,
    }
}

/// Relies on tree_sitter::Parser with the Rust grammar of tree_sitter_rust:
/// parses the bytes and mirrors the tree. Node spans lie within the text and
/// nest within their parents, and the same bytes always parse to the same
/// tree.
#[verifier::external_body]
fn parse_rust(text: &Vec<u8>) -> (r: Result<SyntaxNode, ParseFailure>)
    ensures
        r == parse_result_of(CompressLanguage::Rust, text@),
        (r matches Ok(t) ==> node_wf(t, text@.len())),
{
    let mut parser = tree_sitter::Parser::new();
    if parser.set_language(&tree_sitter_rust::LANGUAGE.into()).is_err() {
        return Err(ParseFailure::GrammarUnavailable);
    }
    match parser.parse(text, None) {
        Some(tree) => Ok(convert_node(tree.root_node())),
        None => Err(ParseFailure::NullTree),
    }
}

/// Relies on tree_sitter::Parser with the TypeScript grammar of
/// tree_sitter_typescript; otherwise as `parse_rust`.
#[verifier::external_body]
fn parse_typescript(text: &Vec<u8>) -> (r: Result<SyntaxNode, ParseFailure>)
    ensures
        r == parse_result_of(CompressLanguage::TypeScript, text@),
        (r matches Ok(t) ==> node_wf(t, text@.len())),
{
    let mut parser = tree_sitter::Parser::new();
    if parser.set_language(&tree_sitter_typescript::LANGUAGE_TYPESCRIPT.into()).is_err() {
        return Err(ParseFailure::GrammarUnavailable);
    }
    match parser.parse(text, None) {
        Some(tree) => Ok(convert_node(tree.root_node())),
        None => Err(ParseFailure::NullTree),
    }
}

/// Relies on tree_sitter::Parser with the TSX grammar of
/// tree_sitter_typescript; otherwise as `parse_rust`.
#[verifier::external_body]
fn parse_tsx(text: &Vec<u8>) -> (r: Result<SyntaxNode, ParseFailure>)
    ensures
        r == parse_result_of(CompressLanguage::Tsx, text@),
        (r matches Ok(t) ==> node_wf(t, text@.len())),
{
    let mut parser = tree_sitter::Parser::new();
    if parser.set_language(&tree_sitter_typescript::LANGUAGE_TSX.into()).is_err() {
        return Err(ParseFailure::GrammarUnavailable);
    }
    match parser.parse(text, None) {
        Some(tree) => Ok(convert_node(tree.root_node())),
        None => Err(ParseFailure::NullTree),
    }
}

/// Relies on tree_sitter::Parser with the Python grammar of
/// tree_sitter_python; otherwise as `parse_rust`.
#[verifier::external_body]
fn parse_python(text: &Vec<u8>) -> (r: Result<SyntaxNode, ParseFailure>)
    ensures
        r == parse_result_of(CompressLanguage::Python, text@),
        (r matches Ok(t) ==> node_wf(t, text@.len())),
{
    let mut parser = tree_sitter::Parser::new();
    if parser.set_language(&tree_sitter_python::LANGUAGE.into()).is_err() {
        return Err(ParseFailure::GrammarUnavailable);
    }
    match parser.parse(text, None) {
        Some(tree) => Ok(convert_node(tree.root_node())),
        None => Err(ParseFailure::NullTree),
    }
}

/// Relies on tree_sitter::Parser with the Go grammar of tree_sitter_go;
/// otherwise as `parse_rust`.
#[verifier::external_body]
fn parse_go(text: &Vec<u8>) -> (r: Result<SyntaxNode, ParseFailure>)
    ensures
        r == parse_result_of(CompressLanguage::Go, text@),
        (r matches Ok(t) ==> node_wf(t, text@.len())),
{
    let mut parser = tree_sitter::Parser::new();
    if parser.set_language(&tree_sitter_go::LANGUAGE.into()).is_err() {
        return Err(ParseFailure::GrammarUnavailable);
    }
    match parser.parse(text, None) {
        Some(tree) => Ok(convert_node(tree.root_node())),
        None => Err(ParseFailure::NullTree),
    }
}

/// Relies on tree_sitter::Parser with the Java grammar of tree_sitter_java;
/// otherwise as `parse_rust`.
#[verifier::external_body]
fn parse_java(text: &Vec<u8>) -> (r: Result<SyntaxNode, ParseFailure>)
    ensures
        r == parse_result_of(CompressLanguage::Java, text@),
        (r matches Ok(t) ==> node_wf(t, text@.len())),
{
    let mut parser = tree_sitter::Parser::new();
    if parser.set_language(&tree_sitter_java::LANGUAGE.into()).is_err() {
        return Err(ParseFailure::GrammarUnavailable);
    }
    match parser.parse(text, None) {
        Some(tree) => Ok(convert_node(tree.root_node())),
        None => Err(ParseFailure::NullTree),
    }
}

/// Relies on tree_sitter::Parser with the C# grammar of tree_sitter_c_sharp;
/// otherwise as `parse_rust`.
#[verifier::external_body]
fn parse_csharp(text: &Vec<u8>) -> (r: Result<SyntaxNode, ParseFailure>)
    ensures
        r == parse_result_of(CompressLanguage::CSharp, text@),
        (r matches Ok(t) ==> node_wf(t, text@.len())),
{
    let mut parser = tree_sitter::Parser::new();
    if parser.set_language(&tree_sitter_c_sharp::LANGUAGE.into()).is_err() {
        return Err(ParseFailure::GrammarUnavailable);
    }
    match parser.parse(text, None) {
        Some(tree) => Ok(convert_node(tree.root_node())),
        None => Err(ParseFailure::NullTree),
    }
}

/// Relies on tree_sitter::Parser with the C grammar of tree_sitter_c;
/// otherwise as `parse_rust`.
#[verifier::external_body]
fn parse_c(text: &Vec<u8>) -> (r: Result<SyntaxNode, ParseFailure>)
    ensures
        r == parse_result_of(CompressLanguage::C, text@),
        (r matches Ok(t) ==> node_wf(t, text@.len())),
{
    let mut parser = tree_sitter::Parser::new();
    if parser.set_language(&tree_sitter_c::LANGUAGE.into()).is_err() {
        return Err(ParseFailure::GrammarUnavailable);
    }
    match parser.parse(text, None) {
        Some(tree) => Ok(convert_node(tree.root_node())),
        None => Err(ParseFailure::NullTree),
    }
}

/// Relies on tree_sitter::Parser with the C++ grammar of tree_sitter_cpp;
/// otherwise as `parse_rust`.
#[verifier::external_body]
fn parse_cpp(text: &Vec<u8>) -> (r: Result<SyntaxNode, ParseFailure>)
    ensures
        r == parse_result_of(CompressLanguage::Cpp, text@),
        (r matches Ok(t) ==> node_wf(t, text@.len())),
{
    let mut parser = tree_sitter::Parser::new();
    if parser.set_language(&tree_sitter_cpp::LANGUAGE.into()).is_err() {
        return Err(ParseFailure::GrammarUnavailable);
    }
    match parser.parse(text, None) {
        Some(tree) => Ok(convert_node(tree.root_node())),
        None => Err(ParseFailure::NullTree),
    }
}

/// Relies on tree_sitter::Parser with the Ruby grammar of tree_sitter_ruby;
/// otherwise as `parse_rust`.
#[verifier::external_body]
fn parse_ruby(text: &Vec<u8>) -> (r: Result<SyntaxNode, ParseFailure>)
    ensures
        r == parse_result_of(CompressLanguage::Ruby, text@),
        (r matches Ok(t) ==> node_wf(t, text@.len())),
{
    let mut parser = tree_sitter::Parser::new();
    if parser.set_language(&tree_sitter_ruby::LANGUAGE.into()).is_err() {
        return Err(ParseFailure::GrammarUnavailable);
    }
    match parser.parse(text, None) {
        Some(tree) => Ok(convert_node(tree.root_node())),
        None => Err(ParseFailure::NullTree),
    }
}

/// Relies on tree_sitter::Parser with the PHP grammar of tree_sitter_php;
/// otherwise as `parse_rust`.
#[verifier::external_body]
fn parse_php(text: &Vec<u8>) -> (r: Result<SyntaxNode, ParseFailure>)
    ensures
        r == parse_result_of(CompressLanguage::Php, text@),
        (r matches Ok(t) ==> node_wf(t, text@.len())),
{
    let mut parser = tree_sitter::Parser::new();
    if parser.set_language(&tree_sitter_php::LANGUAGE_PHP.into()).is_err() {
        return Err(ParseFailure::GrammarUnavailable);
    }
    match parser.parse(text, None) {
        Some(tree) => Ok(convert_node(tree.root_node())),
        None => Err(ParseFailure::NullTree),
    }
}

/// The grammar that actually parses a language: plain JavaScript is read
/// with the TypeScript grammar, JSX with the TSX grammar.
pub open spec fn spec_grammar(lang: CompressLanguage) -> CompressLanguage {
    match lang {
        CompressLanguage::JavaScript => CompressLanguage::TypeScript,
        CompressLanguage::Jsx => CompressLanguage::Tsx,
        l => l,
    }
}

/// Runs the raw parse for `lang`'s grammar.
fn parse_raw(text: &Vec<u8>, lang: CompressLanguage) -> (r: Result<SyntaxNode, ParseFailure>)
    ensures
        r == parse_result_of(spec_grammar(lang), text@),
        (r matches Ok(t) ==> node_wf(t, text@.len())),
{
    match lang {
        CompressLanguage::Rust => parse_rust(text),
        CompressLanguage::TypeScript => parse_typescript(text),
        CompressLanguage::JavaScript => parse_typescript(text),
        CompressLanguage::Tsx => parse_tsx(text),
        CompressLanguage::Jsx => parse_tsx(text),
        CompressLanguage::Python => parse_python(text),
        CompressLanguage::Go => parse_go(text),
        CompressLanguage::Java => parse_java(text),
        CompressLanguage::CSharp => parse_csharp(text),
        CompressLanguage::C => parse_c(text),
        CompressLanguage::Cpp => parse_cpp(text),
        CompressLanguage::Ruby => parse_ruby(text),
        CompressLanguage::Php => parse_php(text),
    }
}

/// What the adapter yields for `text` under `lang`: the parsed tree, or the
/// failure; a tree holding error productions is rejected as untrustworthy.
pub open spec fn spec_parse(lang: CompressLanguage, text: Seq<u8>) -> Result<
    SyntaxNode,
    ParseFailure,
> {
    match parse_result_of(spec_grammar(lang), text) {
        Ok(t) => if spec_has_error(t) {
            Err(ParseFailure::HasErrorNodes)
        } else {
            Ok(t)
        },
        Err(e) => Err(e),
    }
}

/// Parses `text` under `lang` and sweeps the tree for error productions:
/// one error production anywhere rejects the whole tree.
pub fn parse(text: &Vec<u8>, lang: CompressLanguage) -> (r: Result<SyntaxNode, ParseFailure>)
    ensures
        r == spec_parse(lang, text@),
        (r matches Ok(t) ==> node_wf(t, text@.len())),
{
    match parse_raw(text, lang) {
        Ok(t) => {
            if has_error_nodes(&t) {
                Err(ParseFailure::HasErrorNodes)
            } else {
                Ok(t)
            }
        },
        Err(e) => Err(e),
    }
}

} // verus!
