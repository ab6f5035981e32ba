//! The generic compression walk: one tree-walk algorithm, parameterized per
//! grammar by a table from node kind to action. Declarations pass through
//! verbatim, executable bodies are replaced by a placeholder, and container
//! constructs recurse one level with indentation.
use vstd::prelude::*;

verus! {

use vstd::string::StringSliceAdditionalSpecFns;
use crate::tree::{SyntaxNode, node_wf};
use crate::compress::CompressLanguage;

broadcast use vstd::std_specs::vec::axiom_vec_decreases_to_view;

// ---------------------------------------------------------------------------
// Byte helpers
// ---------------------------------------------------------------------------
/// ASCII whitespace, as the engine trims it from headers and output.
pub open spec fn is_ws_byte(b: u8) -> bool {
    b == 32 || b == 9 || b == 10 || b == 13 || b == 11 || b == 12
}

/// `s` without its trailing ASCII whitespace.
pub open spec fn s_trim_end(s: Seq<u8>) -> Seq<u8>
    decreases s.len(),
{
    if s.len() > 0 && is_ws_byte(s.last()) {
        s_trim_end(s.drop_last())
    } else {
        s
    }
}

/// The text of a node: the byte span it covers.
pub open spec fn s_node_text(src: Seq<u8>, n: SyntaxNode) -> Seq<u8> {
    src.subrange(n.start as int, n.end as int)
}

pub open spec fn s_starts_bytes(s: Seq<u8>, p: Seq<u8>) -> bool {
    p.len() <= s.len() && s.subrange(0, p.len() as int) == p
}

/// `s` holds the two-byte arrow marker somewhere.
pub open spec fn s_contains_arrow(s: Seq<u8>) -> bool {
    exists|k: int| 0 <= k && k + 2 <= s.len() && s[k] == 61 && #[trigger] s[k + 1] == 62
}

/// `s` holds an equals sign somewhere.
pub open spec fn s_contains_eq(s: Seq<u8>) -> bool {
    exists|k: int| 0 <= k < s.len() && s[k] == 61
}

proof fn lemma_trim_end_at(s: Seq<u8>, j: int)
    requires
        0 <= j <= s.len(),
        forall|k: int| j <= k < s.len() ==> is_ws_byte(s[k]),
        j > 0 ==> !is_ws_byte(s[j - 1]),
    ensures
        s_trim_end(s) == s.subrange(0, j),
    decreases s.len() - j,
{
    if j == s.len() {
        if s.len() > 0 && is_ws_byte(s.last()) {
            assert(false);
        }
        assert(s_trim_end(s) =~= s.subrange(0, j));
    } else {
        let d = s.drop_last();
        lemma_trim_end_at(d, j);
        assert(s_trim_end(s) =~= s.subrange(0, j));
    }
}

fn is_ws_byte_exec(b: u8) -> (r: bool)
    ensures
        r == is_ws_byte(b),
{
    b == 32 || b == 9 || b == 10 || b == 13 || b == 11 || b == 12
}

/// Appends `src[i..j]` to `out`.
fn push_range(out: &mut Vec<u8>, src: &Vec<u8>, i: usize, j: usize)
    requires
        i <= j <= src@.len(),
    ensures
        final(out)@ == old(out)@ + src@.subrange(i as int, j as int),
{
    let mut k: usize = i;
    while k < j
        invariant
            i <= k <= j <= src@.len(),
            out@ =~= old(out)@ + src@.subrange(i as int, k as int),
        decreases j - k,
    {
        out.push(src[k]);
        k = k + 1;
    }
    proof {
        assert(out@ =~= old(out)@ + src@.subrange(i as int, j as int));
    }
}

/// Appends `src[i..j]`, trimmed of trailing whitespace, to `out`.
fn push_trimmed_range(out: &mut Vec<u8>, src: &Vec<u8>, i: usize, j: usize)
    requires
        i <= j <= src@.len(),
    ensures
        final(out)@ == old(out)@ + s_trim_end(src@.subrange(i as int, j as int)),
{
    let mut k: usize = j;
    while k > i && is_ws_byte_exec(src[k - 1])
        invariant
            i <= k <= j <= src@.len(),
            forall|t: int| k <= t < j ==> is_ws_byte(src@[t]),
        decreases k,
    {
        k = k - 1;
    }
    proof {
        let sub = src@.subrange(i as int, j as int);
        assert(forall|t: int| k - i <= t < sub.len() ==> is_ws_byte(#[trigger] sub[t]));
        if k > i {
            assert(sub[k - i - 1] == src@[k - 1]);
        }
        lemma_trim_end_at(sub, k - i);
        assert(sub.subrange(0, k - i) =~= src@.subrange(i as int, k as int));
    }
    push_range(out, src, i, k);
}

/// Appends the bytes of the literal `s` to `out`.
fn push_lit(out: &mut Vec<u8>, s: &str)
    ensures
        final(out)@ == old(out)@ + s.spec_bytes(),
{
    let bv = s.as_bytes_vec();
    let mut k: usize = 0;
    while k < bv.len()
        invariant
            bv@ == s.spec_bytes(),
            0 <= k <= bv@.len(),
            out@ =~= old(out)@ + bv@.subrange(0, k as int),
        decreases bv@.len() - k,
    {
        out.push(bv[k]);
        k = k + 1;
    }
    proof {
        assert(out@ =~= old(out)@ + bv@);
    }
}

/// Whether a node's kind is exactly the literal `lit`.
fn kind_is(kind: &Vec<u8>, lit: &str) -> (r: bool)
    ensures
        r == (kind@ == lit.spec_bytes()),
{
    let bv = lit.as_bytes_vec();
    if kind.len() != bv.len() {
        return false;
    }
    let mut k: usize = 0;
    while k < kind.len()
        invariant
            bv@ == lit.spec_bytes(),
            kind@.len() == bv@.len(),
            0 <= k <= kind@.len(),
            forall|t: int| 0 <= t < k ==> kind@[t] == bv@[t],
        decreases kind@.len() - k,
    {
        if kind[k] != bv[k] {
            return false;
        }
        k = k + 1;
    }
    proof {
        assert(kind@ =~= bv@);
    }
    true
}

/// Whether `src[i..j]` starts with the literal `lit`.
fn range_starts_with(src: &Vec<u8>, i: usize, j: usize, lit: &str) -> (r: bool)
    requires
        i <= j <= src@.len(),
    ensures
        r == s_starts_bytes(src@.subrange(i as int, j as int), lit.spec_bytes()),
{
    let bv = lit.as_bytes_vec();
    if bv.len() > j - i {
        return false;
    }
    let ghost sub = src@.subrange(i as int, j as int);
    let mut k: usize = 0;
    while k < bv.len()
        invariant
            bv@ == lit.spec_bytes(),
            i <= j <= src@.len(),
            sub == src@.subrange(i as int, j as int),
            bv@.len() <= j - i,
            0 <= k <= bv@.len(),
            forall|t: int| 0 <= t < k ==> sub[t] == bv@[t],
        decreases bv@.len() - k,
    {
        if src[i + k] != bv[k] {
            proof {
                assert(sub[k as int] != bv@[k as int]);
                assert(sub.subrange(0, bv@.len() as int)[k as int] != bv@[k as int]);
            }
            return false;
        }
        k = k + 1;
    }
    proof {
        assert(sub.subrange(0, bv@.len() as int) =~= bv@);
    }
    true
}

/// Whether `src[i..j]` holds the arrow marker.
fn range_contains_arrow(src: &Vec<u8>, i: usize, j: usize) -> (r: bool)
    requires
        i <= j <= src@.len(),
    ensures
        r == s_contains_arrow(src@.subrange(i as int, j as int)),
{
    let ghost sub = src@.subrange(i as int, j as int);
    if j - i < 2 {
        return false;
    }
    let mut k: usize = i;
    while k < j - 1
        invariant
            i <= k,
            i + 2 <= j <= src@.len(),
            k <= j,
            sub == src@.subrange(i as int, j as int),
            forall|t: int| 0 <= t < k - i && t + 2 <= sub.len() ==> !(sub[t] == 61 && #[trigger] sub[t + 1] == 62),
        decreases j - k,
    {
        if src[k] == 61 && src[k + 1] == 62 {
            proof {
                assert(sub[k - i] == 61 && sub[k - i + 1] == 62);
            }
            return true;
        }
        k = k + 1;
    }
    false
}

/// Whether `src[i..j]` holds an equals sign.
fn range_contains_eq(src: &Vec<u8>, i: usize, j: usize) -> (r: bool)
    requires
        i <= j <= src@.len(),
    ensures
        r == s_contains_eq(src@.subrange(i as int, j as int)),
{
    let ghost sub = src@.subrange(i as int, j as int);
    let mut k: usize = i;
    while k < j
        invariant
            i <= k <= j <= src@.len(),
            sub == src@.subrange(i as int, j as int),
            forall|t: int| 0 <= t < k - i ==> sub[t] != 61,
        decreases j - k,
    {
        if src[k] == 61 {
            proof {
                assert(sub[k - i] == 61);
            }
            return true;
        }
        k = k + 1;
    }
    false
}

// ---------------------------------------------------------------------------
// Size measure for termination of the mutually recursive walk
// ---------------------------------------------------------------------------
/// The node count of a subtree.
pub open spec fn node_size(n: SyntaxNode) -> nat
    decreases n,
{
    1 + seq_size(n.children@)
}

/// The node count of a forest.
pub open spec fn seq_size(cs: Seq<SyntaxNode>) -> nat
    decreases cs,
{
    if cs.len() == 0 {
        0
    } else {
        node_size(cs[0]) + seq_size(cs.drop_first())
    }
}

proof fn lemma_child_size(cs: Seq<SyntaxNode>, i: int)
    requires
        0 <= i < cs.len(),
    ensures
        node_size(cs[i]) <= seq_size(cs),
    decreases cs.len(),
{
    if i > 0 {
        lemma_child_size(cs.drop_first(), i - 1);
    }
}

// ---------------------------------------------------------------------------
// Action tables
// ---------------------------------------------------------------------------
/// The executable-body kinds a construct elides.
#[derive(Debug, Clone, Copy, PartialEq, Eq, Structural)]
pub enum BodyKind {
    /// A brace block (`block`).
    Block,
    /// A statement block (`statement_block`).
    StatementBlock,
    /// A method body (`block` or `constructor_body`).
    JavaBody,
    /// A compound statement (`compound_statement`).
    Compound,
    /// A property accessor list (`accessor_list`).
    AccessorList,
}

/// A container construct whose members are walked one level deeper.
#[derive(Debug, Clone, Copy, PartialEq, Eq, Structural)]
pub enum ContainerId {
    RustTrait,
    RustImpl,
    TsClass,
    JavaLike,
    CsNamespace,
    CsClass,
    CppClass,
    CppNamespace,
    CppLinkage,
    PhpNamespace,
    PhpClass,
    PyClass,
    RubyClassMod,
}

/// What the walk does with one top-level node.
#[derive(Debug, Clone, Copy, PartialEq, Eq, Structural)]
pub enum TopAction {
    Drop,
    Verbatim,
    VerbatimIfShort,
    Body(BodyKind),
    Container(ContainerId),
    PyDef,
    PyModuleExpr,
    TsExport,
    TsVariable,
    RubyCall,
    RubyMethod,
    CppTemplate,
}

/// What the walk does with one member of a container.
#[derive(Debug, Clone, Copy, PartialEq, Eq, Structural)]
pub enum MemberAction {
    Drop,
    Verbatim,
    VerbatimIfShort,
    Body(BodyKind),
    Nested(ContainerId),
    JavaEnumUnwrap,
    PyDefBlock,
    PyClassExprStmt,
    CppTemplateBlock,
    RubyMethodBlock,
}

/// Whether a child of the given kind is the elidable body of its construct.
pub open spec fn s_body_matches(bk: BodyKind, kind: Seq<u8>) -> bool {
    match bk {
        BodyKind::Block => kind == ("block").spec_bytes(),
        BodyKind::StatementBlock => kind == ("statement_block").spec_bytes(),
        BodyKind::JavaBody => kind == ("block").spec_bytes() || kind == (
        "constructor_body").spec_bytes(),
        BodyKind::Compound => kind == ("compound_statement").spec_bytes(),
        BodyKind::AccessorList => kind == ("accessor_list").spec_bytes(),
    }
}

fn body_matches(bk: BodyKind, kind: &Vec<u8>) -> (r: bool)
    ensures
        r == s_body_matches(bk, kind@),
{
    match bk {
        BodyKind::Block => kind_is(kind, "block"),
        BodyKind::StatementBlock => kind_is(kind, "statement_block"),
        BodyKind::JavaBody => kind_is(kind, "block") || kind_is(kind, "constructor_body"),
        BodyKind::Compound => kind_is(kind, "compound_statement"),
        BodyKind::AccessorList => kind_is(kind, "accessor_list"),
    }
}

/// Whether a child of kind `kind` is the member-holding body of a container
/// node of kind `node_kind`.
pub open spec fn s_container_body_matches(id: ContainerId, node_kind: Seq<u8>, kind: Seq<u8>) -> bool {
    match id {
        ContainerId::RustTrait => kind == ("declaration_list").spec_bytes(),
        ContainerId::RustImpl => kind == ("declaration_list").spec_bytes(),
        ContainerId::TsClass => kind == ("class_body").spec_bytes(),
        ContainerId::JavaLike => {
            if node_kind == ("enum_declaration").spec_bytes() {
                kind == ("enum_body").spec_bytes()
            } else if node_kind == ("interface_declaration").spec_bytes() {
                kind == ("interface_body").spec_bytes()
            } else if node_kind == ("annotation_type_declaration").spec_bytes() {
                kind == ("annotation_type_body").spec_bytes()
            } else {
                kind == ("class_body").spec_bytes()
            }
        },
        ContainerId::CsNamespace => kind == ("declaration_list").spec_bytes(),
        ContainerId::CsClass => kind == ("declaration_list").spec_bytes(),
        ContainerId::CppClass => kind == ("field_declaration_list").spec_bytes(),
        ContainerId::CppNamespace => kind == ("declaration_list").spec_bytes(),
        ContainerId::CppLinkage => kind == ("declaration_list").spec_bytes(),
        ContainerId::PhpNamespace => kind == ("compound_statement").spec_bytes() || kind == (
        "declaration_list").spec_bytes(),
        ContainerId::PhpClass => kind == ("declaration_list").spec_bytes() || kind == (
        "enum_declaration_list").spec_bytes(),
        ContainerId::PyClass => kind == ("block").spec_bytes(),
        ContainerId::RubyClassMod => kind == ("body_statement").spec_bytes(),
    }
}

fn container_body_matches(id: ContainerId, node_kind: &Vec<u8>, kind: &Vec<u8>) -> (r: bool)
    ensures
        r == s_container_body_matches(id, node_kind@, kind@),
{
    match id {
        ContainerId::RustTrait => kind_is(kind, "declaration_list"),
        ContainerId::RustImpl => kind_is(kind, "declaration_list"),
        ContainerId::TsClass => kind_is(kind, "class_body"),
        ContainerId::JavaLike => {
            if kind_is(node_kind, "enum_declaration") {
                kind_is(kind, "enum_body")
            } else if kind_is(node_kind, "interface_declaration") {
                kind_is(kind, "interface_body")
            } else if kind_is(node_kind, "annotation_type_declaration") {
                kind_is(kind, "annotation_type_body")
            } else {
                kind_is(kind, "class_body")
            }
        },
        ContainerId::CsNamespace => kind_is(kind, "declaration_list"),
        ContainerId::CsClass => kind_is(kind, "declaration_list"),
        ContainerId::CppClass => kind_is(kind, "field_declaration_list"),
        ContainerId::CppNamespace => kind_is(kind, "declaration_list"),
        ContainerId::CppLinkage => kind_is(kind, "declaration_list"),
        ContainerId::PhpNamespace => kind_is(kind, "compound_statement") || kind_is(
            kind,
            "declaration_list",
        ),
        ContainerId::PhpClass => kind_is(kind, "declaration_list") || kind_is(
            kind,
            "enum_declaration_list",
        ),
        ContainerId::PyClass => kind_is(kind, "block"),
        ContainerId::RubyClassMod => kind_is(kind, "body_statement"),
    }
}

/// The indentation a container gives its members.
pub open spec fn s_indent_of(id: ContainerId) -> Seq<u8> {
    match id {
        ContainerId::RubyClassMod => ("  ").spec_bytes(),
        _ => ("    ").spec_bytes(),
    }
}


/// The member table of a container: what each member kind contributes.
pub open spec fn s_member_action(id: ContainerId, k: Seq<u8>) -> MemberAction {
    match id {
        ContainerId::RustTrait => {
            if k == ("function_item").spec_bytes() {
                MemberAction::Body(BodyKind::Block)
            } else if k == ("function_signature_item").spec_bytes() || k == (
            "type_item").spec_bytes() || k == ("const_item").spec_bytes() || k == (
            "attribute_item").spec_bytes() || k == ("line_comment").spec_bytes() || k == (
            "block_comment").spec_bytes() {
                MemberAction::Verbatim
            } else {
                MemberAction::Drop
            }
        },
        ContainerId::RustImpl => {
            if k == ("function_item").spec_bytes() {
                MemberAction::Body(BodyKind::Block)
            } else if k == ("type_item").spec_bytes() || k == ("const_item").spec_bytes() || k == (
            "attribute_item").spec_bytes() || k == ("line_comment").spec_bytes() || k == (
            "block_comment").spec_bytes() {
                MemberAction::Verbatim
            } else {
                MemberAction::Drop
            }
        },
        ContainerId::TsClass => {
            if k == ("method_definition").spec_bytes() || k == (
            "public_field_definition").spec_bytes() || k == ("property_definition").spec_bytes() {
                MemberAction::Body(BodyKind::StatementBlock)
            } else if k == ("comment").spec_bytes() {
                MemberAction::Verbatim
            } else {
                MemberAction::Drop
            }
        },
        ContainerId::JavaLike => {
            if k == ("method_declaration").spec_bytes() || k == (
            "constructor_declaration").spec_bytes() {
                MemberAction::Body(BodyKind::JavaBody)
            } else if k == ("enum_constant").spec_bytes() || k == (
            "field_declaration").spec_bytes() || k == ("constant_declaration").spec_bytes() || k
                == ("line_comment").spec_bytes() || k == ("block_comment").spec_bytes() {
                MemberAction::Verbatim
            } else if k == ("enum_body_declarations").spec_bytes() {
                MemberAction::JavaEnumUnwrap
            } else if k == ("class_declaration").spec_bytes() || k == (
            "interface_declaration").spec_bytes() || k == ("enum_declaration").spec_bytes() || k
                == ("record_declaration").spec_bytes() {
                MemberAction::Nested(ContainerId::JavaLike)
            } else {
                MemberAction::Drop
            }
        },
        ContainerId::CsNamespace => {
            if k == ("class_declaration").spec_bytes() || k == (
            "interface_declaration").spec_bytes() || k == ("struct_declaration").spec_bytes() || k
                == ("enum_declaration").spec_bytes() || k == ("record_declaration").spec_bytes() {
                MemberAction::Nested(ContainerId::CsClass)
            } else if k == ("using_directive").spec_bytes() || k == ("comment").spec_bytes() {
                MemberAction::Verbatim
            } else {
                MemberAction::Drop
            }
        },
        ContainerId::CsClass => {
            if k == ("method_declaration").spec_bytes() || k == (
            "constructor_declaration").spec_bytes() {
                MemberAction::Body(BodyKind::Block)
            } else if k == ("property_declaration").spec_bytes() {
                MemberAction::Body(BodyKind::AccessorList)
            } else if k == ("field_declaration").spec_bytes() || k == (
            "event_declaration").spec_bytes() || k == ("event_field_declaration").spec_bytes() || k
                == ("comment").spec_bytes() {
                MemberAction::Verbatim
            } else if k == ("class_declaration").spec_bytes() || k == (
            "interface_declaration").spec_bytes() || k == ("struct_declaration").spec_bytes() || k
                == ("enum_declaration").spec_bytes() || k == ("record_declaration").spec_bytes() {
                MemberAction::Nested(ContainerId::CsClass)
            } else {
                MemberAction::Drop
            }
        },
        ContainerId::CppClass => {
            if k == ("function_definition").spec_bytes() {
                MemberAction::Body(BodyKind::Compound)
            } else if k == ("template_declaration").spec_bytes() {
                MemberAction::CppTemplateBlock
            } else if k == ("field_declaration").spec_bytes() || k == ("declaration").spec_bytes()
                || k == ("using_declaration").spec_bytes() || k == (
            "alias_declaration").spec_bytes() || k == ("type_definition").spec_bytes() || k == (
            "access_specifier").spec_bytes() || k == ("friend_declaration").spec_bytes() || k == (
            "preproc_ifdef").spec_bytes() || k == ("preproc_if").spec_bytes() || k == (
            "preproc_ifndef").spec_bytes() || k == ("preproc_def").spec_bytes() || k == (
            "preproc_call").spec_bytes() || k == ("comment").spec_bytes() {
                MemberAction::Verbatim
            } else {
                MemberAction::Drop
            }
        },
        ContainerId::CppNamespace => {
            if k == ("function_definition").spec_bytes() {
                MemberAction::Body(BodyKind::Compound)
            } else if k == ("class_specifier").spec_bytes() {
                MemberAction::Nested(ContainerId::CppClass)
            } else if k == ("template_declaration").spec_bytes() {
                MemberAction::CppTemplateBlock
            } else if k == ("namespace_definition").spec_bytes() {
                MemberAction::Nested(ContainerId::CppNamespace)
            } else if k == ("struct_specifier").spec_bytes() || k == (
            "enum_specifier").spec_bytes() || k == ("union_specifier").spec_bytes() || k == (
            "declaration").spec_bytes() || k == ("type_definition").spec_bytes() || k == (
            "using_declaration").spec_bytes() || k == ("alias_declaration").spec_bytes() || k == (
            "preproc_ifdef").spec_bytes() || k == ("preproc_if").spec_bytes() || k == (
            "preproc_ifndef").spec_bytes() || k == ("preproc_def").spec_bytes() || k == (
            "preproc_call").spec_bytes() || k == ("comment").spec_bytes() {
                MemberAction::Verbatim
            } else {
                MemberAction::Drop
            }
        },
        ContainerId::CppLinkage => {
            if k == ("function_definition").spec_bytes() {
                MemberAction::Body(BodyKind::Compound)
            } else if k == ("declaration").spec_bytes() || k == ("comment").spec_bytes() {
                MemberAction::Verbatim
            } else {
                MemberAction::Drop
            }
        },
        ContainerId::PhpNamespace => {
            if k == ("class_declaration").spec_bytes() || k == (
            "interface_declaration").spec_bytes() || k == ("trait_declaration").spec_bytes() || k
                == ("enum_declaration").spec_bytes() {
                MemberAction::Nested(ContainerId::PhpClass)
            } else if k == ("function_definition").spec_bytes() {
                MemberAction::Body(BodyKind::Compound)
            } else if k == ("namespace_use_declaration").spec_bytes() || k == (
            "const_declaration").spec_bytes() || k == ("comment").spec_bytes() {
                MemberAction::Verbatim
            } else {
                MemberAction::Drop
            }
        },
        ContainerId::PhpClass => {
            if k == ("method_declaration").spec_bytes() {
                MemberAction::Body(BodyKind::Compound)
            } else if k == ("property_declaration").spec_bytes() || k == (
            "const_declaration").spec_bytes() || k == ("use_declaration").spec_bytes() || k == (
            "enum_case").spec_bytes() || k == ("comment").spec_bytes() {
                MemberAction::Verbatim
            } else {
                MemberAction::Drop
            }
        },
        ContainerId::PyClass => {
            if k == ("function_definition").spec_bytes() || k == (
            "decorated_definition").spec_bytes() {
                MemberAction::PyDefBlock
            } else if k == ("expression_statement").spec_bytes() {
                MemberAction::PyClassExprStmt
            } else if k == ("comment").spec_bytes() {
                MemberAction::Verbatim
            } else {
                MemberAction::Drop
            }
        },
        ContainerId::RubyClassMod => {
            if k == ("method").spec_bytes() || k == ("singleton_method").spec_bytes() {
                MemberAction::RubyMethodBlock
            } else if k == ("class").spec_bytes() || k == ("module").spec_bytes() {
                MemberAction::Nested(ContainerId::RubyClassMod)
            } else if k == ("comment").spec_bytes() {
                MemberAction::Verbatim
            } else if k == ("call").spec_bytes() || k == ("assignment").spec_bytes() {
                MemberAction::VerbatimIfShort
            } else {
                MemberAction::Drop
            }
        },
    }
}

fn member_action(id: ContainerId, k: &Vec<u8>) -> (r: MemberAction)
    ensures
        r == s_member_action(id, k@),
{
    match id {
        ContainerId::RustTrait => {
            if kind_is(k, "function_item") {
                MemberAction::Body(BodyKind::Block)
            } else if kind_is(k, "function_signature_item") || kind_is(k, "type_item") || kind_is(
                k,
                "const_item",
            ) || kind_is(k, "attribute_item") || kind_is(k, "line_comment") || kind_is(
                k,
                "block_comment",
            ) {
                MemberAction::Verbatim
            } else {
                MemberAction::Drop
            }
        },
        ContainerId::RustImpl => {
            if kind_is(k, "function_item") {
                MemberAction::Body(BodyKind::Block)
            } else if kind_is(k, "type_item") || kind_is(k, "const_item") || kind_is(
                k,
                "attribute_item",
            ) || kind_is(k, "line_comment") || kind_is(k, "block_comment") {
                MemberAction::Verbatim
            } else {
                MemberAction::Drop
            }
        },
        ContainerId::TsClass => {
            if kind_is(k, "method_definition") || kind_is(k, "public_field_definition") || kind_is(
                k,
                "property_definition",
            ) {
                MemberAction::Body(BodyKind::StatementBlock)
            } else if kind_is(k, "comment") {
                MemberAction::Verbatim
            } else {
                MemberAction::Drop
            }
        },
        ContainerId::JavaLike => {
            if kind_is(k, "method_declaration") || kind_is(k, "constructor_declaration") {
                MemberAction::Body(BodyKind::JavaBody)
            } else if kind_is(k, "enum_constant") || kind_is(k, "field_declaration") || kind_is(
                k,
                "constant_declaration",
            ) || kind_is(k, "line_comment") || kind_is(k, "block_comment") {
                MemberAction::Verbatim
            } else if kind_is(k, "enum_body_declarations") {
                MemberAction::JavaEnumUnwrap
            } else if kind_is(k, "class_declaration") || kind_is(k, "interface_declaration")
                || kind_is(k, "enum_declaration") || kind_is(k, "record_declaration") {
                MemberAction::Nested(ContainerId::JavaLike)
            } else {
                MemberAction::Drop
            }
        },
        ContainerId::CsNamespace => {
            if kind_is(k, "class_declaration") || kind_is(k, "interface_declaration") || kind_is(
                k,
                "struct_declaration",
            ) || kind_is(k, "enum_declaration") || kind_is(k, "record_declaration") {
                MemberAction::Nested(ContainerId::CsClass)
            } else if kind_is(k, "using_directive") || kind_is(k, "comment") {
                MemberAction::Verbatim
            } else {
                MemberAction::Drop
            }
        },
        ContainerId::CsClass => {
            if kind_is(k, "method_declaration") || kind_is(k, "constructor_declaration") {
                MemberAction::Body(BodyKind::Block)
            } else if kind_is(k, "property_declaration") {
                MemberAction::Body(BodyKind::AccessorList)
            } else if kind_is(k, "field_declaration") || kind_is(k, "event_declaration") || kind_is(
                k,
                "event_field_declaration",
            ) || kind_is(k, "comment") {
                MemberAction::Verbatim
            } else if kind_is(k, "class_declaration") || kind_is(k, "interface_declaration")
                || kind_is(k, "struct_declaration") || kind_is(k, "enum_declaration") || kind_is(
                k,
                "record_declaration",
            ) {
                MemberAction::Nested(ContainerId::CsClass)
            } else {
                MemberAction::Drop
            }
        },
        ContainerId::CppClass => {
            if kind_is(k, "function_definition") {
                MemberAction::Body(BodyKind::Compound)
            } else if kind_is(k, "template_declaration") {
                MemberAction::CppTemplateBlock
            } else if kind_is(k, "field_declaration") || kind_is(k, "declaration") || kind_is(
                k,
                "using_declaration",
            ) || kind_is(k, "alias_declaration") || kind_is(k, "type_definition") || kind_is(
                k,
                "access_specifier",
            ) || kind_is(k, "friend_declaration") || kind_is(k, "preproc_ifdef") || kind_is(
                k,
                "preproc_if",
            ) || kind_is(k, "preproc_ifndef") || kind_is(k, "preproc_def") || kind_is(
                k,
                "preproc_call",
            ) || kind_is(k, "comment") {
                MemberAction::Verbatim
            } else {
                MemberAction::Drop
            }
        },
        ContainerId::CppNamespace => {
            if kind_is(k, "function_definition") {
                MemberAction::Body(BodyKind::Compound)
            } else if kind_is(k, "class_specifier") {
                MemberAction::Nested(ContainerId::CppClass)
            } else if kind_is(k, "template_declaration") {
                MemberAction::CppTemplateBlock
            } else if kind_is(k, "namespace_definition") {
                MemberAction::Nested(ContainerId::CppNamespace)
            } else if kind_is(k, "struct_specifier") || kind_is(k, "enum_specifier") || kind_is(
                k,
                "union_specifier",
            ) || kind_is(k, "declaration") || kind_is(k, "type_definition") || kind_is(
                k,
                "using_declaration",
            ) || kind_is(k, "alias_declaration") || kind_is(k, "preproc_ifdef") || kind_is(
                k,
                "preproc_if",
            ) || kind_is(k, "preproc_ifndef") || kind_is(k, "preproc_def") || kind_is(
                k,
                "preproc_call",
            ) || kind_is(k, "comment") {
                MemberAction::Verbatim
            } else {
                MemberAction::Drop
            }
        },
        ContainerId::CppLinkage => {
            if kind_is(k, "function_definition") {
                MemberAction::Body(BodyKind::Compound)
            } else if kind_is(k, "declaration") || kind_is(k, "comment") {
                MemberAction::Verbatim
            } else {
                MemberAction::Drop
            }
        },
        ContainerId::PhpNamespace => {
            if kind_is(k, "class_declaration") || kind_is(k, "interface_declaration") || kind_is(
                k,
                "trait_declaration",
            ) || kind_is(k, "enum_declaration") {
                MemberAction::Nested(ContainerId::PhpClass)
            } else if kind_is(k, "function_definition") {
                MemberAction::Body(BodyKind::Compound)
            } else if kind_is(k, "namespace_use_declaration") || kind_is(k, "const_declaration")
                || kind_is(k, "comment") {
                MemberAction::Verbatim
            } else {
                MemberAction::Drop
            }
        },
        ContainerId::PhpClass => {
            if kind_is(k, "method_declaration") {
                MemberAction::Body(BodyKind::Compound)
            } else if kind_is(k, "property_declaration") || kind_is(k, "const_declaration")
                || kind_is(k, "use_declaration") || kind_is(k, "enum_case") || kind_is(
                k,
                "comment",
            ) {
                MemberAction::Verbatim
            } else {
                MemberAction::Drop
            }
        },
        ContainerId::PyClass => {
            if kind_is(k, "function_definition") || kind_is(k, "decorated_definition") {
                MemberAction::PyDefBlock
            } else if kind_is(k, "expression_statement") {
                MemberAction::PyClassExprStmt
            } else if kind_is(k, "comment") {
                MemberAction::Verbatim
            } else {
                MemberAction::Drop
            }
        },
        ContainerId::RubyClassMod => {
            if kind_is(k, "method") || kind_is(k, "singleton_method") {
                MemberAction::RubyMethodBlock
            } else if kind_is(k, "class") || kind_is(k, "module") {
                MemberAction::Nested(ContainerId::RubyClassMod)
            } else if kind_is(k, "comment") {
                MemberAction::Verbatim
            } else if kind_is(k, "call") || kind_is(k, "assignment") {
                MemberAction::VerbatimIfShort
            } else {
                MemberAction::Drop
            }
        },
    }
}

/// The member table of the inner declaration list of an enum body: only
/// leaf members; nothing nests further there.
pub open spec fn s_enum_inner_action(k: Seq<u8>) -> MemberAction {
    if k == ("method_declaration").spec_bytes() || k == ("constructor_declaration").spec_bytes() {
        MemberAction::Body(BodyKind::JavaBody)
    } else if k == ("field_declaration").spec_bytes() || k == (
    "constant_declaration").spec_bytes() || k == ("line_comment").spec_bytes() || k == (
    "block_comment").spec_bytes() {
        MemberAction::Verbatim
    } else {
        MemberAction::Drop
    }
}

fn enum_inner_action(k: &Vec<u8>) -> (r: MemberAction)
    ensures
        r == s_enum_inner_action(k@),
{
    if kind_is(k, "method_declaration") || kind_is(k, "constructor_declaration") {
        MemberAction::Body(BodyKind::JavaBody)
    } else if kind_is(k, "field_declaration") || kind_is(k, "constant_declaration") || kind_is(
        k,
        "line_comment",
    ) || kind_is(k, "block_comment") {
        MemberAction::Verbatim
    } else {
        MemberAction::Drop
    }
}

/// The top-level table of a grammar: what each top-level node kind
/// contributes to the compressed output.
pub open spec fn s_top_action(lang: CompressLanguage, k: Seq<u8>) -> TopAction {
    match lang {
        CompressLanguage::Rust => {
            if k == ("function_item").spec_bytes() {
                TopAction::Body(BodyKind::Block)
            } else if k == ("trait_item").spec_bytes() {
                TopAction::Container(ContainerId::RustTrait)
            } else if k == ("impl_item").spec_bytes() {
                TopAction::Container(ContainerId::RustImpl)
            } else if k == ("use_declaration").spec_bytes() || k == (
            "extern_crate_declaration").spec_bytes() || k == ("mod_item").spec_bytes() || k == (
            "type_item").spec_bytes() || k == ("const_item").spec_bytes() || k == (
            "static_item").spec_bytes() || k == ("attribute_item").spec_bytes() || k == (
            "inner_attribute_item").spec_bytes() || k == ("macro_definition").spec_bytes() || k
                == ("macro_invocation").spec_bytes() || k == ("line_comment").spec_bytes() || k
                == ("block_comment").spec_bytes() || k == ("struct_item").spec_bytes() || k == (
            "enum_item").spec_bytes() {
                TopAction::Verbatim
            } else {
                TopAction::Drop
            }
        },
        CompressLanguage::TypeScript | CompressLanguage::Tsx | CompressLanguage::JavaScript
            | CompressLanguage::Jsx => {
            if k == ("export_statement").spec_bytes() {
                TopAction::TsExport
            } else if k == ("function_declaration").spec_bytes() {
                TopAction::Body(BodyKind::StatementBlock)
            } else if k == ("class_declaration").spec_bytes() {
                TopAction::Container(ContainerId::TsClass)
            } else if k == ("lexical_declaration").spec_bytes() || k == (
            "variable_declaration").spec_bytes() {
                TopAction::TsVariable
            } else if k == ("import_statement").spec_bytes() || k == ("comment").spec_bytes() || k
                == ("interface_declaration").spec_bytes() || k == (
            "type_alias_declaration").spec_bytes() || k == ("enum_declaration").spec_bytes() || k
                == ("export_default_declaration").spec_bytes() || k == ("module").spec_bytes()
                || k == ("ambient_declaration").spec_bytes() {
                TopAction::Verbatim
            } else {
                TopAction::Drop
            }
        },
        CompressLanguage::Python => {
            if k == ("import_statement").spec_bytes() || k == (
            "import_from_statement").spec_bytes() || k == ("future_import_statement").spec_bytes()
                || k == ("comment").spec_bytes() {
                TopAction::Verbatim
            } else if k == ("expression_statement").spec_bytes() {
                TopAction::PyModuleExpr
            } else if k == ("function_definition").spec_bytes() || k == (
            "decorated_definition").spec_bytes() {
                TopAction::PyDef
            } else if k == ("class_definition").spec_bytes() {
                TopAction::Container(ContainerId::PyClass)
            } else if k == ("assignment").spec_bytes() {
                TopAction::VerbatimIfShort
            } else {
                TopAction::Drop
            }
        },
        CompressLanguage::Go => {
            if k == ("function_declaration").spec_bytes() || k == (
            "method_declaration").spec_bytes() {
                TopAction::Body(BodyKind::Block)
            } else if k == ("package_clause").spec_bytes() || k == (
            "import_declaration").spec_bytes() || k == ("comment").spec_bytes() || k == (
            "type_declaration").spec_bytes() || k == ("const_declaration").spec_bytes() || k == (
            "var_declaration").spec_bytes() {
                TopAction::Verbatim
            } else {
                TopAction::Drop
            }
        },
        CompressLanguage::Java => {
            if k == ("class_declaration").spec_bytes() || k == (
            "interface_declaration").spec_bytes() || k == ("enum_declaration").spec_bytes() || k
                == ("record_declaration").spec_bytes() || k == (
            "annotation_type_declaration").spec_bytes() {
                TopAction::Container(ContainerId::JavaLike)
            } else if k == ("package_declaration").spec_bytes() || k == (
            "import_declaration").spec_bytes() || k == ("line_comment").spec_bytes() || k == (
            "block_comment").spec_bytes() {
                TopAction::Verbatim
            } else {
                TopAction::Drop
            }
        },
        CompressLanguage::CSharp => {
            if k == ("namespace_declaration").spec_bytes() || k == (
            "file_scoped_namespace_declaration").spec_bytes() {
                TopAction::Container(ContainerId::CsNamespace)
            } else if k == ("class_declaration").spec_bytes() || k == (
            "interface_declaration").spec_bytes() || k == ("struct_declaration").spec_bytes() || k
                == ("enum_declaration").spec_bytes() || k == ("record_declaration").spec_bytes() {
                TopAction::Container(ContainerId::CsClass)
            } else if k == ("using_directive").spec_bytes() || k == ("comment").spec_bytes() {
                TopAction::Verbatim
            } else {
                TopAction::Drop
            }
        },
        CompressLanguage::C => {
            if k == ("function_definition").spec_bytes() {
                TopAction::Body(BodyKind::Compound)
            } else if k == ("preproc_include").spec_bytes() || k == ("preproc_def").spec_bytes()
                || k == ("preproc_ifdef").spec_bytes() || k == ("preproc_if").spec_bytes() || k
                == ("preproc_ifndef").spec_bytes() || k == ("preproc_function_def").spec_bytes()
                || k == ("preproc_call").spec_bytes() || k == ("comment").spec_bytes() || k == (
            "declaration").spec_bytes() || k == ("type_definition").spec_bytes() || k == (
            "struct_specifier").spec_bytes() || k == ("enum_specifier").spec_bytes() || k == (
            "union_specifier").spec_bytes() {
                TopAction::Verbatim
            } else {
                TopAction::Drop
            }
        },
        CompressLanguage::Cpp => {
            if k == ("function_definition").spec_bytes() {
                TopAction::Body(BodyKind::Compound)
            } else if k == ("class_specifier").spec_bytes() {
                TopAction::Container(ContainerId::CppClass)
            } else if k == ("namespace_definition").spec_bytes() {
                TopAction::Container(ContainerId::CppNamespace)
            } else if k == ("template_declaration").spec_bytes() {
                TopAction::CppTemplate
            } else if k == ("linkage_specification").spec_bytes() {
                TopAction::Container(ContainerId::CppLinkage)
            } else if k == ("preproc_include").spec_bytes() || k == ("preproc_def").spec_bytes()
                || k == ("preproc_ifdef").spec_bytes() || k == ("preproc_if").spec_bytes() || k
                == ("preproc_ifndef").spec_bytes() || k == ("preproc_function_def").spec_bytes()
                || k == ("preproc_call").spec_bytes() || k == ("comment").spec_bytes() || k == (
            "declaration").spec_bytes() || k == ("type_definition").spec_bytes() || k == (
            "using_declaration").spec_bytes() || k == ("alias_declaration").spec_bytes() || k == (
            "struct_specifier").spec_bytes() || k == ("enum_specifier").spec_bytes() || k == (
            "union_specifier").spec_bytes() {
                TopAction::Verbatim
            } else {
                TopAction::Drop
            }
        },
        CompressLanguage::Ruby => {
            if k == ("comment").spec_bytes() {
                TopAction::Verbatim
            } else if k == ("call").spec_bytes() {
                TopAction::RubyCall
            } else if k == ("method").spec_bytes() || k == ("singleton_method").spec_bytes() {
                TopAction::RubyMethod
            } else if k == ("class").spec_bytes() || k == ("module").spec_bytes() {
                TopAction::Container(ContainerId::RubyClassMod)
            } else if k == ("assignment").spec_bytes() {
                TopAction::VerbatimIfShort
            } else {
                TopAction::Drop
            }
        },
        CompressLanguage::Php => {
            if k == ("function_definition").spec_bytes() {
                TopAction::Body(BodyKind::Compound)
            } else if k == ("namespace_definition").spec_bytes() {
                TopAction::Container(ContainerId::PhpNamespace)
            } else if k == ("class_declaration").spec_bytes() || k == (
            "interface_declaration").spec_bytes() || k == ("trait_declaration").spec_bytes() || k
                == ("enum_declaration").spec_bytes() {
                TopAction::Container(ContainerId::PhpClass)
            } else if k == ("php_tag").spec_bytes() || k == (
            "namespace_use_declaration").spec_bytes() || k == ("const_declaration").spec_bytes()
                || k == ("comment").spec_bytes() {
                TopAction::Verbatim
            } else {
                TopAction::Drop
            }
        },
    }
}

fn top_action(lang: CompressLanguage, k: &Vec<u8>) -> (r: TopAction)
    ensures
        r == s_top_action(lang, k@),
{
    match lang {
        CompressLanguage::Rust => {
            if kind_is(k, "function_item") {
                TopAction::Body(BodyKind::Block)
            } else if kind_is(k, "trait_item") {
                TopAction::Container(ContainerId::RustTrait)
            } else if kind_is(k, "impl_item") {
                TopAction::Container(ContainerId::RustImpl)
            } else if kind_is(k, "use_declaration") || kind_is(k, "extern_crate_declaration")
                || kind_is(k, "mod_item") || kind_is(k, "type_item") || kind_is(k, "const_item")
                || kind_is(k, "static_item") || kind_is(k, "attribute_item") || kind_is(
                k,
                "inner_attribute_item",
            ) || kind_is(k, "macro_definition") || kind_is(k, "macro_invocation") || kind_is(
                k,
                "line_comment",
            ) || kind_is(k, "block_comment") || kind_is(k, "struct_item") || kind_is(
                k,
                "enum_item",
            ) {
                TopAction::Verbatim
            } else {
                TopAction::Drop
            }
        },
        CompressLanguage::TypeScript | CompressLanguage::Tsx | CompressLanguage::JavaScript
            | CompressLanguage::Jsx => {
            if kind_is(k, "export_statement") {
                TopAction::TsExport
            } else if kind_is(k, "function_declaration") {
                TopAction::Body(BodyKind::StatementBlock)
            } else if kind_is(k, "class_declaration") {
                TopAction::Container(ContainerId::TsClass)
            } else if kind_is(k, "lexical_declaration") || kind_is(k, "variable_declaration") {
                TopAction::TsVariable
            } else if kind_is(k, "import_statement") || kind_is(k, "comment") || kind_is(
                k,
                "interface_declaration",
            ) || kind_is(k, "type_alias_declaration") || kind_is(k, "enum_declaration") || kind_is(
                k,
                "export_default_declaration",
            ) || kind_is(k, "module") || kind_is(k, "ambient_declaration") {
                TopAction::Verbatim
            } else {
                TopAction::Drop
            }
        },
        CompressLanguage::Python => {
            if kind_is(k, "import_statement") || kind_is(k, "import_from_statement") || kind_is(
                k,
                "future_import_statement",
            ) || kind_is(k, "comment") {
                TopAction::Verbatim
            } else if kind_is(k, "expression_statement") {
                TopAction::PyModuleExpr
            } else if kind_is(k, "function_definition") || kind_is(k, "decorated_definition") {
                TopAction::PyDef
            } else if kind_is(k, "class_definition") {
                TopAction::Container(ContainerId::PyClass)
            } else if kind_is(k, "assignment") {
                TopAction::VerbatimIfShort
            } else {
                TopAction::Drop
            }
        },
        CompressLanguage::Go => {
            if kind_is(k, "function_declaration") || kind_is(k, "method_declaration") {
                TopAction::Body(BodyKind::Block)
            } else if kind_is(k, "package_clause") || kind_is(k, "import_declaration") || kind_is(
                k,
                "comment",
            ) || kind_is(k, "type_declaration") || kind_is(k, "const_declaration") || kind_is(
                k,
                "var_declaration",
            ) {
                TopAction::Verbatim
            } else {
                TopAction::Drop
            }
        },
        CompressLanguage::Java => {
            if kind_is(k, "class_declaration") || kind_is(k, "interface_declaration") || kind_is(
                k,
                "enum_declaration",
            ) || kind_is(k, "record_declaration") || kind_is(k, "annotation_type_declaration") {
                TopAction::Container(ContainerId::JavaLike)
            } else if kind_is(k, "package_declaration") || kind_is(k, "import_declaration")
                || kind_is(k, "line_comment") || kind_is(k, "block_comment") {
                TopAction::Verbatim
            } else {
                TopAction::Drop
            }
        },
        CompressLanguage::CSharp => {
            if kind_is(k, "namespace_declaration") || kind_is(
                k,
                "file_scoped_namespace_declaration",
            ) {
                TopAction::Container(ContainerId::CsNamespace)
            } else if kind_is(k, "class_declaration") || kind_is(k, "interface_declaration")
                || kind_is(k, "struct_declaration") || kind_is(k, "enum_declaration") || kind_is(
                k,
                "record_declaration",
            ) {
                TopAction::Container(ContainerId::CsClass)
            } else if kind_is(k, "using_directive") || kind_is(k, "comment") {
                TopAction::Verbatim
            } else {
                TopAction::Drop
            }
        },
        CompressLanguage::C => {
            if kind_is(k, "function_definition") {
                TopAction::Body(BodyKind::Compound)
            } else if kind_is(k, "preproc_include") || kind_is(k, "preproc_def") || kind_is(
                k,
                "preproc_ifdef",
            ) || kind_is(k, "preproc_if") || kind_is(k, "preproc_ifndef") || kind_is(
                k,
                "preproc_function_def",
            ) || kind_is(k, "preproc_call") || kind_is(k, "comment") || kind_is(k, "declaration")
                || kind_is(k, "type_definition") || kind_is(k, "struct_specifier") || kind_is(
                k,
                "enum_specifier",
            ) || kind_is(k, "union_specifier") {
                TopAction::Verbatim
            } else {
                TopAction::Drop
            }
        },
        CompressLanguage::Cpp => {
            if kind_is(k, "function_definition") {
                TopAction::Body(BodyKind::Compound)
            } else if kind_is(k, "class_specifier") {
                TopAction::Container(ContainerId::CppClass)
            } else if kind_is(k, "namespace_definition") {
                TopAction::Container(ContainerId::CppNamespace)
            } else if kind_is(k, "template_declaration") {
                TopAction::CppTemplate
            } else if kind_is(k, "linkage_specification") {
                TopAction::Container(ContainerId::CppLinkage)
            } else if kind_is(k, "preproc_include") || kind_is(k, "preproc_def") || kind_is(
                k,
                "preproc_ifdef",
            ) || kind_is(k, "preproc_if") || kind_is(k, "preproc_ifndef") || kind_is(
                k,
                "preproc_function_def",
            ) || kind_is(k, "preproc_call") || kind_is(k, "comment") || kind_is(k, "declaration")
                || kind_is(k, "type_definition") || kind_is(k, "using_declaration") || kind_is(
                k,
                "alias_declaration",
            ) || kind_is(k, "struct_specifier") || kind_is(k, "enum_specifier") || kind_is(
                k,
                "union_specifier",
            ) {
                TopAction::Verbatim
            } else {
                TopAction::Drop
            }
        },
        CompressLanguage::Ruby => {
            if kind_is(k, "comment") {
                TopAction::Verbatim
            } else if kind_is(k, "call") {
                TopAction::RubyCall
            } else if kind_is(k, "method") || kind_is(k, "singleton_method") {
                TopAction::RubyMethod
            } else if kind_is(k, "class") || kind_is(k, "module") {
                TopAction::Container(ContainerId::RubyClassMod)
            } else if kind_is(k, "assignment") {
                TopAction::VerbatimIfShort
            } else {
                TopAction::Drop
            }
        },
        CompressLanguage::Php => {
            if kind_is(k, "function_definition") {
                TopAction::Body(BodyKind::Compound)
            } else if kind_is(k, "namespace_definition") {
                TopAction::Container(ContainerId::PhpNamespace)
            } else if kind_is(k, "class_declaration") || kind_is(k, "interface_declaration")
                || kind_is(k, "trait_declaration") || kind_is(k, "enum_declaration") {
                TopAction::Container(ContainerId::PhpClass)
            } else if kind_is(k, "php_tag") || kind_is(k, "namespace_use_declaration") || kind_is(
                k,
                "const_declaration",
            ) || kind_is(k, "comment") {
                TopAction::Verbatim
            } else {
                TopAction::Drop
            }
        },
    }
}


// ---------------------------------------------------------------------------
// The walk, as specification
// ---------------------------------------------------------------------------
/// The first child at or after `i` whose kind the body table accepts.
pub open spec fn s_first_body(cs: Seq<SyntaxNode>, bk: BodyKind, i: int) -> Option<int>
    decreases cs.len() - i,
{
    if !(0 <= i < cs.len()) {
        None
    } else if s_body_matches(bk, cs[i].kind@) {
        Some(i)
    } else {
        s_first_body(cs, bk, i + 1)
    }
}

/// The first child at or after `i` of exactly the kind `k`.
pub open spec fn s_first_kind(cs: Seq<SyntaxNode>, k: Seq<u8>, i: int) -> Option<int>
    decreases cs.len() - i,
{
    if !(0 <= i < cs.len()) {
        None
    } else if cs[i].kind@ == k {
        Some(i)
    } else {
        s_first_kind(cs, k, i + 1)
    }
}

/// The first child at or after `i` that is the member-holding body of a
/// container of kind `nk`.
pub open spec fn s_first_cbody(cs: Seq<SyntaxNode>, id: ContainerId, nk: Seq<u8>, i: int) -> Option<
    int,
>
    decreases cs.len() - i,
{
    if !(0 <= i < cs.len()) {
        None
    } else if s_container_body_matches(id, nk, cs[i].kind@) {
        Some(i)
    } else {
        s_first_cbody(cs, id, nk, i + 1)
    }
}



proof fn lemma_first_cbody_range(cs: Seq<SyntaxNode>, id: ContainerId, nk: Seq<u8>, i: int)
    ensures
        (s_first_cbody(cs, id, nk, i) matches Some(j) ==> i <= j < cs.len()),
    decreases cs.len() - i,
{
    if 0 <= i < cs.len() && !s_container_body_matches(id, nk, cs[i].kind@) {
        lemma_first_cbody_range(cs, id, nk, i + 1);
    }
}

/// The compressed form of a body-bearing construct: everything up to its
/// first body child, trimmed, then the placeholder; a construct without a
/// body passes through whole.
pub open spec fn s_compress_body(src: Seq<u8>, n: SyntaxNode, bk: BodyKind) -> Seq<u8> {
    match s_first_body(n.children@, bk, 0) {
        Some(j) => s_trim_end(src.subrange(n.start as int, n.children@[j].start as int)) + (
        " { ... }").spec_bytes(),
        None => s_node_text(src, n),
    }
}

/// One line, indented.
pub open spec fn s_indented(indent: Seq<u8>, piece: Seq<u8>) -> Seq<u8> {
    indent + piece + seq![10u8]
}

/// The position of the first newline at or after `i`, or the length.
pub open spec fn s_find_nl(s: Seq<u8>, i: int) -> int
    decreases s.len() - i,
{
    if !(0 <= i < s.len()) {
        s.len() as int
    } else if s[i] == 10 {
        i
    } else {
        s_find_nl(s, i + 1)
    }
}

proof fn lemma_find_nl_range(s: Seq<u8>, i: int)
    requires
        0 <= i <= s.len(),
    ensures
        i <= s_find_nl(s, i) <= s.len(),
    decreases s.len() - i,
{
    if i < s.len() && s[i] != 10 {
        lemma_find_nl_range(s, i + 1);
    }
}

/// A multi-line block, each line indented; a carriage return before a line
/// break is dropped with it.
pub open spec fn s_indent_block(indent: Seq<u8>, block: Seq<u8>) -> Seq<u8>
    decreases block.len(),
    via s_indent_block_decreases
{
    if block.len() == 0 {
        Seq::empty()
    } else {
        let j = s_find_nl(block, 0);
        let e = if j < block.len() && j > 0 && block[j - 1] == 13 {
            j - 1
        } else {
            j
        };
        indent + block.subrange(0, e) + seq![10u8] + (if j < block.len() {
            s_indent_block(indent, block.subrange(j + 1, block.len() as int))
        } else {
            Seq::empty()
        })
    }
}

#[via_fn]
proof fn s_indent_block_decreases(indent: Seq<u8>, block: Seq<u8>) {
    if block.len() > 0 {
        lemma_find_nl_range(block, 0);
    }
}

/// What one enum-body declaration contributes: methods and constructors are
/// compressed, fields and comments pass through, anything else is dropped.
pub open spec fn s_unwrap_piece(src: Seq<u8>, d: SyntaxNode) -> Seq<u8> {
    match s_enum_inner_action(d.kind@) {
        MemberAction::Body(bk) => s_indented(("    ").spec_bytes(), s_compress_body(src, d, bk)),
        MemberAction::Verbatim => s_indented(("    ").spec_bytes(), s_node_text(src, d)),
        _ => Seq::empty(),
    }
}

/// The contributions of the first `i` declarations of an enum body.
pub open spec fn s_unwrap_upto(src: Seq<u8>, m: SyntaxNode, i: int) -> Seq<u8>
    decreases node_size(m), 6int, i,
{
    if 0 < i <= m.children@.len() {
        s_unwrap_upto(src, m, i - 1) + s_unwrap_piece(src, m.children@[i - 1])
    } else {
        Seq::empty()
    }
}

/// A compressed signature-only function: the signature, a retained leading
/// docstring where one opens the body, and the ellipsis.
pub open spec fn s_py_fn_inner(src: Seq<u8>, n: SyntaxNode) -> Seq<u8> {
    match s_first_kind(n.children@, ("block").spec_bytes(), 0) {
        Some(j) => {
            let c = n.children@[j];
            let sig = s_trim_end(src.subrange(n.start as int, c.start as int));
            if c.children@.len() > 0 && c.children@[0].kind@ == (
            "expression_statement").spec_bytes() && (s_starts_bytes(
                s_node_text(src, c.children@[0]),
                ("\"\"\"").spec_bytes(),
            ) || s_starts_bytes(s_node_text(src, c.children@[0]), ("'''").spec_bytes())) {
                sig + ("\n    ").spec_bytes() + s_node_text(src, c.children@[0]) + (
                "\n    ...").spec_bytes()
            } else {
                sig + ("\n    ...").spec_bytes()
            }
        },
        None => s_node_text(src, n),
    }
}

/// A compressed method: the signature, an indented ellipsis, and `end`.
pub open spec fn s_ruby_method(src: Seq<u8>, n: SyntaxNode) -> Seq<u8> {
    match s_first_kind(n.children@, ("body_statement").spec_bytes(), 0) {
        Some(j) => s_trim_end(src.subrange(n.start as int, n.children@[j].start as int)) + (
        "\n  ...\nend").spec_bytes(),
        None => s_node_text(src, n),
    }
}

/// The elided body span of the first arrow function with a block body, in
/// document order.
pub open spec fn s_find_arrow(n: SyntaxNode) -> Option<(int, int)>
    decreases node_size(n), 3int, 0int,
{
    if n.kind@ == ("arrow_function").spec_bytes() && (s_first_kind(
        n.children@,
        ("statement_block").spec_bytes(),
        0,
    ) is Some) {
        match s_first_kind(n.children@, ("statement_block").spec_bytes(), 0) {
            Some(j) => Some((n.children@[j].start as int, n.children@[j].end as int)),
            None => None,
        }
    } else {
        s_find_arrow_scan(n, 0)
    }
}

pub open spec fn s_find_arrow_scan(n: SyntaxNode, i: int) -> Option<(int, int)>
    decreases node_size(n), 2int, n.children@.len() - i,
    via s_find_arrow_scan_decreases
{
    if !(0 <= i < n.children@.len()) {
        None
    } else {
        match s_find_arrow(n.children@[i]) {
            Some(r) => Some(r),
            None => s_find_arrow_scan(n, i + 1),
        }
    }
}

#[via_fn]
proof fn s_find_arrow_scan_decreases(n: SyntaxNode, i: int) {
    if 0 <= i < n.children@.len() {
        lemma_child_size(n.children@, i);
    }
}

/// A compressed variable statement: long arrow-function initializers lose
/// their block body, everything else passes through whole.
pub open spec fn s_ts_var(src: Seq<u8>, n: SyntaxNode) -> Seq<u8>
    decreases node_size(n), 5int, 0int,
{
    let t = s_node_text(src, n);
    if s_contains_arrow(t) && t.len() > 80 {
        match s_find_arrow(n) {
            Some(r) => s_trim_end(src.subrange(n.start as int, r.0)) + ("{ ... }").spec_bytes()
                + src.subrange(r.1, n.end as int),
            None => t,
        }
    } else {
        t
    }
}

/// What an export statement compresses to: an exported function keeps its
/// signature, an exported class is walked as a container, anything else
/// passes through whole.
pub open spec fn s_ts_export_scan(src: Seq<u8>, n: SyntaxNode, i: int) -> Seq<u8>
    decreases node_size(n), 3int, n.children@.len() - i,
    via s_ts_export_scan_decreases
{
    if !(0 <= i < n.children@.len()) {
        s_node_text(src, n)
    } else {
        let c = n.children@[i];
        if c.kind@ == ("function_declaration").spec_bytes() {
            match s_first_kind(c.children@, ("statement_block").spec_bytes(), 0) {
                Some(fj) => s_trim_end(src.subrange(n.start as int, c.children@[fj].start as int))
                    + (" { ... }").spec_bytes(),
                None => s_node_text(src, n),
            }
        } else if c.kind@ == ("class_declaration").spec_bytes() {
            src.subrange(n.start as int, c.start as int) + s_container(src, c, ContainerId::TsClass)
        } else {
            s_ts_export_scan(src, n, i + 1)
        }
    }
}

#[via_fn]
proof fn s_ts_export_scan_decreases(src: Seq<u8>, n: SyntaxNode, i: int) {
    if 0 <= i < n.children@.len() {
        lemma_child_size(n.children@, i);
    }
}

/// What a template declaration compresses to: the template prefix, then the
/// compressed templated entity.
pub open spec fn s_cpp_template_scan(src: Seq<u8>, n: SyntaxNode, i: int) -> Seq<u8>
    decreases node_size(n), 3int, n.children@.len() - i,
    via s_cpp_template_scan_decreases
{
    if !(0 <= i < n.children@.len()) {
        s_node_text(src, n)
    } else {
        let c = n.children@[i];
        let prefix = s_trim_end(src.subrange(n.start as int, c.start as int));
        if c.kind@ == ("function_definition").spec_bytes() {
            prefix + ("\n").spec_bytes() + s_compress_body(src, c, BodyKind::Compound)
        } else if c.kind@ == ("class_specifier").spec_bytes() {
            prefix + ("\n").spec_bytes() + s_container(src, c, ContainerId::CppClass)
        } else if c.kind@ == ("declaration").spec_bytes() {
            prefix + ("\n").spec_bytes() + s_node_text(src, c)
        } else {
            s_cpp_template_scan(src, n, i + 1)
        }
    }
}

#[via_fn]
proof fn s_cpp_template_scan_decreases(src: Seq<u8>, n: SyntaxNode, i: int) {
    if 0 <= i < n.children@.len() {
        lemma_child_size(n.children@, i);
    }
}

/// What a decorated or plain definition compresses to: decorators pass
/// through, then the definition itself is compressed.
pub open spec fn s_py_def(src: Seq<u8>, n: SyntaxNode) -> Seq<u8>
    decreases node_size(n), 3int, 0int,
{
    if n.kind@ == ("decorated_definition").spec_bytes() {
        s_py_def_scan(src, n, 0)
    } else {
        s_py_fn_inner(src, n)
    }
}

pub open spec fn s_py_def_scan(src: Seq<u8>, n: SyntaxNode, i: int) -> Seq<u8>
    decreases node_size(n), 2int, n.children@.len() - i,
    via s_py_def_scan_decreases
{
    if !(0 <= i < n.children@.len()) {
        Seq::empty()
    } else {
        let c = n.children@[i];
        if c.kind@ == ("decorator").spec_bytes() {
            s_node_text(src, c) + seq![10u8] + s_py_def_scan(src, n, i + 1)
        } else if c.kind@ == ("function_definition").spec_bytes() {
            s_py_fn_inner(src, c)
        } else if c.kind@ == ("class_definition").spec_bytes() {
            s_container(src, c, ContainerId::PyClass)
        } else {
            s_py_def_scan(src, n, i + 1)
        }
    }
}

#[via_fn]
proof fn s_py_def_scan_decreases(src: Seq<u8>, n: SyntaxNode, i: int) {
    if 0 <= i < n.children@.len() {
        lemma_child_size(n.children@, i);
    }
}

/// What one member of a container contributes to the compressed output.
pub open spec fn s_member_piece(src: Seq<u8>, m: SyntaxNode, id: ContainerId) -> Seq<u8>
    decreases node_size(m), 10int, 0int,
{
    let ind = s_indent_of(id);
    match s_member_action(id, m.kind@) {
        MemberAction::Drop => Seq::empty(),
        MemberAction::Verbatim => s_indented(ind, s_node_text(src, m)),
        MemberAction::VerbatimIfShort => if m.end - m.start <= 120 {
            s_indented(ind, s_node_text(src, m))
        } else {
            Seq::empty()
        },
        MemberAction::Body(bk) => s_indented(ind, s_compress_body(src, m, bk)),
        MemberAction::Nested(id2) => s_indent_block(ind, s_container(src, m, id2)),
        MemberAction::JavaEnumUnwrap => s_unwrap_upto(src, m, m.children@.len() as int),
        MemberAction::PyDefBlock => s_indent_block(ind, s_py_def(src, m)),
        MemberAction::PyClassExprStmt => {
            let t = s_node_text(src, m);
            if s_starts_bytes(t, ("\"\"\"").spec_bytes()) || s_starts_bytes(
                t,
                ("'''").spec_bytes(),
            ) || s_contains_eq(t) {
                s_indented(ind, t)
            } else {
                Seq::empty()
            }
        },
        MemberAction::CppTemplateBlock => s_indent_block(ind, s_cpp_template_scan(src, m, 0)),
        MemberAction::RubyMethodBlock => s_indent_block(ind, s_ruby_method(src, m)),
    }
}

/// The contributions of the first `i` members of the body `bc`.
pub open spec fn s_members_upto(src: Seq<u8>, bc: SyntaxNode, i: int, id: ContainerId) -> Seq<u8>
    decreases node_size(bc), 6int, i,
    via s_members_upto_decreases
{
    if 0 < i <= bc.children@.len() {
        s_members_upto(src, bc, i - 1, id) + s_member_piece(src, bc.children@[i - 1], id)
    } else {
        Seq::empty()
    }
}

#[via_fn]
proof fn s_members_upto_decreases(src: Seq<u8>, bc: SyntaxNode, i: int, id: ContainerId) {
    if 0 < i <= bc.children@.len() {
        lemma_child_size(bc.children@, i - 1);
    }
}

/// What a container construct compresses to: its header up to the body,
/// then each member one level deeper, then the closing marker of its style.
pub open spec fn s_container(src: Seq<u8>, n: SyntaxNode, id: ContainerId) -> Seq<u8>
    decreases node_size(n), 2int, 0int,
    via s_container_decreases
{
    match s_first_cbody(n.children@, id, n.kind@, 0) {
        None => s_node_text(src, n),
        Some(j) => {
            let bc = n.children@[j];
            let header = s_trim_end(src.subrange(n.start as int, bc.start as int));
            let members = s_members_upto(src, bc, bc.children@.len() as int, id);
            match id {
                ContainerId::PyClass => s_trim_end(header + seq![10u8] + members),
                ContainerId::RubyClassMod => header + seq![10u8] + members + ("end").spec_bytes(),
                _ => header + (" {\n").spec_bytes() + members + ("}").spec_bytes(),
            }
        },
    }
}

#[via_fn]
proof fn s_container_decreases(src: Seq<u8>, n: SyntaxNode, id: ContainerId) {
    lemma_first_cbody_range(n.children@, id, n.kind@, 0);
    assert forall|j: int| 0 <= j < n.children@.len() implies node_size(#[trigger] n.children@[j])
        <= seq_size(n.children@) by {
        lemma_child_size(n.children@, j);
    }
}

/// What one top-level node contributes to the compressed output.
pub open spec fn s_top_piece(lang: CompressLanguage, src: Seq<u8>, n: SyntaxNode) -> Seq<u8>
    decreases node_size(n), 10int, 0int,
{
    let t = s_node_text(src, n);
    match s_top_action(lang, n.kind@) {
        TopAction::Drop => Seq::empty(),
        TopAction::Verbatim => t + seq![10u8],
        TopAction::VerbatimIfShort => if n.end - n.start <= 120 {
            t + seq![10u8]
        } else {
            Seq::empty()
        },
        TopAction::Body(bk) => s_compress_body(src, n, bk) + seq![10u8],
        TopAction::Container(id) => s_container(src, n, id) + seq![10u8],
        TopAction::PyDef => s_py_def(src, n) + seq![10u8],
        TopAction::PyModuleExpr => {
            if s_starts_bytes(t, ("\"\"\"").spec_bytes()) || s_starts_bytes(
                t,
                ("'''").spec_bytes(),
            ) {
                t + seq![10u8]
            } else if (s_first_kind(n.children@, ("assignment").spec_bytes(), 0) is Some) && t.len()
                <= 120 {
                t + seq![10u8]
            } else {
                Seq::empty()
            }
        },
        TopAction::TsExport => s_ts_export_scan(src, n, 0) + seq![10u8],
        TopAction::TsVariable => s_ts_var(src, n) + seq![10u8],
        TopAction::RubyCall => if s_starts_bytes(t, ("require").spec_bytes()) {
            t + seq![10u8]
        } else {
            Seq::empty()
        },
        TopAction::RubyMethod => s_ruby_method(src, n) + seq![10u8],
        TopAction::CppTemplate => s_cpp_template_scan(src, n, 0) + seq![10u8],
    }
}

/// The contributions of the first `i` top-level nodes.
pub open spec fn s_top_upto(lang: CompressLanguage, src: Seq<u8>, root: SyntaxNode, i: int) -> Seq<
    u8,
>
    decreases node_size(root), 6int, i,
    via s_top_upto_decreases
{
    if 0 < i <= root.children@.len() {
        s_top_upto(lang, src, root, i - 1) + s_top_piece(lang, src, root.children@[i - 1])
    } else {
        Seq::empty()
    }
}

#[via_fn]
proof fn s_top_upto_decreases(lang: CompressLanguage, src: Seq<u8>, root: SyntaxNode, i: int) {
    if 0 < i <= root.children@.len() {
        lemma_child_size(root.children@, i - 1);
    }
}

/// The compressed text of a whole parse tree: every top-level contribution
/// in order, trimmed of trailing whitespace.
pub open spec fn s_compress_tree(lang: CompressLanguage, src: Seq<u8>, root: SyntaxNode) -> Seq<
    u8,
> {
    s_trim_end(s_top_upto(lang, src, root, root.children@.len() as int))
}


// ---------------------------------------------------------------------------
// The walk, executable
// ---------------------------------------------------------------------------
/// The copy of `src[i..j]`.
fn copy_range(src: &Vec<u8>, i: usize, j: usize) -> (r: Vec<u8>)
    requires
        i <= j <= src@.len(),
    ensures
        r@ == src@.subrange(i as int, j as int),
{
    let mut r: Vec<u8> = Vec::new();
    push_range(&mut r, src, i, j);
    r
}

/// Trims trailing ASCII whitespace off `v` in place.
fn trim_in_place(v: &mut Vec<u8>)
    ensures
        final(v)@ == s_trim_end(old(v)@),
{
    let mut k: usize = v.len();
    while k > 0 && is_ws_byte_exec(v[k - 1])
        invariant
            v@ == old(v)@,
            0 <= k <= v@.len(),
            forall|t: int| k <= t < v@.len() ==> is_ws_byte(v@[t]),
        decreases k,
    {
        k = k - 1;
    }
    proof {
        lemma_trim_end_at(v@, k as int);
    }
    v.truncate(k);
}

/// Appends one member line: the indentation, the piece, and a newline.
fn push_indented_vec(out: &mut Vec<u8>, indent: &str, piece: &Vec<u8>)
    ensures
        final(out)@ == old(out)@ + s_indented(indent.spec_bytes(), piece@),
{
    push_lit(out, indent);
    push_range(out, piece, 0, piece.len());
    out.push(10u8);
    proof {
        assert(out@ =~= old(out)@ + s_indented(indent.spec_bytes(), piece@));
    }
}

/// The member indentation of a container.
fn indent_str(id: ContainerId) -> (r: &'static str)
    ensures
        r.spec_bytes() == s_indent_of(id),
{
    match id {
        ContainerId::RubyClassMod => "  ",
        _ => "    ",
    }
}

/// The first child at or after 0 whose kind `bk` accepts.
fn first_body(children: &Vec<SyntaxNode>, bk: BodyKind) -> (r: Option<usize>)
    ensures
        (r matches Some(j) ==> j < children@.len() && s_first_body(children@, bk, 0) == Some(
            j as int,
        )),
        (r is None ==> s_first_body(children@, bk, 0) is None),
{
    let mut i: usize = 0;
    while i < children.len()
        invariant
            0 <= i <= children@.len(),
            s_first_body(children@, bk, 0) == s_first_body(children@, bk, i as int),
        decreases children@.len() - i,
    {
        if body_matches(bk, &children[i].kind) {
            return Some(i);
        }
        i = i + 1;
    }
    None
}

/// The first child at or after 0 of exactly the kind `lit`.
fn first_kind(children: &Vec<SyntaxNode>, lit: &str) -> (r: Option<usize>)
    ensures
        (r matches Some(j) ==> j < children@.len() && s_first_kind(children@, lit.spec_bytes(), 0)
            == Some(j as int)),
        (r is None ==> s_first_kind(children@, lit.spec_bytes(), 0) is None),
{
    let mut i: usize = 0;
    while i < children.len()
        invariant
            0 <= i <= children@.len(),
            s_first_kind(children@, lit.spec_bytes(), 0) == s_first_kind(
                children@,
                lit.spec_bytes(),
                i as int,
            ),
        decreases children@.len() - i,
    {
        if kind_is(&children[i].kind, lit) {
            return Some(i);
        }
        i = i + 1;
    }
    None
}

/// The first child that is the member-holding body of this container.
fn first_cbody(children: &Vec<SyntaxNode>, id: ContainerId, node_kind: &Vec<u8>) -> (r: Option<
    usize,
>)
    ensures
        (r matches Some(j) ==> j < children@.len() && s_first_cbody(children@, id, node_kind@, 0)
            == Some(j as int)),
        (r is None ==> s_first_cbody(children@, id, node_kind@, 0) is None),
{
    let mut i: usize = 0;
    while i < children.len()
        invariant
            0 <= i <= children@.len(),
            s_first_cbody(children@, id, node_kind@, 0) == s_first_cbody(
                children@,
                id,
                node_kind@,
                i as int,
            ),
        decreases children@.len() - i,
    {
        if container_body_matches(id, node_kind, &children[i].kind) {
            return Some(i);
        }
        i = i + 1;
    }
    None
}

/// Appends the compressed form of a body-bearing construct.
fn push_compress_body(out: &mut Vec<u8>, src: &Vec<u8>, n: &SyntaxNode, bk: BodyKind)
    requires
        node_wf(*n, src@.len()),
    ensures
        final(out)@ == old(out)@ + s_compress_body(src@, *n, bk),
{
    match first_body(&n.children, bk) {
        Some(j) => {
            proof {
                assert(node_wf(*n, src@.len()));
                let c = n.children@[j as int];
                assert(n.start <= c.start && c.end <= n.end && node_wf(c, src@.len()));
                assert(c.start <= c.end);
            }
            push_trimmed_range(out, src, n.start, n.children[j].start);
            push_lit(out, " { ... }");
            proof {
                assert(out@ =~= old(out)@ + s_compress_body(src@, *n, bk));
            }
        },
        None => {
            push_range(out, src, n.start, n.end);
        },
    }
}

/// Appends a multi-line block with indentation, from position `from` on.
fn push_indent_block_from(out: &mut Vec<u8>, indent: &str, block: &Vec<u8>, from: usize)
    requires
        from <= block@.len(),
    ensures
        final(out)@ == old(out)@ + s_indent_block(
            indent.spec_bytes(),
            block@.subrange(from as int, block@.len() as int),
        ),
    decreases block@.len() - from,
{
    let ghost sub = block@.subrange(from as int, block@.len() as int);
    if from == block.len() {
        proof {
            assert(sub.len() == 0);
        }
        return ;
    }
    let mut j: usize = from;
    while j < block.len() && block[j] != 10
        invariant
            from <= j <= block@.len(),
            forall|t: int| from <= t < j ==> block@[t] != 10,
        decreases block@.len() - j,
    {
        j = j + 1;
    }
    proof {
        lemma_find_nl_from_at(sub, j - from);
        assert(forall|t: int| 0 <= t < j - from ==> sub[t] == block@[from + t]);
        if j < block@.len() {
            assert(sub[j - from] == block@[j as int]);
        }
    }
    let e: usize = if j < block.len() && j > from && block[j - 1] == 13 {
        j - 1
    } else {
        j
    };
    push_lit(out, indent);
    push_range(out, block, from, e);
    out.push(10u8);
    proof {
        assert(block@.subrange(from as int, e as int) =~= sub.subrange(0, e - from));
    }
    if j < block.len() {
        proof {
            assert(block@.subrange(j + 1, block@.len() as int) =~= sub.subrange(
                j - from + 1,
                sub.len() as int,
            ));
        }
        push_indent_block_from(out, indent, block, j + 1);
    }
    proof {
        assert(out@ =~= old(out)@ + s_indent_block(indent.spec_bytes(), sub));
    }
}

proof fn lemma_find_nl_from_at(s: Seq<u8>, r: int)
    requires
        0 <= r <= s.len(),
        forall|t: int| 0 <= t < r ==> s[t] != 10,
        r < s.len() ==> s[r] == 10,
    ensures
        s_find_nl(s, 0) == r,
{
    lemma_find_nl_scan(s, 0, r);
}

proof fn lemma_find_nl_scan(s: Seq<u8>, i: int, r: int)
    requires
        0 <= i <= r <= s.len(),
        forall|t: int| i <= t < r ==> s[t] != 10,
        r < s.len() ==> s[r] == 10,
    ensures
        s_find_nl(s, i) == r,
    decreases r - i,
{
    if i < r {
        lemma_find_nl_scan(s, i + 1, r);
    }
}

/// Appends a multi-line block, each line indented.
fn push_indent_block(out: &mut Vec<u8>, indent: &str, block: &Vec<u8>)
    ensures
        final(out)@ == old(out)@ + s_indent_block(indent.spec_bytes(), block@),
{
    proof {
        assert(block@.subrange(0, block@.len() as int) =~= block@);
    }
    push_indent_block_from(out, indent, block, 0);
}

/// Appends a compressed signature-only function, retaining a leading
/// docstring.
fn push_py_fn_inner(out: &mut Vec<u8>, src: &Vec<u8>, n: &SyntaxNode)
    requires
        node_wf(*n, src@.len()),
    ensures
        final(out)@ == old(out)@ + s_py_fn_inner(src@, *n),
{
    match first_kind(&n.children, "block") {
        Some(j) => {
            let c = &n.children[j];
            proof {
                assert(node_wf(*n, src@.len()));
                assert(n.start <= c.start && c.end <= n.end && node_wf(*c, src@.len()));
            }
            let has_doc: bool = if c.children.len() > 0 {
                let d = &c.children[0];
                proof {
                    assert(node_wf(*c, src@.len()));
                    assert(c.start <= d.start && d.end <= c.end && node_wf(*d, src@.len()));
                }
                if kind_is(&d.kind, "expression_statement") {
                    range_starts_with(src, d.start, d.end, "\"\"\"") || range_starts_with(
                        src,
                        d.start,
                        d.end,
                        "'''",
                    )
                } else {
                    false
                }
            } else {
                false
            };
            push_trimmed_range(out, src, n.start, c.start);
            if has_doc {
                let d = &c.children[0];
                proof {
                    assert(node_wf(*c, src@.len()));
                    assert(d.start <= d.end <= src@.len());
                }
                push_lit(out, "\n    ");
                push_range(out, src, d.start, d.end);
                push_lit(out, "\n    ...");
            } else {
                push_lit(out, "\n    ...");
            }
            proof {
                assert(out@ =~= old(out)@ + s_py_fn_inner(src@, *n));
            }
        },
        None => {
            push_range(out, src, n.start, n.end);
        },
    }
}

/// Appends a compressed method in end-delimited style.
fn push_ruby_method(out: &mut Vec<u8>, src: &Vec<u8>, n: &SyntaxNode)
    requires
        node_wf(*n, src@.len()),
    ensures
        final(out)@ == old(out)@ + s_ruby_method(src@, *n),
{
    match first_kind(&n.children, "body_statement") {
        Some(j) => {
            proof {
                assert(node_wf(*n, src@.len()));
                let c = n.children@[j as int];
                assert(n.start <= c.start && c.end <= n.end && node_wf(c, src@.len()));
                assert(c.start <= c.end);
            }
            push_trimmed_range(out, src, n.start, n.children[j].start);
            push_lit(out, "\n  ...\nend");
            proof {
                assert(out@ =~= old(out)@ + s_ruby_method(src@, *n));
            }
        },
        None => {
            push_range(out, src, n.start, n.end);
        },
    }
}

/// The elided body span of the first arrow function with a block body.
fn find_arrow(n: &SyntaxNode) -> (r: Option<(usize, usize)>)
    requires
        node_wf(*n, usize::MAX as nat),
    ensures
        (r matches Some(p) ==> s_find_arrow(*n) == Some((p.0 as int, p.1 as int)) && n.start <= p.0
            <= p.1 <= n.end),
        (r is None ==> s_find_arrow(*n) is None),
    decreases node_size(*n), 3int, 0int,
{
    if kind_is(&n.kind, "arrow_function") {
        match first_kind(&n.children, "statement_block") {
            Some(j) => {
                let c = &n.children[j];
                proof {
                    assert(node_wf(*n, usize::MAX as nat));
                    assert(n.start <= c.start && c.end <= n.end && node_wf(
                        *c,
                        usize::MAX as nat,
                    ));
                    assert(c.start <= c.end);
                }
                return Some((c.start, c.end));
            },
            None => {},
        }
    }
    proof {
        assert(s_find_arrow(*n) == s_find_arrow_scan(*n, 0));
    }
    let mut i: usize = 0;
    while i < n.children.len()
        invariant
            node_wf(*n, usize::MAX as nat),
            0 <= i <= n.children@.len(),
            s_find_arrow(*n) == s_find_arrow_scan(*n, 0),
            s_find_arrow_scan(*n, 0) == s_find_arrow_scan(*n, i as int),
        decreases n.children@.len() - i,
    {
        let c = &n.children[i];
        proof {
            assert(node_wf(*n, usize::MAX as nat));
            assert(n.start <= c.start && c.end <= n.end && node_wf(*c, usize::MAX as nat));
            lemma_child_size(n.children@, i as int);
        }
        match find_arrow(c) {
            Some(p) => {
                return Some(p);
            },
            None => {},
        }
        i = i + 1;
    }
    None
}

/// Appends a compressed variable statement: a long arrow-function
/// initializer loses its block body.
fn push_ts_var(out: &mut Vec<u8>, src: &Vec<u8>, n: &SyntaxNode)
    requires
        node_wf(*n, src@.len()),
    ensures
        final(out)@ == old(out)@ + s_ts_var(src@, *n),
    decreases node_size(*n), 5int, 0int,
{
    let sl = src.len();
    proof {
        assert(node_wf(*n, src@.len()));
        assert(src@.len() == sl <= usize::MAX);
        lemma_node_wf_widen(*n, src@.len(), usize::MAX as nat);
    }
    let has_arrow = range_contains_arrow(src, n.start, n.end);
    if has_arrow && n.end - n.start > 80 {
        match find_arrow(n) {
            Some(p) => {
                proof {
                    assert(node_wf(*n, src@.len()));
                    assert(n.end <= src@.len());
                    assert(n.start <= p.0 <= p.1 <= n.end <= src@.len());
                }
                push_trimmed_range(out, src, n.start, p.0);
                push_lit(out, "{ ... }");
                push_range(out, src, p.1, n.end);
                proof {
                    assert(out@ =~= old(out)@ + s_ts_var(src@, *n));
                }
            },
            None => {
                push_range(out, src, n.start, n.end);
            },
        }
    } else {
        push_range(out, src, n.start, n.end);
    }
}

/// A well-formed tree stays well-formed under a larger bound.
proof fn lemma_node_wf_widen(n: SyntaxNode, a: nat, b: nat)
    requires
        node_wf(n, a),
        a <= b,
    ensures
        node_wf(n, b),
    decreases n,
{
    assert forall|i: int| 0 <= i < n.children@.len() implies {
        let c = #[trigger] n.children@[i];
        n.start <= c.start && c.end <= n.end && node_wf(c, b)
    } by {
        lemma_node_wf_widen(n.children@[i], a, b);
    }
}


/// Appends a compressed export statement.
fn push_ts_export(out: &mut Vec<u8>, src: &Vec<u8>, n: &SyntaxNode)
    requires
        node_wf(*n, src@.len()),
    ensures
        final(out)@ == old(out)@ + s_ts_export_scan(src@, *n, 0),
    decreases node_size(*n), 3int, 0int,
{
    let ghost out0 = out@;
    let mut i: usize = 0;
    while i < n.children.len()
        invariant
            node_wf(*n, src@.len()),
            out@ == out0,
            out0 == old(out)@,
            0 <= i <= n.children@.len(),
            s_ts_export_scan(src@, *n, 0) == s_ts_export_scan(src@, *n, i as int),
        decreases n.children@.len() - i,
    {
        let c = &n.children[i];
        proof {
            assert(node_wf(*n, src@.len()));
            assert(n.start <= c.start && c.end <= n.end && node_wf(*c, src@.len()));
        }
        if kind_is(&c.kind, "function_declaration") {
            match first_kind(&c.children, "statement_block") {
                Some(fj) => {
                    let fc = &c.children[fj];
                    proof {
                        assert(node_wf(*c, src@.len()));
                        assert(c.start <= fc.start && fc.end <= c.end && node_wf(
                            *fc,
                            src@.len(),
                        ));
                        assert(fc.start <= fc.end);
                    }
                    push_trimmed_range(out, src, n.start, fc.start);
                    push_lit(out, " { ... }");
                },
                None => {
                    push_range(out, src, n.start, n.end);
                },
            }
            proof {
                assert(out@ =~= out0 + s_ts_export_scan(src@, *n, i as int));
                assert(out@ =~= out0 + s_ts_export_scan(src@, *n, 0));
            }
            return ;
        }
        if kind_is(&c.kind, "class_declaration") {
            push_range(out, src, n.start, c.start);
            let mut b: Vec<u8> = Vec::new();
            proof {
                lemma_child_size(n.children@, i as int);
            }
            push_container(&mut b, src, c, ContainerId::TsClass);
            let mut b2 = b;
            out.append(&mut b2);
            proof {
                assert(out@ =~= out0 + s_ts_export_scan(src@, *n, i as int));
                assert(out@ =~= out0 + s_ts_export_scan(src@, *n, 0));
            }
            return ;
        }
        proof {
            assert(s_ts_export_scan(src@, *n, i as int) == s_ts_export_scan(src@, *n, i + 1));
        }
        i = i + 1;
    }
    push_range(out, src, n.start, n.end);
    proof {
        assert(s_ts_export_scan(src@, *n, i as int) == s_node_text(src@, *n));
        assert(out@ =~= out0 + s_ts_export_scan(src@, *n, 0));
    }
}

/// Appends a compressed template declaration.
fn push_cpp_template(out: &mut Vec<u8>, src: &Vec<u8>, n: &SyntaxNode)
    requires
        node_wf(*n, src@.len()),
    ensures
        final(out)@ == old(out)@ + s_cpp_template_scan(src@, *n, 0),
    decreases node_size(*n), 3int, 0int,
{
    let ghost out0 = out@;
    let mut i: usize = 0;
    while i < n.children.len()
        invariant
            node_wf(*n, src@.len()),
            out@ == out0,
            out0 == old(out)@,
            0 <= i <= n.children@.len(),
            s_cpp_template_scan(src@, *n, 0) == s_cpp_template_scan(src@, *n, i as int),
        decreases n.children@.len() - i,
    {
        let c = &n.children[i];
        proof {
            assert(node_wf(*n, src@.len()));
            assert(n.start <= c.start && c.end <= n.end && node_wf(*c, src@.len()));
            assert(c.start <= c.end);
            lemma_child_size(n.children@, i as int);
        }
        if kind_is(&c.kind, "function_definition") {
            push_trimmed_range(out, src, n.start, c.start);
            push_lit(out, "\n");
            push_compress_body(out, src, c, BodyKind::Compound);
            proof {
                assert(out@ =~= out0 + s_cpp_template_scan(src@, *n, i as int));
                assert(out@ =~= out0 + s_cpp_template_scan(src@, *n, 0));
            }
            return ;
        }
        if kind_is(&c.kind, "class_specifier") {
            push_trimmed_range(out, src, n.start, c.start);
            push_lit(out, "\n");
            push_container(out, src, c, ContainerId::CppClass);
            proof {
                assert(out@ =~= out0 + s_cpp_template_scan(src@, *n, i as int));
                assert(out@ =~= out0 + s_cpp_template_scan(src@, *n, 0));
            }
            return ;
        }
        if kind_is(&c.kind, "declaration") {
            push_trimmed_range(out, src, n.start, c.start);
            push_lit(out, "\n");
            push_range(out, src, c.start, c.end);
            proof {
                assert(out@ =~= out0 + s_cpp_template_scan(src@, *n, i as int));
                assert(out@ =~= out0 + s_cpp_template_scan(src@, *n, 0));
            }
            return ;
        }
        proof {
            assert(s_cpp_template_scan(src@, *n, i as int) == s_cpp_template_scan(
                src@,
                *n,
                i + 1,
            ));
        }
        i = i + 1;
    }
    push_range(out, src, n.start, n.end);
    proof {
        assert(s_cpp_template_scan(src@, *n, i as int) == s_node_text(src@, *n));
        assert(out@ =~= out0 + s_cpp_template_scan(src@, *n, 0));
    }
}

/// Appends a compressed definition, decorated or plain.
fn push_py_def(out: &mut Vec<u8>, src: &Vec<u8>, n: &SyntaxNode)
    requires
        node_wf(*n, src@.len()),
    ensures
        final(out)@ == old(out)@ + s_py_def(src@, *n),
    decreases node_size(*n), 3int, 0int,
{
    if !kind_is(&n.kind, "decorated_definition") {
        push_py_fn_inner(out, src, n);
        return ;
    }
    let ghost out0 = out@;
    let mut i: usize = 0;
    while i < n.children.len()
        invariant
            node_wf(*n, src@.len()),
            n.kind@ == ("decorated_definition").spec_bytes(),
            out0 == old(out)@,
            0 <= i <= n.children@.len(),
            out0 + s_py_def_scan(src@, *n, 0) == out@ + s_py_def_scan(src@, *n, i as int),
        decreases n.children@.len() - i,
    {
        let c = &n.children[i];
        proof {
            assert(node_wf(*n, src@.len()));
            assert(n.start <= c.start && c.end <= n.end && node_wf(*c, src@.len()));
            assert(c.start <= c.end);
            lemma_child_size(n.children@, i as int);
        }
        if kind_is(&c.kind, "decorator") {
            let ghost pre = out@;
            push_range(out, src, c.start, c.end);
            out.push(10u8);
            proof {
                assert(s_py_def_scan(src@, *n, i as int) == s_node_text(src@, *c) + seq![10u8]
                    + s_py_def_scan(src@, *n, i + 1));
                assert(out@ =~= pre + s_node_text(src@, *c) + seq![10u8]);
                assert(out0 + s_py_def_scan(src@, *n, 0) =~= out@ + s_py_def_scan(
                    src@,
                    *n,
                    i + 1,
                ));
            }
        } else if kind_is(&c.kind, "function_definition") {
            push_py_fn_inner(out, src, c);
            proof {
                assert(s_py_def_scan(src@, *n, i as int) == s_py_fn_inner(src@, *c));
                assert(out@ =~= out0 + s_py_def_scan(src@, *n, 0));
                assert(out@ =~= out0 + s_py_def(src@, *n));
            }
            return ;
        } else if kind_is(&c.kind, "class_definition") {
            push_container(out, src, c, ContainerId::PyClass);
            proof {
                assert(s_py_def_scan(src@, *n, i as int) == s_container(
                    src@,
                    *c,
                    ContainerId::PyClass,
                ));
                assert(out@ =~= out0 + s_py_def_scan(src@, *n, 0));
                assert(out@ =~= out0 + s_py_def(src@, *n));
            }
            return ;
        } else {
            proof {
                assert(s_py_def_scan(src@, *n, i as int) == s_py_def_scan(src@, *n, i + 1));
            }
        }
        i = i + 1;
    }
    proof {
        assert(s_py_def_scan(src@, *n, n.children@.len() as int) =~= Seq::<u8>::empty());
        assert(out@ =~= out0 + s_py_def_scan(src@, *n, 0));
        assert(out@ =~= out0 + s_py_def(src@, *n));
    }
}

/// Appends the contribution of one container member.
fn push_member_piece(out: &mut Vec<u8>, src: &Vec<u8>, m: &SyntaxNode, id: ContainerId)
    requires
        node_wf(*m, src@.len()),
    ensures
        final(out)@ == old(out)@ + s_member_piece(src@, *m, id),
    decreases node_size(*m), 10int, 0int,
{
    let ind = indent_str(id);
    match member_action(id, &m.kind) {
        MemberAction::Drop => {},
        MemberAction::Verbatim => {
            proof {
                assert(node_wf(*m, src@.len()));
            }
            let t = copy_range(src, m.start, m.end);
            push_indented_vec(out, ind, &t);
        },
        MemberAction::VerbatimIfShort => {
            proof {
                assert(node_wf(*m, src@.len()));
            }
            if m.end - m.start <= 120 {
                let t = copy_range(src, m.start, m.end);
                push_indented_vec(out, ind, &t);
            }
        },
        MemberAction::Body(bk) => {
            let mut b: Vec<u8> = Vec::new();
            push_compress_body(&mut b, src, m, bk);
            push_indented_vec(out, ind, &b);
        },
        MemberAction::Nested(id2) => {
            let mut b: Vec<u8> = Vec::new();
            push_container(&mut b, src, m, id2);
            push_indent_block(out, ind, &b);
        },
        MemberAction::JavaEnumUnwrap => {
            let ghost out0 = out@;
            let mut i: usize = 0;
            while i < m.children.len()
                invariant
                    node_wf(*m, src@.len()),
                    0 <= i <= m.children@.len(),
                    out@ == out0 + s_unwrap_upto(src@, *m, i as int),
                decreases m.children@.len() - i,
            {
                let d = &m.children[i];
                proof {
                    assert(node_wf(*m, src@.len()));
                    assert(m.start <= d.start && d.end <= m.end && node_wf(*d, src@.len()));
                }
                match enum_inner_action(&d.kind) {
                    MemberAction::Body(bk) => {
                        let mut b: Vec<u8> = Vec::new();
                        push_compress_body(&mut b, src, d, bk);
                        push_indented_vec(out, "    ", &b);
                    },
                    MemberAction::Verbatim => {
                        let t = copy_range(src, d.start, d.end);
                        push_indented_vec(out, "    ", &t);
                    },
                    _ => {},
                }
                proof {
                    assert(out@ =~= out0 + s_unwrap_upto(src@, *m, i + 1));
                }
                i = i + 1;
            }
            proof {
                assert(out@ =~= old(out)@ + s_member_piece(src@, *m, id));
            }
        },
        MemberAction::PyDefBlock => {
            let mut b: Vec<u8> = Vec::new();
            push_py_def(&mut b, src, m);
            push_indent_block(out, ind, &b);
        },
        MemberAction::PyClassExprStmt => {
            proof {
                assert(node_wf(*m, src@.len()));
            }
            let emit = range_starts_with(src, m.start, m.end, "\"\"\"") || range_starts_with(
                src,
                m.start,
                m.end,
                "'''",
            ) || range_contains_eq(src, m.start, m.end);
            if emit {
                let t = copy_range(src, m.start, m.end);
                push_indented_vec(out, ind, &t);
            }
        },
        MemberAction::CppTemplateBlock => {
            let mut b: Vec<u8> = Vec::new();
            push_cpp_template(&mut b, src, m);
            push_indent_block(out, ind, &b);
        },
        MemberAction::RubyMethodBlock => {
            let mut b: Vec<u8> = Vec::new();
            push_ruby_method(&mut b, src, m);
            push_indent_block(out, ind, &b);
        },
    }
}

/// Appends every member contribution of the body `bc`.
fn push_members(out: &mut Vec<u8>, src: &Vec<u8>, bc: &SyntaxNode, id: ContainerId)
    requires
        node_wf(*bc, src@.len()),
    ensures
        final(out)@ == old(out)@ + s_members_upto(src@, *bc, bc.children@.len() as int, id),
    decreases node_size(*bc), 6int, 0int,
{
    let ghost out0 = out@;
    let mut i: usize = 0;
    while i < bc.children.len()
        invariant
            node_wf(*bc, src@.len()),
            0 <= i <= bc.children@.len(),
            out@ == out0 + s_members_upto(src@, *bc, i as int, id),
        decreases bc.children@.len() - i,
    {
        let c = &bc.children[i];
        proof {
            assert(node_wf(*bc, src@.len()));
            assert(bc.start <= c.start && c.end <= bc.end && node_wf(*c, src@.len()));
            lemma_child_size(bc.children@, i as int);
        }
        push_member_piece(out, src, c, id);
        proof {
            assert(out@ =~= out0 + s_members_upto(src@, *bc, i + 1, id));
        }
        i = i + 1;
    }
}

/// Appends a compressed container construct.
fn push_container(out: &mut Vec<u8>, src: &Vec<u8>, n: &SyntaxNode, id: ContainerId)
    requires
        node_wf(*n, src@.len()),
    ensures
        final(out)@ == old(out)@ + s_container(src@, *n, id),
    decreases node_size(*n), 2int, 0int,
{
    match first_cbody(&n.children, id, &n.kind) {
        None => {
            proof {
                assert(node_wf(*n, src@.len()));
            }
            push_range(out, src, n.start, n.end);
        },
        Some(j) => {
            let bc = &n.children[j];
            proof {
                assert(node_wf(*n, src@.len()));
                assert(n.start <= bc.start && bc.end <= n.end && node_wf(*bc, src@.len()));
                assert(bc.start <= bc.end);
                lemma_child_size(n.children@, j as int);
            }
            let ghost header_v = s_trim_end(src@.subrange(n.start as int, bc.start as int));
            let ghost members_v = s_members_upto(src@, *bc, bc.children@.len() as int, id);
            let mut t: Vec<u8> = Vec::new();
            push_trimmed_range(&mut t, src, n.start, bc.start);
            match id {
                ContainerId::PyClass => {
                    t.push(10u8);
                    proof {
                        assert(t@ =~= header_v + seq![10u8]);
                    }
                    push_members(&mut t, src, bc, id);
                    proof {
                        assert(t@ =~= header_v + seq![10u8] + members_v);
                    }
                    trim_in_place(&mut t);
                },
                ContainerId::RubyClassMod => {
                    t.push(10u8);
                    proof {
                        assert(t@ =~= header_v + seq![10u8]);
                    }
                    push_members(&mut t, src, bc, id);
                    push_lit(&mut t, "end");
                    proof {
                        assert(t@ =~= header_v + seq![10u8] + members_v + ("end").spec_bytes());
                    }
                },
                _ => {
                    push_lit(&mut t, " {\n");
                    push_members(&mut t, src, bc, id);
                    push_lit(&mut t, "}");
                    proof {
                        assert(t@ =~= header_v + (" {\n").spec_bytes() + members_v + (
                        "}").spec_bytes());
                    }
                },
            }
            proof {
                assert(t@ =~= s_container(src@, *n, id));
            }
            let mut t2 = t;
            out.append(&mut t2);
        },
    }
}

/// Appends the contribution of one top-level node.
fn push_top_piece(out: &mut Vec<u8>, lang: CompressLanguage, src: &Vec<u8>, n: &SyntaxNode)
    requires
        node_wf(*n, src@.len()),
    ensures
        final(out)@ == old(out)@ + s_top_piece(lang, src@, *n),
    decreases node_size(*n), 10int, 0int,
{
    proof {
        assert(node_wf(*n, src@.len()));
    }
    match top_action(lang, &n.kind) {
        TopAction::Drop => {},
        TopAction::Verbatim => {
            push_range(out, src, n.start, n.end);
            out.push(10u8);
            proof {
                assert(out@ =~= old(out)@ + s_top_piece(lang, src@, *n));
            }
        },
        TopAction::VerbatimIfShort => {
            if n.end - n.start <= 120 {
                push_range(out, src, n.start, n.end);
                out.push(10u8);
                proof {
                    assert(out@ =~= old(out)@ + s_top_piece(lang, src@, *n));
                }
            }
        },
        TopAction::Body(bk) => {
            push_compress_body(out, src, n, bk);
            out.push(10u8);
            proof {
                assert(out@ =~= old(out)@ + s_top_piece(lang, src@, *n));
            }
        },
        TopAction::Container(id) => {
            push_container(out, src, n, id);
            out.push(10u8);
            proof {
                assert(out@ =~= old(out)@ + s_top_piece(lang, src@, *n));
            }
        },
        TopAction::PyDef => {
            push_py_def(out, src, n);
            out.push(10u8);
            proof {
                assert(out@ =~= old(out)@ + s_top_piece(lang, src@, *n));
            }
        },
        TopAction::PyModuleExpr => {
            let is_doc = range_starts_with(src, n.start, n.end, "\"\"\"") || range_starts_with(
                src,
                n.start,
                n.end,
                "'''",
            );
            if is_doc {
                push_range(out, src, n.start, n.end);
                out.push(10u8);
            } else {
                let has_assign = match first_kind(&n.children, "assignment") {
                    Some(_) => true,
                    None => false,
                };
                if has_assign && n.end - n.start <= 120 {
                    push_range(out, src, n.start, n.end);
                    out.push(10u8);
                }
            }
            proof {
                assert(out@ =~= old(out)@ + s_top_piece(lang, src@, *n));
            }
        },
        TopAction::TsExport => {
            push_ts_export(out, src, n);
            out.push(10u8);
            proof {
                assert(out@ =~= old(out)@ + s_top_piece(lang, src@, *n));
            }
        },
        TopAction::TsVariable => {
            push_ts_var(out, src, n);
            out.push(10u8);
            proof {
                assert(out@ =~= old(out)@ + s_top_piece(lang, src@, *n));
            }
        },
        TopAction::RubyCall => {
            if range_starts_with(src, n.start, n.end, "require") {
                push_range(out, src, n.start, n.end);
                out.push(10u8);
            }
            proof {
                assert(out@ =~= old(out)@ + s_top_piece(lang, src@, *n));
            }
        },
        TopAction::RubyMethod => {
            push_ruby_method(out, src, n);
            out.push(10u8);
            proof {
                assert(out@ =~= old(out)@ + s_top_piece(lang, src@, *n));
            }
        },
        TopAction::CppTemplate => {
            push_cpp_template(out, src, n);
            out.push(10u8);
            proof {
                assert(out@ =~= old(out)@ + s_top_piece(lang, src@, *n));
            }
        },
    }
}

/// The compressed text of a parsed tree: every top-level construct, each
/// classified by the grammar's table, with the whole output trimmed of
/// trailing whitespace.
pub fn compress_tree(src: &Vec<u8>, root: &SyntaxNode, lang: CompressLanguage) -> (r: Vec<u8>)
    requires
        node_wf(*root, src@.len()),
    ensures
        r@ == s_compress_tree(lang, src@, *root),
{
    let mut out: Vec<u8> = Vec::new();
    let mut i: usize = 0;
    while i < root.children.len()
        invariant
            node_wf(*root, src@.len()),
            0 <= i <= root.children@.len(),
            out@ == s_top_upto(lang, src@, *root, i as int),
        decreases root.children@.len() - i,
    {
        let c = &root.children[i];
        proof {
            assert(node_wf(*root, src@.len()));
            assert(root.start <= c.start && c.end <= root.end && node_wf(*c, src@.len()));
            lemma_child_size(root.children@, i as int);
        }
        push_top_piece(&mut out, lang, src, c);
        proof {
            assert(out@ =~= s_top_upto(lang, src@, *root, i + 1));
        }
        i = i + 1;
    }
    trim_in_place(&mut out);
    out
}

} // verus!
