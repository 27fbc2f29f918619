use emmylua_core::completion::{CallDisplay, CompletionData};
use emmylua_core::kind::{LuaSyntaxKind, LuaTokenKind, SourceRange};
use emmylua_core::semantic::{
    infer_expr, infer_expr_property_owner, infer_node_property_owner, infer_node_semantic_info,
    infer_token_property_owner, infer_token_semantic_info, DbIndex, DeclIndex, FileId, InferIndex,
    LuaDecl, LuaDeclId, LuaExpr, LuaInferConfig, LuaMember, LuaMemberId, LuaPropertyOwnerId,
    LuaSyntaxId, LuaType, LuaTypeDecl, LuaTypeDeclId, MemberIndex, OwnerIndex, SemanticInfo,
    TypeIndex,
};
use emmylua_core::tree::{GreenChild, GreenNodeData, GreenToken, GreenTree, LuaSyntaxNode, LuaSyntaxToken};

fn tok_child(kind: LuaTokenKind, text: &str) -> GreenChild {
    GreenChild::Token(GreenToken {
        kind,
        text: text.as_bytes().to_vec(),
    })
}

fn node(kind: LuaSyntaxKind, width: usize, children: Vec<GreenChild>) -> GreenNodeData {
    GreenNodeData {
        kind,
        width,
        children,
    }
}

/// A chunk holding one node of the given kind whose children are tokens.
fn tree_with(kind: LuaSyntaxKind, children: Vec<GreenChild>) -> GreenTree {
    let mut width = 0;
    for c in &children {
        if let GreenChild::Token(t) = c {
            width += t.text.len();
        }
    }
    GreenTree {
        nodes: vec![
            node(kind, width, children),
            node(LuaSyntaxKind::Chunk, width, vec![GreenChild::Node(0)]),
        ],
        root: 1,
    }
}

fn empty_db() -> DbIndex {
    DbIndex {
        decl_index: DeclIndex { decls: vec![] },
        member_index: MemberIndex { members: vec![] },
        type_index: TypeIndex { types: vec![] },
        expr_type_index: InferIndex { entries: vec![] },
        expr_owner_index: OwnerIndex { entries: vec![] },
    }
}

fn fid(n: u32) -> FileId {
    FileId { id: n }
}

#[test]
fn declaration_fast_path_resolves_by_token_offset() {
    let g = tree_with(LuaSyntaxKind::LocalName, vec![tok_child(LuaTokenKind::TkName, "x")]);
    let decl_id = LuaDeclId::new(fid(1), 0);
    let mut db = empty_db();
    db.decl_index.decls.push((
        decl_id,
        LuaDecl {
            typ: Some(LuaType::Integer),
        },
    ));
    let mut config = LuaInferConfig::new(fid(1));
    let token = LuaSyntaxToken {
        tree: &g,
        path: vec![0, 0],
    };
    let info = infer_token_semantic_info(&db, &mut config, token).unwrap();
    assert_eq!(info.typ, LuaType::Integer);
    assert_eq!(
        info.property_owner,
        Some(LuaPropertyOwnerId::LuaDecl(decl_id))
    );
    // owner-only agrees and needs no index entry at all
    let token = LuaSyntaxToken {
        tree: &g,
        path: vec![0, 0],
    };
    let owner = infer_token_property_owner(&db, &mut config, token);
    assert_eq!(owner, Some(LuaPropertyOwnerId::LuaDecl(decl_id)));
}

#[test]
fn declaration_without_type_yields_unknown_sentinel() {
    let g = tree_with(LuaSyntaxKind::ParamName, vec![tok_child(LuaTokenKind::TkName, "p")]);
    let decl_id = LuaDeclId::new(fid(2), 0);
    let mut db = empty_db();
    db.decl_index.decls.push((decl_id, LuaDecl { typ: None }));
    let mut config = LuaInferConfig::new(fid(2));
    let token = LuaSyntaxToken {
        tree: &g,
        path: vec![0, 0],
    };
    let info = infer_token_semantic_info(&db, &mut config, token).unwrap();
    assert_eq!(info.typ, LuaType::Unknown);
    assert_eq!(
        info.property_owner,
        Some(LuaPropertyOwnerId::LuaDecl(decl_id))
    );
}

#[test]
fn unindexed_declaration_yields_no_result() {
    let g = tree_with(LuaSyntaxKind::LocalName, vec![tok_child(LuaTokenKind::TkName, "x")]);
    let db = empty_db();
    let mut config = LuaInferConfig::new(fid(1));
    let token = LuaSyntaxToken {
        tree: &g,
        path: vec![0, 0],
    };
    assert_eq!(infer_token_semantic_info(&db, &mut config, token), None);
}

#[test]
fn expression_node_pairs_inferred_type_with_owner() {
    let g = tree_with(LuaSyntaxKind::NameExpr, vec![tok_child(LuaTokenKind::TkName, "y")]);
    let id = LuaSyntaxId {
        kind: LuaSyntaxKind::NameExpr,
        range: SourceRange {
            start_offset: 0,
            length: 1,
        },
    };
    let owner = LuaPropertyOwnerId::LuaDecl(LuaDeclId::new(fid(1), 9));
    let mut db = empty_db();
    db.expr_type_index.entries.push((id, LuaType::Table));
    db.expr_owner_index.entries.push((id, owner));
    let mut config = LuaInferConfig::new(fid(1));
    let node = LuaSyntaxNode {
        tree: &g,
        path: vec![0],
    };
    let info = infer_node_semantic_info(&db, &mut config, node).unwrap();
    assert_eq!(
        info,
        SemanticInfo {
            typ: LuaType::Table,
            property_owner: Some(owner)
        }
    );
}

#[test]
fn inference_miss_degrades_to_unknown_not_to_none() {
    let g = tree_with(LuaSyntaxKind::NameExpr, vec![tok_child(LuaTokenKind::TkName, "y")]);
    let id = LuaSyntaxId {
        kind: LuaSyntaxKind::NameExpr,
        range: SourceRange {
            start_offset: 0,
            length: 1,
        },
    };
    let owner = LuaPropertyOwnerId::LuaDecl(LuaDeclId::new(fid(1), 4));
    let mut db = empty_db();
    db.expr_owner_index.entries.push((id, owner));
    let mut config = LuaInferConfig::new(fid(1));
    let node = LuaSyntaxNode {
        tree: &g,
        path: vec![0],
    };
    let info = infer_node_semantic_info(&db, &mut config, node).unwrap();
    assert_eq!(info.typ, LuaType::Unknown);
    assert_eq!(info.property_owner, Some(owner));
    // even with no owner either, the expression still resolves
    let db2 = empty_db();
    let node = LuaSyntaxNode {
        tree: &g,
        path: vec![0],
    };
    let info2 = infer_node_semantic_info(&db2, &mut config, node).unwrap();
    assert_eq!(info2.typ, LuaType::Unknown);
    assert_eq!(info2.property_owner, None);
}

#[test]
fn resolvers_agree_on_expression_tokens() {
    let g = tree_with(LuaSyntaxKind::NameExpr, vec![tok_child(LuaTokenKind::TkName, "y")]);
    let id = LuaSyntaxId {
        kind: LuaSyntaxKind::NameExpr,
        range: SourceRange {
            start_offset: 0,
            length: 1,
        },
    };
    let owner = LuaPropertyOwnerId::TypeDecl(LuaTypeDeclId { id: 3 });
    let mut db = empty_db();
    db.expr_type_index.entries.push((id, LuaType::Function));
    db.expr_owner_index.entries.push((id, owner));
    let mut config = LuaInferConfig::new(fid(1));
    let token = LuaSyntaxToken {
        tree: &g,
        path: vec![0, 0],
    };
    let info = infer_token_semantic_info(&db, &mut config, token).unwrap();
    let token = LuaSyntaxToken {
        tree: &g,
        path: vec![0, 0],
    };
    let owner_only = infer_token_property_owner(&db, &mut config, token);
    assert_eq!(owner_only, info.property_owner);
}

#[test]
fn indexed_table_field_resolves_to_member() {
    let g = tree_with(
        LuaSyntaxKind::TableFieldAssign,
        vec![
            tok_child(LuaTokenKind::TkName, "x"),
            tok_child(LuaTokenKind::TkAssign, "="),
            tok_child(LuaTokenKind::TkInt, "2"),
        ],
    );
    let member_id = LuaMemberId::new(
        LuaSyntaxId {
            kind: LuaSyntaxKind::TableFieldAssign,
            range: SourceRange {
                start_offset: 0,
                length: 3,
            },
        },
        fid(1),
    );
    let mut db = empty_db();
    db.member_index.members.push((
        member_id,
        LuaMember {
            decl_type: LuaType::Boolean,
        },
    ));
    let mut config = LuaInferConfig::new(fid(1));
    let node = LuaSyntaxNode {
        tree: &g,
        path: vec![0],
    };
    let info = infer_node_semantic_info(&db, &mut config, node).unwrap();
    assert_eq!(info.typ, LuaType::Boolean);
    assert_eq!(info.property_owner, Some(LuaPropertyOwnerId::Member(member_id)));
}

#[test]
fn unindexed_table_field_gives_no_semantic_info_but_an_owner() {
    let g = tree_with(
        LuaSyntaxKind::TableFieldValue,
        vec![tok_child(LuaTokenKind::TkInt, "1")],
    );
    let db = empty_db();
    let mut config = LuaInferConfig::new(fid(1));
    let node = LuaSyntaxNode {
        tree: &g,
        path: vec![0],
    };
    assert_eq!(infer_node_semantic_info(&db, &mut config, node), None);
    let node = LuaSyntaxNode {
        tree: &g,
        path: vec![0],
    };
    let member_id = LuaMemberId::new(
        LuaSyntaxId {
            kind: LuaSyntaxKind::TableFieldValue,
            range: SourceRange {
                start_offset: 0,
                length: 1,
            },
        },
        fid(1),
    );
    assert_eq!(
        infer_node_property_owner(&db, &mut config, node),
        Some(LuaPropertyOwnerId::Member(member_id))
    );
}

#[test]
fn doc_name_type_resolves_through_type_index() {
    let g = tree_with(
        LuaSyntaxKind::DocNameType,
        vec![tok_child(LuaTokenKind::TkName, "Foo")],
    );
    let td = LuaTypeDecl {
        id: LuaTypeDeclId { id: 7 },
    };
    let mut db = empty_db();
    db.type_index.types.push((fid(1), b"Foo".to_vec(), td));
    let mut config = LuaInferConfig::new(fid(1));
    let node = LuaSyntaxNode {
        tree: &g,
        path: vec![0],
    };
    let info = infer_node_semantic_info(&db, &mut config, node).unwrap();
    assert_eq!(info.typ, LuaType::Ref(LuaTypeDeclId { id: 7 }));
    assert_eq!(
        info.property_owner,
        Some(LuaPropertyOwnerId::TypeDecl(LuaTypeDeclId { id: 7 }))
    );
}

#[test]
fn unresolved_doc_name_yields_no_result() {
    let g = tree_with(
        LuaSyntaxKind::DocNameType,
        vec![tok_child(LuaTokenKind::TkName, "Bar")],
    );
    let db = empty_db();
    let mut config = LuaInferConfig::new(fid(1));
    let node = LuaSyntaxNode {
        tree: &g,
        path: vec![0],
    };
    assert_eq!(infer_node_semantic_info(&db, &mut config, node), None);
}

#[test]
fn type_def_tags_resolve_their_declared_name() {
    for kind in [
        LuaSyntaxKind::DocTagAlias,
        LuaSyntaxKind::DocTagClass,
        LuaSyntaxKind::DocTagEnum,
    ] {
        let g = tree_with(kind, vec![tok_child(LuaTokenKind::TkName, "T")]);
        let td = LuaTypeDecl {
            id: LuaTypeDeclId { id: 11 },
        };
        let mut db = empty_db();
        db.type_index.types.push((fid(4), b"T".to_vec(), td));
        let mut config = LuaInferConfig::new(fid(4));
        let node = LuaSyntaxNode {
            tree: &g,
            path: vec![0],
        };
        let info = infer_node_semantic_info(&db, &mut config, node).unwrap();
        assert_eq!(info.typ, LuaType::Ref(LuaTypeDeclId { id: 11 }));
        let node = LuaSyntaxNode {
            tree: &g,
            path: vec![0],
        };
        let owner = infer_node_property_owner(&db, &mut config, node);
        assert_eq!(owner, info.property_owner);
    }
}

#[test]
fn field_tag_resolves_like_a_table_field() {
    let g = tree_with(
        LuaSyntaxKind::DocTagField,
        vec![tok_child(LuaTokenKind::TkName, "f")],
    );
    let member_id = LuaMemberId::new(
        LuaSyntaxId {
            kind: LuaSyntaxKind::DocTagField,
            range: SourceRange {
                start_offset: 0,
                length: 1,
            },
        },
        fid(1),
    );
    let mut db = empty_db();
    db.member_index.members.push((
        member_id,
        LuaMember {
            decl_type: LuaType::Number,
        },
    ));
    let mut config = LuaInferConfig::new(fid(1));
    let node = LuaSyntaxNode {
        tree: &g,
        path: vec![0],
    };
    let info = infer_node_semantic_info(&db, &mut config, node).unwrap();
    assert_eq!(info.typ, LuaType::Number);
    assert_eq!(info.property_owner, Some(LuaPropertyOwnerId::Member(member_id)));
}

#[test]
fn other_tags_and_kinds_yield_no_result() {
    let g = tree_with(
        LuaSyntaxKind::DocTagParam,
        vec![tok_child(LuaTokenKind::TkName, "p")],
    );
    let db = empty_db();
    let mut config = LuaInferConfig::new(fid(1));
    let node = LuaSyntaxNode {
        tree: &g,
        path: vec![0],
    };
    assert_eq!(infer_node_semantic_info(&db, &mut config, node), None);
    let node = LuaSyntaxNode {
        tree: &g,
        path: vec![0],
    };
    assert_eq!(infer_node_property_owner(&db, &mut config, node), None);
}

#[test]
fn infer_expr_is_an_optional_index_lookup() {
    let g = tree_with(LuaSyntaxKind::NameExpr, vec![tok_child(LuaTokenKind::TkName, "y")]);
    let id = LuaSyntaxId {
        kind: LuaSyntaxKind::NameExpr,
        range: SourceRange {
            start_offset: 0,
            length: 1,
        },
    };
    let mut db = empty_db();
    db.expr_type_index.entries.push((id, LuaType::Nil));
    let mut config = LuaInferConfig::new(fid(1));
    let expr = LuaExpr {
        node: LuaSyntaxNode {
            tree: &g,
            path: vec![0],
        },
    };
    assert_eq!(infer_expr(&db, &mut config, &expr), Some(LuaType::Nil));
    assert_eq!(infer_expr_property_owner(&db, &mut config, &expr), None);
}

#[test]
fn completion_data_wraps_owner_and_module() {
    let owner = LuaPropertyOwnerId::LuaDecl(LuaDeclId::new(fid(1), 0));
    assert_eq!(
        CompletionData::from_property_owner_id(owner),
        Some(CompletionData::PropertyOwnerId(owner))
    );
    assert_eq!(
        CompletionData::from_module(String::from("socket.core")),
        Some(CompletionData::Module(String::from("socket.core")))
    );
    assert_ne!(CallDisplay::NoneDisplay, CallDisplay::AddSelf);
    assert_ne!(CallDisplay::AddSelf, CallDisplay::RemoveFirst);
}
