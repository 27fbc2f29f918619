//! The semantic resolution dispatcher and the property-owner identity
//! model.
//!
//! Given a token or node of the navigable view, the resolver classifies it
//! by syntax kind and produces a `SemanticInfo`: a static type plus the
//! canonical owner identity the position refers to. It consults external
//! index structures — a declaration index, a member index, a type index —
//! and the results of the external type-inference routine and of the
//! expression-owner sub-resolver, both modeled here as snapshot indexes
//! keyed by syntax identity, exactly as the resolver observes them: an
//! optional answer per expression node. Every miss is "no result", never
//! an error; a missing inferred type degrades to the explicit unknown
//! sentinel.
use vstd::prelude::*;
use crate::kind::{LuaSyntaxKind, SourceRange, is_expr_kind};
use crate::tree::{
    GreenTree, LuaSyntaxNode, LuaSyntaxToken, path_offset, resolve_node, spec_first_name_text,
};

verus! {

/// Identity of a file within the workspace.
#[derive(Debug, Clone, Copy, PartialEq, Eq, Structural)]
pub struct FileId {
    pub id: u32,
}

/// Identity of a declaration: the file plus the source offset of the
/// binding occurrence. Stable only within one file's current parse.
#[derive(Debug, Clone, Copy, PartialEq, Eq, Structural)]
pub struct LuaDeclId {
    pub file_id: FileId,
    pub position: usize,
}

impl LuaDeclId {
    pub fn new(file_id: FileId, position: usize) -> (r: LuaDeclId)
        ensures
            r == (LuaDeclId { file_id, position }),
    {
        LuaDeclId { file_id, position }
    }
}

/// Identity of a syntax node within a file: its kind plus its text range.
#[derive(Debug, Clone, Copy, PartialEq, Eq, Structural)]
pub struct LuaSyntaxId {
    pub kind: LuaSyntaxKind,
    pub range: SourceRange,
}

/// Identity of one field-definition occurrence: a syntax identity plus the
/// file it occurs in. It names an occurrence, not a de-duplicated member.
#[derive(Debug, Clone, Copy, PartialEq, Eq, Structural)]
pub struct LuaMemberId {
    pub file_id: FileId,
    pub syntax_id: LuaSyntaxId,
}

impl LuaMemberId {
    pub fn new(syntax_id: LuaSyntaxId, file_id: FileId) -> (r: LuaMemberId)
        ensures
            r == (LuaMemberId { file_id, syntax_id }),
    {
        LuaMemberId { file_id, syntax_id }
    }
}

/// Identity of a type declaration.
#[derive(Debug, Clone, Copy, PartialEq, Eq, Structural)]
pub struct LuaTypeDeclId {
    pub id: u32,
}

/// The closed sum of addressable semantic entities: a declaration, a
/// member occurrence, or a type declaration. Pure data with structural
/// equality, constructed fresh on every resolution call.
#[derive(Debug, Clone, Copy, PartialEq, Eq, Structural)]
pub enum LuaPropertyOwnerId {
    LuaDecl(LuaDeclId),
    Member(LuaMemberId),
    TypeDecl(LuaTypeDeclId),
}

/// A static type. `Unknown` is an explicit sentinel: callers must not
/// conflate "unknown type" with "no owner".
#[derive(Debug, Clone, Copy, PartialEq, Eq, Structural)]
pub enum LuaType {
    Unknown,
    Nil,
    Boolean,
    Integer,
    Number,
    Table,
    Function,
    Ref(LuaTypeDeclId),
}

/// The resolver's output contract: a static type plus an optional owner.
#[derive(Debug, Clone, PartialEq)]
pub struct SemanticInfo {
    pub typ: LuaType,
    pub property_owner: Option<LuaPropertyOwnerId>,
}

/// A declaration as the declaration index stores it; its type may not be
/// resolved yet.
#[derive(Debug, Clone, Copy)]
pub struct LuaDecl {
    pub typ: Option<LuaType>,
}

impl LuaDecl {
    pub fn get_type(&self) -> (r: Option<&LuaType>)
        ensures
            match r {
                Some(t) => self.typ == Some(*t),
                None => self.typ is None,
            },
    {
        match &self.typ {
            Some(t) => Some(t),
            None => None,
        }
    }
}

/// A member as the member index stores it.
#[derive(Debug, Clone, Copy)]
pub struct LuaMember {
    pub decl_type: LuaType,
}

impl LuaMember {
    pub fn get_decl_type(&self) -> (r: &LuaType)
        ensures
            *r == self.decl_type,
    {
        &self.decl_type
    }
}

/// A type declaration as the type index stores it.
#[derive(Debug, Clone, Copy)]
pub struct LuaTypeDecl {
    pub id: LuaTypeDeclId,
}

impl LuaTypeDecl {
    pub fn get_id(&self) -> (r: LuaTypeDeclId)
        ensures
            r == self.id,
    {
        self.id
    }
}

/// First declaration stored under `id`.
pub open spec fn spec_lookup_decl(s: Seq<(LuaDeclId, LuaDecl)>, id: LuaDeclId) -> Option<LuaDecl>
    decreases s.len(),
{
    if s.len() == 0 {
        Option::None
    } else if s[0].0 == id {
        Option::Some(s[0].1)
    } else {
        spec_lookup_decl(s.skip(1), id)
    }
}

pub open spec fn spec_lookup_member(s: Seq<(LuaMemberId, LuaMember)>, id: LuaMemberId) -> Option<
    LuaMember,
>
    decreases s.len(),
{
    if s.len() == 0 {
        Option::None
    } else if s[0].0 == id {
        Option::Some(s[0].1)
    } else {
        spec_lookup_member(s.skip(1), id)
    }
}

pub open spec fn spec_find_type_decl(
    s: Seq<(FileId, Vec<u8>, LuaTypeDecl)>,
    file_id: FileId,
    name: Seq<u8>,
) -> Option<LuaTypeDecl>
    decreases s.len(),
{
    if s.len() == 0 {
        Option::None
    } else if s[0].0 == file_id && s[0].1@ == name {
        Option::Some(s[0].2)
    } else {
        spec_find_type_decl(s.skip(1), file_id, name)
    }
}

pub open spec fn spec_lookup_expr_type(s: Seq<(LuaSyntaxId, LuaType)>, id: LuaSyntaxId) -> Option<
    LuaType,
>
    decreases s.len(),
{
    if s.len() == 0 {
        Option::None
    } else if s[0].0 == id {
        Option::Some(s[0].1)
    } else {
        spec_lookup_expr_type(s.skip(1), id)
    }
}

pub open spec fn spec_lookup_expr_owner(
    s: Seq<(LuaSyntaxId, LuaPropertyOwnerId)>,
    id: LuaSyntaxId,
) -> Option<LuaPropertyOwnerId>
    decreases s.len(),
{
    if s.len() == 0 {
        Option::None
    } else if s[0].0 == id {
        Option::Some(s[0].1)
    } else {
        spec_lookup_expr_owner(s.skip(1), id)
    }
}

/// The declaration index: `get_decl` is its lookup contract.
pub struct DeclIndex {
    pub decls: Vec<(LuaDeclId, LuaDecl)>,
}

impl DeclIndex {
    pub fn get_decl(&self, decl_id: &LuaDeclId) -> (r: Option<&LuaDecl>)
        ensures
            match r {
                Some(d) => spec_lookup_decl(self.decls@, *decl_id) == Some(*d),
                None => spec_lookup_decl(self.decls@, *decl_id) is None,
            },
    {
        let mut i: usize = 0;
        proof {
            assert(self.decls@.skip(0) =~= self.decls@);
        }
        while i < self.decls.len()
            invariant
                i <= self.decls@.len(),
                spec_lookup_decl(self.decls@, *decl_id) == spec_lookup_decl(
                    self.decls@.skip(i as int),
                    *decl_id,
                ),
            decreases self.decls@.len() - i,
        {
            proof {
                assert(self.decls@.skip(i as int)[0] == self.decls@[i as int]);
                assert(self.decls@.skip(i as int).skip(1) =~= self.decls@.skip(i as int + 1));
            }
            if self.decls[i].0 == *decl_id {
                return Some(&self.decls[i].1);
            }
            i = i + 1;
        }
        proof {
            assert(self.decls@.skip(self.decls@.len() as int) =~= Seq::<(
                LuaDeclId,
                LuaDecl,
            )>::empty());
        }
        None
    }
}

/// The member index: `get_member` is its lookup contract.
pub struct MemberIndex {
    pub members: Vec<(LuaMemberId, LuaMember)>,
}

impl MemberIndex {
    pub fn get_member(&self, member_id: &LuaMemberId) -> (r: Option<&LuaMember>)
        ensures
            match r {
                Some(m) => spec_lookup_member(self.members@, *member_id) == Some(*m),
                None => spec_lookup_member(self.members@, *member_id) is None,
            },
    {
        let mut i: usize = 0;
        proof {
            assert(self.members@.skip(0) =~= self.members@);
        }
        while i < self.members.len()
            invariant
                i <= self.members@.len(),
                spec_lookup_member(self.members@, *member_id) == spec_lookup_member(
                    self.members@.skip(i as int),
                    *member_id,
                ),
            decreases self.members@.len() - i,
        {
            proof {
                assert(self.members@.skip(i as int)[0] == self.members@[i as int]);
                assert(self.members@.skip(i as int).skip(1) =~= self.members@.skip(i as int + 1));
            }
            if self.members[i].0 == *member_id {
                return Some(&self.members[i].1);
            }
            i = i + 1;
        }
        proof {
            assert(self.members@.skip(self.members@.len() as int) =~= Seq::<(
                LuaMemberId,
                LuaMember,
            )>::empty());
        }
        None
    }
}

fn bytes_eq(a: &Vec<u8>, b: &Vec<u8>) -> (r: bool)
    ensures
        r == (a@ == b@),
{
    if a.len() != b.len() {
        return false;
    }
    let mut i: usize = 0;
    while i < a.len()
        invariant
            i <= a@.len(),
            a@.len() == b@.len(),
            forall|k: int| #![auto] 0 <= k < i ==> a@[k] == b@[k],
        decreases a@.len() - i,
    {
        if a[i] != b[i] {
            return false;
        }
        i = i + 1;
    }
    proof {
        assert(a@ =~= b@);
    }
    true
}

/// The type index: `find_type_decl` looks a declared type name up in a
/// file's resolution scope.
pub struct TypeIndex {
    pub types: Vec<(FileId, Vec<u8>, LuaTypeDecl)>,
}

impl TypeIndex {
    pub fn find_type_decl(&self, file_id: FileId, name: &Vec<u8>) -> (r: Option<&LuaTypeDecl>)
        ensures
            match r {
                Some(d) => spec_find_type_decl(self.types@, file_id, name@) == Some(*d),
                None => spec_find_type_decl(self.types@, file_id, name@) is None,
            },
    {
        let mut i: usize = 0;
        proof {
            assert(self.types@.skip(0) =~= self.types@);
        }
        while i < self.types.len()
            invariant
                i <= self.types@.len(),
                spec_find_type_decl(self.types@, file_id, name@) == spec_find_type_decl(
                    self.types@.skip(i as int),
                    file_id,
                    name@,
                ),
            decreases self.types@.len() - i,
        {
            proof {
                assert(self.types@.skip(i as int)[0] == self.types@[i as int]);
                assert(self.types@.skip(i as int).skip(1) =~= self.types@.skip(i as int + 1));
            }
            if self.types[i].0 == file_id && bytes_eq(&self.types[i].1, name) {
                return Some(&self.types[i].2);
            }
            i = i + 1;
        }
        proof {
            assert(self.types@.skip(self.types@.len() as int) =~= Seq::<(
                FileId,
                Vec<u8>,
                LuaTypeDecl,
            )>::empty());
        }
        None
    }
}

/// Results of the external type-inference routine, as the resolver
/// observes them: an optional type per expression syntax identity.
pub struct InferIndex {
    pub entries: Vec<(LuaSyntaxId, LuaType)>,
}

impl InferIndex {
    pub fn get(&self, id: &LuaSyntaxId) -> (r: Option<&LuaType>)
        ensures
            match r {
                Some(t) => spec_lookup_expr_type(self.entries@, *id) == Some(*t),
                None => spec_lookup_expr_type(self.entries@, *id) is None,
            },
    {
        let mut i: usize = 0;
        proof {
            assert(self.entries@.skip(0) =~= self.entries@);
        }
        while i < self.entries.len()
            invariant
                i <= self.entries@.len(),
                spec_lookup_expr_type(self.entries@, *id) == spec_lookup_expr_type(
                    self.entries@.skip(i as int),
                    *id,
                ),
            decreases self.entries@.len() - i,
        {
            proof {
                assert(self.entries@.skip(i as int)[0] == self.entries@[i as int]);
                assert(self.entries@.skip(i as int).skip(1) =~= self.entries@.skip(i as int + 1));
            }
            if self.entries[i].0 == *id {
                return Some(&self.entries[i].1);
            }
            i = i + 1;
        }
        proof {
            assert(self.entries@.skip(self.entries@.len() as int) =~= Seq::<(
                LuaSyntaxId,
                LuaType,
            )>::empty());
        }
        None
    }
}

/// Results of the expression-owner sub-resolver: the declaration, member
/// or type declaration an expression ultimately names, if any.
pub struct OwnerIndex {
    pub entries: Vec<(LuaSyntaxId, LuaPropertyOwnerId)>,
}

impl OwnerIndex {
    pub fn get(&self, id: &LuaSyntaxId) -> (r: Option<&LuaPropertyOwnerId>)
        ensures
            match r {
                Some(o) => spec_lookup_expr_owner(self.entries@, *id) == Some(*o),
                None => spec_lookup_expr_owner(self.entries@, *id) is None,
            },
    {
        let mut i: usize = 0;
        proof {
            assert(self.entries@.skip(0) =~= self.entries@);
        }
        while i < self.entries.len()
            invariant
                i <= self.entries@.len(),
                spec_lookup_expr_owner(self.entries@, *id) == spec_lookup_expr_owner(
                    self.entries@.skip(i as int),
                    *id,
                ),
            decreases self.entries@.len() - i,
        {
            proof {
                assert(self.entries@.skip(i as int)[0] == self.entries@[i as int]);
                assert(self.entries@.skip(i as int).skip(1) =~= self.entries@.skip(i as int + 1));
            }
            if self.entries[i].0 == *id {
                return Some(&self.entries[i].1);
            }
            i = i + 1;
        }
        proof {
            assert(self.entries@.skip(self.entries@.len() as int) =~= Seq::<(
                LuaSyntaxId,
                LuaPropertyOwnerId,
            )>::empty());
        }
        None
    }
}

/// The external index structures the resolver consults.
pub struct DbIndex {
    pub decl_index: DeclIndex,
    pub member_index: MemberIndex,
    pub type_index: TypeIndex,
    pub expr_type_index: InferIndex,
    pub expr_owner_index: OwnerIndex,
}

impl DbIndex {
    pub fn get_decl_index(&self) -> (r: &DeclIndex)
        ensures
            *r == self.decl_index,
    {
        &self.decl_index
    }

    pub fn get_member_index(&self) -> (r: &MemberIndex)
        ensures
            *r == self.member_index,
    {
        &self.member_index
    }

    pub fn get_type_index(&self) -> (r: &TypeIndex)
        ensures
            *r == self.type_index,
    {
        &self.type_index
    }
}

/// Per-query configuration: the file whose tree is being resolved.
pub struct LuaInferConfig {
    pub file_id: FileId,
}

impl LuaInferConfig {
    pub fn new(file_id: FileId) -> (r: LuaInferConfig)
        ensures
            r.file_id == file_id,
    {
        LuaInferConfig { file_id }
    }

    pub fn get_file_id(&self) -> (r: FileId)
        ensures
            r == self.file_id,
    {
        self.file_id
    }
}

pub open spec fn is_table_field_kind(k: LuaSyntaxKind) -> bool {
    k == LuaSyntaxKind::TableFieldValue || k == LuaSyntaxKind::TableFieldAssign
}

/// Parents whose name token is itself the declaring occurrence.
pub open spec fn is_decl_parent_kind(k: LuaSyntaxKind) -> bool {
    match k {
        LuaSyntaxKind::ForStat | LuaSyntaxKind::ForRangeStat | LuaSyntaxKind::LocalName
        | LuaSyntaxKind::ParamName => true,
        _ => false,
    }
}

/// Documentation tags that declare a type name.
pub open spec fn is_type_def_tag_kind(k: LuaSyntaxKind) -> bool {
    match k {
        LuaSyntaxKind::DocTagAlias | LuaSyntaxKind::DocTagClass | LuaSyntaxKind::DocTagEnum => true,
        _ => false,
    }
}

pub open spec fn spec_kind_at(t: GreenTree, path: Seq<usize>) -> LuaSyntaxKind {
    t.nodes@[resolve_node(t.nodes@, t.root as int, path)].kind
}

/// Syntax identity of the node a path leads to: its kind and its absolute
/// text range.
pub open spec fn spec_syntax_id_at(t: GreenTree, path: Seq<usize>) -> LuaSyntaxId {
    let idx = resolve_node(t.nodes@, t.root as int, path);
    LuaSyntaxId {
        kind: t.nodes@[idx].kind,
        range: SourceRange {
            start_offset: path_offset(t.nodes@, t.root as int, path) as usize,
            length: t.nodes@[idx].width,
        },
    }
}

pub open spec fn spec_type_def_tag_info(db: DbIndex, fid: FileId, name: Seq<u8>) -> Option<
    SemanticInfo,
> {
    match spec_find_type_decl(db.type_index.types@, fid, name) {
        Option::Some(td) => Option::Some(
            SemanticInfo {
                typ: LuaType::Ref(td.id),
                property_owner: Option::Some(LuaPropertyOwnerId::TypeDecl(td.id)),
            },
        ),
        Option::None => Option::None,
    }
}

pub open spec fn spec_type_def_tag_property_owner(db: DbIndex, fid: FileId, name: Seq<u8>) -> Option<
    LuaPropertyOwnerId,
> {
    match spec_find_type_decl(db.type_index.types@, fid, name) {
        Option::Some(td) => Option::Some(LuaPropertyOwnerId::TypeDecl(td.id)),
        Option::None => Option::None,
    }
}

/// What `infer_node_semantic_info` returns, by classification of the node:
/// expressions pair the inferred type (unknown on inference miss) with the
/// owner sub-resolver's answer; table fields and field tags need an
/// indexed member; doc type names and type-declaring tags need a found
/// type declaration; everything else has no semantic identity.
pub open spec fn spec_node_semantic_info(
    db: DbIndex,
    fid: FileId,
    t: GreenTree,
    path: Seq<usize>,
) -> Option<SemanticInfo> {
    let k = spec_kind_at(t, path);
    if is_expr_kind(k) {
        let id = spec_syntax_id_at(t, path);
        let typ = match spec_lookup_expr_type(db.expr_type_index.entries@, id) {
            Option::Some(ty) => ty,
            Option::None => LuaType::Unknown,
        };
        Option::Some(
            SemanticInfo {
                typ,
                property_owner: spec_lookup_expr_owner(db.expr_owner_index.entries@, id),
            },
        )
    } else if is_table_field_kind(k) || k == LuaSyntaxKind::DocTagField {
        let member_id = LuaMemberId { file_id: fid, syntax_id: spec_syntax_id_at(t, path) };
        match spec_lookup_member(db.member_index.members@, member_id) {
            Option::Some(m) => Option::Some(
                SemanticInfo {
                    typ: m.decl_type,
                    property_owner: Option::Some(LuaPropertyOwnerId::Member(member_id)),
                },
            ),
            Option::None => Option::None,
        }
    } else if k == LuaSyntaxKind::DocNameType || is_type_def_tag_kind(k) {
        match spec_first_name_text(t.nodes@, resolve_node(t.nodes@, t.root as int, path), 0) {
            Option::Some(name) => spec_type_def_tag_info(db, fid, name),
            Option::None => Option::None,
        }
    } else {
        Option::None
    }
}

/// What `infer_node_property_owner` returns: the same classification, but
/// no type is fetched and no inference is consulted; a table field or
/// field tag yields its member identity whether or not it is indexed yet.
pub open spec fn spec_node_property_owner(
    db: DbIndex,
    fid: FileId,
    t: GreenTree,
    path: Seq<usize>,
) -> Option<LuaPropertyOwnerId> {
    let k = spec_kind_at(t, path);
    if is_expr_kind(k) {
        spec_lookup_expr_owner(db.expr_owner_index.entries@, spec_syntax_id_at(t, path))
    } else if is_table_field_kind(k) || k == LuaSyntaxKind::DocTagField {
        Option::Some(
            LuaPropertyOwnerId::Member(
                LuaMemberId { file_id: fid, syntax_id: spec_syntax_id_at(t, path) },
            ),
        )
    } else if k == LuaSyntaxKind::DocNameType || is_type_def_tag_kind(k) {
        match spec_first_name_text(t.nodes@, resolve_node(t.nodes@, t.root as int, path), 0) {
            Option::Some(name) => spec_type_def_tag_property_owner(db, fid, name),
            Option::None => Option::None,
        }
    } else {
        Option::None
    }
}

/// What `infer_token_semantic_info` returns: a token under a declaring
/// parent is resolved directly by position through the declaration index;
/// any other token delegates to the node-level resolver on its parent.
pub open spec fn spec_token_semantic_info(
    db: DbIndex,
    fid: FileId,
    t: GreenTree,
    path: Seq<usize>,
) -> Option<SemanticInfo> {
    if path.len() == 0 {
        Option::None
    } else if is_decl_parent_kind(spec_kind_at(t, path.drop_last())) {
        let decl_id = LuaDeclId {
            file_id: fid,
            position: path_offset(t.nodes@, t.root as int, path) as usize,
        };
        match spec_lookup_decl(db.decl_index.decls@, decl_id) {
            Option::Some(d) => Option::Some(
                SemanticInfo {
                    typ: match d.typ {
                        Option::Some(ty) => ty,
                        Option::None => LuaType::Unknown,
                    },
                    property_owner: Option::Some(LuaPropertyOwnerId::LuaDecl(decl_id)),
                },
            ),
            Option::None => Option::None,
        }
    } else {
        spec_node_semantic_info(db, fid, t, path.drop_last())
    }
}

/// What `infer_token_property_owner` returns: the declaration fast path
/// needs no index lookup at all — the identity is the position itself.
pub open spec fn spec_token_property_owner(
    db: DbIndex,
    fid: FileId,
    t: GreenTree,
    path: Seq<usize>,
) -> Option<LuaPropertyOwnerId> {
    if path.len() == 0 {
        Option::None
    } else if is_decl_parent_kind(spec_kind_at(t, path.drop_last())) {
        Option::Some(
            LuaPropertyOwnerId::LuaDecl(
                LuaDeclId {
                    file_id: fid,
                    position: path_offset(t.nodes@, t.root as int, path) as usize,
                },
            ),
        )
    } else {
        spec_node_property_owner(db, fid, t, path.drop_last())
    }
}

/// A typed view of an expression node.
pub struct LuaExpr<'a> {
    pub node: LuaSyntaxNode<'a>,
}

impl<'a> LuaExpr<'a> {
    pub fn can_cast(kind: LuaSyntaxKind) -> (r: bool)
        ensures
            r == is_expr_kind(kind),
    {
        match kind {
            LuaSyntaxKind::LiteralExpr | LuaSyntaxKind::NameExpr | LuaSyntaxKind::ParenExpr
            | LuaSyntaxKind::UnaryExpr | LuaSyntaxKind::BinaryExpr | LuaSyntaxKind::IndexExpr
            | LuaSyntaxKind::CallExpr | LuaSyntaxKind::TableExpr | LuaSyntaxKind::ClosureExpr =>
                true,
            _ => false,
        }
    }

    pub fn cast(node: LuaSyntaxNode<'a>) -> (r: Option<LuaExpr<'a>>)
        requires
            node.wf(),
        ensures
            is_expr_kind(node.spec_kind()) ==> (r matches Some(e) && e.node == node),
            !is_expr_kind(node.spec_kind()) ==> r is None,
    {
        if LuaExpr::<'a>::can_cast(node.kind()) {
            Some(LuaExpr { node })
        } else {
            None
        }
    }
}

impl<'a> LuaSyntaxNode<'a> {
    pub open spec fn spec_syntax_id(self) -> LuaSyntaxId {
        spec_syntax_id_at(*self.tree, self.path@)
    }

    /// The node's syntax identity: its kind plus its absolute text range.
    pub fn get_syntax_id(&self) -> (r: LuaSyntaxId)
        requires
            self.wf(),
        ensures
            r == self.spec_syntax_id(),
    {
        LuaSyntaxId { kind: self.kind(), range: self.text_range() }
    }
}

/// The external type-inference routine, as the resolver observes it: an
/// optional type per expression, by syntax identity. A miss is an expected
/// outcome, not an error.
pub fn infer_expr(db: &DbIndex, infer_config: &mut LuaInferConfig, expr: &LuaExpr<'_>) -> (r:
    Option<LuaType>)
    requires
        expr.node.wf(),
    ensures
        r == spec_lookup_expr_type(db.expr_type_index.entries@, expr.node.spec_syntax_id()),
        *final(infer_config) == *old(infer_config),
{
    let id = expr.node.get_syntax_id();
    match db.expr_type_index.get(&id) {
        Some(t) => Some(*t),
        None => None,
    }
}

/// The expression-owner sub-resolver: the declaration, member or type
/// declaration an expression ultimately names, or nothing for a value
/// with no nameable owner.
pub fn infer_expr_property_owner(
    db: &DbIndex,
    infer_config: &mut LuaInferConfig,
    expr: &LuaExpr<'_>,
) -> (r: Option<LuaPropertyOwnerId>)
    requires
        expr.node.wf(),
    ensures
        r == spec_lookup_expr_owner(db.expr_owner_index.entries@, expr.node.spec_syntax_id()),
        *final(infer_config) == *old(infer_config),
{
    let id = expr.node.get_syntax_id();
    match db.expr_owner_index.get(&id) {
        Some(o) => Some(*o),
        None => None,
    }
}

/// Resolve a type-declaring name to its type declaration.
fn type_def_tag_info(name: &Vec<u8>, db: &DbIndex, infer_config: &mut LuaInferConfig) -> (r: Option<
    SemanticInfo,
>)
    ensures
        r == spec_type_def_tag_info(*db, old(infer_config).file_id, name@),
        *final(infer_config) == *old(infer_config),
{
    let file_id = infer_config.get_file_id();
    let type_decl = match db.get_type_index().find_type_decl(file_id, name) {
        Some(d) => d,
        None => {
            return None;
        },
    };
    let id = type_decl.get_id();
    Some(
        SemanticInfo {
            typ: LuaType::Ref(id),
            property_owner: Some(LuaPropertyOwnerId::TypeDecl(id)),
        },
    )
}

fn type_def_tag_property_owner(
    name: &Vec<u8>,
    db: &DbIndex,
    infer_config: &mut LuaInferConfig,
) -> (r: Option<LuaPropertyOwnerId>)
    ensures
        r == spec_type_def_tag_property_owner(*db, old(infer_config).file_id, name@),
        *final(infer_config) == *old(infer_config),
{
    let file_id = infer_config.get_file_id();
    let type_decl = match db.get_type_index().find_type_decl(file_id, name) {
        Some(d) => d,
        None => {
            return None;
        },
    };
    Some(LuaPropertyOwnerId::TypeDecl(type_decl.get_id()))
}

/// Type and owner for a token: a token under a for-binding, local-name or
/// parameter-name parent is the declaring occurrence and resolves by
/// position through the declaration index, never through expression
/// inference; any other token is resolved through its parent node.
pub fn infer_token_semantic_info<'a>(
    db: &DbIndex,
    infer_config: &mut LuaInferConfig,
    token: LuaSyntaxToken<'a>,
) -> (r: Option<SemanticInfo>)
    requires
        token.wf(),
    ensures
        r == spec_token_semantic_info(*db, old(infer_config).file_id, *token.tree, token.path@),
        *final(infer_config) == *old(infer_config),
{
    let parent = match token.parent() {
        Some(n) => n,
        None => {
            proof {
                assert(false);
            }
            return None;
        },
    };
    match parent.kind() {
        LuaSyntaxKind::ForStat | LuaSyntaxKind::ForRangeStat | LuaSyntaxKind::LocalName
        | LuaSyntaxKind::ParamName => {
            let file_id = infer_config.get_file_id();
            let decl_id = LuaDeclId::new(file_id, token.text_range().start_offset);
            let decl = match db.get_decl_index().get_decl(&decl_id) {
                Some(d) => d,
                None => {
                    return None;
                },
            };
            let typ = match decl.get_type() {
                Some(t) => *t,
                None => LuaType::Unknown,
            };
            Some(
                SemanticInfo {
                    typ,
                    property_owner: Some(LuaPropertyOwnerId::LuaDecl(decl_id)),
                },
            )
        },
        _ => infer_node_semantic_info(db, infer_config, parent),
    }
}

/// Type and owner for a node, by syntax category; inference failure on an
/// expression degrades to the unknown sentinel, never to "no result".
pub fn infer_node_semantic_info<'a>(
    db: &DbIndex,
    infer_config: &mut LuaInferConfig,
    node: LuaSyntaxNode<'a>,
) -> (r: Option<SemanticInfo>)
    requires
        node.wf(),
    ensures
        r == spec_node_semantic_info(*db, old(infer_config).file_id, *node.tree, node.path@),
        *final(infer_config) == *old(infer_config),
{
    let k = node.kind();
    if LuaExpr::can_cast(k) {
        let expr = match LuaExpr::cast(node) {
            Some(e) => e,
            None => {
                proof {
                    assert(false);
                }
                return None;
            },
        };
        let typ = match infer_expr(db, infer_config, &expr) {
            Some(t) => t,
            None => LuaType::Unknown,
        };
        let property_owner = infer_expr_property_owner(db, infer_config, &expr);
        Some(SemanticInfo { typ, property_owner })
    } else if k == LuaSyntaxKind::TableFieldValue || k == LuaSyntaxKind::TableFieldAssign || k
        == LuaSyntaxKind::DocTagField {
        let member_id = LuaMemberId::new(node.get_syntax_id(), infer_config.get_file_id());
        let member = match db.get_member_index().get_member(&member_id) {
            Some(m) => m,
            None => {
                return None;
            },
        };
        let typ = *member.get_decl_type();
        Some(
            SemanticInfo {
                typ,
                property_owner: Some(LuaPropertyOwnerId::Member(member_id)),
            },
        )
    } else if k == LuaSyntaxKind::DocNameType || k == LuaSyntaxKind::DocTagAlias || k
        == LuaSyntaxKind::DocTagClass || k == LuaSyntaxKind::DocTagEnum {
        let name = match node.get_name_text() {
            Some(n) => n,
            None => {
                return None;
            },
        };
        type_def_tag_info(name, db, infer_config)
    } else {
        None
    }
}

/// Owner only for a token: the same classification as the full resolver,
/// with no type fetched and no inference consulted.
pub fn infer_token_property_owner<'a>(
    db: &DbIndex,
    infer_config: &mut LuaInferConfig,
    token: LuaSyntaxToken<'a>,
) -> (r: Option<LuaPropertyOwnerId>)
    requires
        token.wf(),
    ensures
        r == spec_token_property_owner(*db, old(infer_config).file_id, *token.tree, token.path@),
        *final(infer_config) == *old(infer_config),
{
    let parent = match token.parent() {
        Some(n) => n,
        None => {
            proof {
                assert(false);
            }
            return None;
        },
    };
    match parent.kind() {
        LuaSyntaxKind::ForStat | LuaSyntaxKind::ForRangeStat | LuaSyntaxKind::LocalName
        | LuaSyntaxKind::ParamName => {
            let file_id = infer_config.get_file_id();
            let decl_id = LuaDeclId::new(file_id, token.text_range().start_offset);
            Some(LuaPropertyOwnerId::LuaDecl(decl_id))
        },
        _ => infer_node_property_owner(db, infer_config, parent),
    }
}

/// Owner only for a node.
pub fn infer_node_property_owner<'a>(
    db: &DbIndex,
    infer_config: &mut LuaInferConfig,
    node: LuaSyntaxNode<'a>,
) -> (r: Option<LuaPropertyOwnerId>)
    requires
        node.wf(),
    ensures
        r == spec_node_property_owner(*db, old(infer_config).file_id, *node.tree, node.path@),
        *final(infer_config) == *old(infer_config),
{
    let k = node.kind();
    if LuaExpr::can_cast(k) {
        let expr = match LuaExpr::cast(node) {
            Some(e) => e,
            None => {
                proof {
                    assert(false);
                }
                return None;
            },
        };
        infer_expr_property_owner(db, infer_config, &expr)
    } else if k == LuaSyntaxKind::TableFieldValue || k == LuaSyntaxKind::TableFieldAssign || k
        == LuaSyntaxKind::DocTagField {
        let member_id = LuaMemberId::new(node.get_syntax_id(), infer_config.get_file_id());
        Some(LuaPropertyOwnerId::Member(member_id))
    } else if k == LuaSyntaxKind::DocNameType || k == LuaSyntaxKind::DocTagAlias || k
        == LuaSyntaxKind::DocTagClass || k == LuaSyntaxKind::DocTagEnum {
        let name = match node.get_name_text() {
            Some(n) => n,
            None => {
                return None;
            },
        };
        type_def_tag_property_owner(name, db, infer_config)
    } else {
        None
    }
}

/// Resolver agreement: wherever the full resolver answers for a node, the
/// owner-only resolver names exactly the owner of that answer — never a
/// different owner, never a present/absent mismatch.
pub proof fn lemma_resolver_agreement_node(db: DbIndex, fid: FileId, t: GreenTree, path: Seq<usize>)
    ensures
        spec_node_semantic_info(db, fid, t, path) matches Some(info)
            ==> spec_node_property_owner(db, fid, t, path) == info.property_owner,
{
}

/// Resolver agreement for tokens, including the declaration fast path.
pub proof fn lemma_resolver_agreement_token(
    db: DbIndex,
    fid: FileId,
    t: GreenTree,
    path: Seq<usize>,
)
    ensures
        spec_token_semantic_info(db, fid, t, path) matches Some(info)
            ==> spec_token_property_owner(db, fid, t, path) == info.property_owner,
{
    if path.len() > 0 && !is_decl_parent_kind(spec_kind_at(t, path.drop_last())) {
        lemma_resolver_agreement_node(db, fid, t, path.drop_last());
    }
}

/// Declaration fast path: a token under a declaring parent resolves its
/// owner to a declaration identity keyed by the token's exact starting
/// offset, independent of expression-level resolution.
pub proof fn lemma_declaration_fast_path(db: DbIndex, fid: FileId, t: GreenTree, path: Seq<usize>)
    requires
        path.len() >= 1,
        is_decl_parent_kind(spec_kind_at(t, path.drop_last())),
    ensures
        spec_token_property_owner(db, fid, t, path) == Some(
            LuaPropertyOwnerId::LuaDecl(
                LuaDeclId {
                    file_id: fid,
                    position: path_offset(t.nodes@, t.root as int, path) as usize,
                },
            ),
        ),
{
}

/// Graceful degradation: when inference has no result for an expression
/// node, the resolver still answers, with the explicit unknown sentinel as
/// the type — it never returns nothing solely because inference failed.
pub proof fn lemma_graceful_degradation(db: DbIndex, fid: FileId, t: GreenTree, path: Seq<usize>)
    requires
        is_expr_kind(spec_kind_at(t, path)),
        spec_lookup_expr_type(db.expr_type_index.entries@, spec_syntax_id_at(t, path)) is None,
    ensures
        spec_node_semantic_info(db, fid, t, path) matches Some(info) && info.typ
            == LuaType::Unknown,
{
}

} // verus!
