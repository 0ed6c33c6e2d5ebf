//! Catalog entries: tokens, constraints and indexes.
use vstd::prelude::*;

verus! {

pub type TokenId = u16;

pub type LabelId = TokenId;

pub type PropertyKeyId = TokenId;

#[derive(Debug, Clone, Copy, PartialEq, Eq, Structural)]
pub enum TokenKind {
    Label,
    RelType,
    PropertyKey,
}

#[derive(Debug, Clone, Copy, PartialEq, Eq, Structural)]
pub enum EntityKind {
    Node,
    Rel,
}

/// A label, relationship type or property key as written in a query, resolved against the token
/// store when the store knows it.
#[derive(Debug)]
pub enum IrToken {
    Resolved { name: String, token: TokenId },
    Unresolved(String),
}

impl IrToken {
    /// The token for `name` given what the token store answered for it.
    pub fn from_lookup(name: &str, found: Option<TokenId>) -> (r: IrToken)
        ensures
            match found {
                Some(id) => r matches IrToken::Resolved { name: n, token } && n@ == name@ && token == id,
                None => r matches IrToken::Unresolved(n) && n@ == name@,
            },
    {
        match found {
            Some(token) => IrToken::Resolved { name: name.to_owned(), token },
            None => IrToken::Unresolved(name.to_owned()),
        }
    }

    pub fn name(&self) -> (r: &String)
        ensures
            match self {
                IrToken::Resolved { name, .. } => r == name,
                IrToken::Unresolved(name) => r == name,
            },
    {
        match self {
            IrToken::Resolved { name, .. } => name,
            IrToken::Unresolved(name) => name,
        }
    }
}

#[derive(Debug, Clone, Copy, PartialEq, Eq, Structural)]
pub enum ConstraintKind {
    Unique,
    NodeKey,
    NotNull,
}

#[derive(Debug, Clone, Copy, PartialEq, Eq, Structural)]
pub enum IndexKind {
    Unique,
}

#[derive(Debug)]
pub struct ConstraintCatalogEntry {
    pub name: String,
    pub entity_kind: EntityKind,
    /// label or relationship type
    pub label_or_rel_id: LabelId,
    pub constraint_kind: ConstraintKind,
    pub property_key_ids: Vec<PropertyKeyId>,
    /// Name of the backing index of `Unique` and `NodeKey` constraints; `None` for the others.
    pub backing_index: Option<String>,
}

#[derive(Debug)]
pub struct IndexCatalogEntry {
    pub name: String,
    pub label_id: LabelId,
    pub index_kind: IndexKind,
    pub property_key_ids: Vec<PropertyKeyId>,
}

/// Index hint for query optimization.
#[derive(Debug)]
pub struct IndexHint {
    pub index_name: String,
    pub label_id: LabelId,
    pub property_key_ids: Vec<PropertyKeyId>,
}

} // verus!
