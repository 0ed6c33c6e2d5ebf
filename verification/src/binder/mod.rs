pub mod builder;
pub mod project_body;
pub mod query;

use vstd::prelude::*;

use crate::catalog::{IrToken, TokenId, TokenKind};

verus! {

/// What binding asks of the session it runs in.
pub trait PlannerSession {
    /// The id that the session's token store holds for the token written `token` of kind `kind`,
    /// if it knows it.
    spec fn token_of(&self, token: Seq<char>, kind: TokenKind) -> Option<TokenId>;

    /// Asks the token store for the id of `token`, without creating it.
    fn resolve_token(&self, token: &str, kind: TokenKind) -> (r: Option<TokenId>)
        ensures
            r == self.token_of(token@, kind),
    ;
}

/// The id of the last entry of `entries` for the token `token` of kind `kind`, if any.
pub open spec fn table_lookup(entries: Seq<(String, TokenKind, TokenId)>, token: Seq<char>, kind: TokenKind) -> Option<
    TokenId,
>
    decreases entries.len(),
{
    if entries.len() == 0 {
        None
    } else if entries.last().0@ == token && entries.last().1 == kind {
        Some(entries.last().2)
    } else {
        table_lookup(entries.drop_last(), token, kind)
    }
}

/// A session that knows a fixed set of tokens, the last id given to a token winning.
pub struct TokenTable {
    entries: Vec<(String, TokenKind, TokenId)>,
}

impl TokenTable {
    pub closed spec fn lookup(&self, token: Seq<char>, kind: TokenKind) -> Option<TokenId> {
        table_lookup(self.entries@, token, kind)
    }

    /// A table that knows no token.
    pub fn new() -> (r: TokenTable)
        ensures
            forall|token: Seq<char>, kind: TokenKind| #[trigger] r.lookup(token, kind) is None,
    {
        TokenTable { entries: Vec::new() }
    }

    /// Gives the token `token` of kind `kind` the id `id`.
    pub fn add(&mut self, token: &str, kind: TokenKind, id: TokenId)
        ensures
            final(self).lookup(token@, kind) == Some(id),
            forall|t: Seq<char>, k: TokenKind|
                !(t == token@ && k == kind) ==> #[trigger] final(self).lookup(t, k) == old(self).lookup(t, k),
    {
        let ghost before = self.entries@;
        self.entries.push((token.to_owned(), kind, id));
        assert(self.entries@.drop_last() =~= before);
    }
}

impl PlannerSession for TokenTable {
    open spec fn token_of(&self, token: Seq<char>, kind: TokenKind) -> Option<TokenId> {
        self.lookup(token, kind)
    }

    fn resolve_token(&self, token: &str, kind: TokenKind) -> (r: Option<TokenId>) {
        let ghost all = self.entries@;
        let wanted = token.to_owned();
        let mut i: usize = self.entries.len();
        assert(all.take(i as int) =~= all);
        while i > 0
            invariant
                i <= all.len(),
                all == self.entries@,
                wanted@ == token@,
                table_lookup(all, token@, kind) == table_lookup(all.take(i as int), token@, kind),
            decreases i,
        {
            let ghost prefix = all.take(i as int);
            assert(prefix.drop_last() =~= all.take(i - 1));
            assert(prefix.last() == all[i - 1]);
            let entry = &self.entries[i - 1];
            if entry.0 == wanted && entry.1 == kind {
                return Some(entry.2);
            }
            i = i - 1;
        }
        assert(all.take(0) =~= Seq::<(String, TokenKind, TokenId)>::empty());
        None
    }
}

/// Context to bind a query.
pub struct BindContext<'a, S: PlannerSession> {
    pub sctx: &'a S,
}

impl<'a, S: PlannerSession> BindContext<'a, S> {
    pub fn new(sctx: &'a S) -> (r: BindContext<'a, S>)
        ensures
            r.sctx == sctx,
    {
        BindContext { sctx }
    }

    pub fn session(&self) -> (r: &'a S)
        ensures
            r == self.sctx,
    {
        self.sctx
    }

    /// The token written `token`: resolved when the session's token store knows it, unresolved
    /// otherwise; either way it keeps the name as written.
    pub fn resolve_token(&self, token: &str, token_kind: TokenKind) -> (r: IrToken)
        ensures
            match self.sctx.token_of(token@, token_kind) {
                Some(id) => r matches IrToken::Resolved { name: n, token: t } && n@ == token@ && t == id,
                None => r matches IrToken::Unresolved(n) && n@ == token@,
            },
    {
        let found = self.session().resolve_token(token, token_kind);
        IrToken::from_lookup(token, found)
    }
}

} // verus!
