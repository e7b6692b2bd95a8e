//! Which peripheral answers at which address. Addresses go by their tokens.

use vstd::prelude::*;
use crate::peripheral::id::PeripheralId;

verus! {

/// The token of a peripheral.
#[derive(Debug, Clone, Copy, PartialEq, Eq, Structural)]
pub struct TokenEntry {
    pub id: PeripheralId,
    pub token: u64,
}

/// The token of a peripheral in a list of entries.
pub open spec fn token_in(v: Seq<TokenEntry>, id: PeripheralId) -> Option<u64>
    decreases v.len(),
{
    if v.len() == 0 {
        None
    } else if v.last().id == id {
        Some(v.last().token)
    } else {
        token_in(v.drop_last(), id)
    }
}

/// The peripheral of a token in a list of entries.
pub open spec fn id_in(v: Seq<TokenEntry>, token: u64) -> Option<PeripheralId>
    decreases v.len(),
{
    if v.len() == 0 {
        None
    } else if v.last().token == token {
        Some(v.last().id)
    } else {
        id_in(v.drop_last(), token)
    }
}

/// No peripheral has two entries.
pub open spec fn distinct_ids(v: Seq<TokenEntry>) -> bool {
    forall|i: int, j: int| 0 <= i < j < v.len() ==> (#[trigger] v[i]).id != (#[trigger] v[j]).id
}

/// No token has two entries.
pub open spec fn distinct_tokens(v: Seq<TokenEntry>) -> bool {
    forall|i: int, j: int|
        0 <= i < j < v.len() ==> (#[trigger] v[i]).token != (#[trigger] v[j]).token
}

/// The two directions of the association of peripherals and addresses.
#[derive(Debug)]
pub struct AddressBook {
    pub tokens: Vec<TokenEntry>,
    pub ids: Vec<TokenEntry>,
}

proof fn lemma_update_id(v: Seq<TokenEntry>, i: int, token: u64, id: PeripheralId)
    requires
        0 <= i < v.len(),
        distinct_ids(v),
    ensures
        ({
            let w = v.update(i, TokenEntry { id: v[i].id, token });
            &&& distinct_ids(w)
            &&& token_in(w, id) == if id == v[i].id {
                Some(token)
            } else {
                token_in(v, id)
            }
            &&& token_in(v, v[i].id) is Some
        }),
    decreases v.len(),
{
    let w = v.update(i, TokenEntry { id: v[i].id, token });
    if i < v.len() - 1 {
        lemma_update_id(v.drop_last(), i, token, id);
        assert(w.drop_last() =~= v.drop_last().update(i, TokenEntry { id: v[i].id, token }));
    } else {
        assert(w.drop_last() =~= v.drop_last());
    }
}

proof fn lemma_update_token(v: Seq<TokenEntry>, i: int, id: PeripheralId, token: u64)
    requires
        0 <= i < v.len(),
        distinct_tokens(v),
    ensures
        ({
            let w = v.update(i, TokenEntry { id, token: v[i].token });
            &&& distinct_tokens(w)
            &&& id_in(w, token) == if token == v[i].token {
                Some(id)
            } else {
                id_in(v, token)
            }
            &&& id_in(v, v[i].token) is Some
        }),
    decreases v.len(),
{
    let w = v.update(i, TokenEntry { id, token: v[i].token });
    if i < v.len() - 1 {
        lemma_update_token(v.drop_last(), i, id, token);
        assert(w.drop_last() =~= v.drop_last().update(i, TokenEntry { id, token: v[i].token }));
    } else {
        assert(w.drop_last() =~= v.drop_last());
    }
}

proof fn lemma_absent_id(v: Seq<TokenEntry>, id: PeripheralId)
    requires
        forall|k: int| 0 <= k < v.len() ==> (#[trigger] v[k]).id != id,
    ensures
        token_in(v, id) is None,
    decreases v.len(),
{
    if v.len() > 0 {
        lemma_absent_id(v.drop_last(), id);
    }
}

proof fn lemma_absent_token(v: Seq<TokenEntry>, token: u64)
    requires
        forall|k: int| 0 <= k < v.len() ==> (#[trigger] v[k]).token != token,
    ensures
        id_in(v, token) is None,
    decreases v.len(),
{
    if v.len() > 0 {
        lemma_absent_token(v.drop_last(), token);
    }
}

impl AddressBook {
    /// No address and no peripheral is known.
    pub open spec fn empty(self) -> bool {
        &&& self.tokens@.len() == 0
        &&& self.ids@.len() == 0
        &&& forall|id: PeripheralId| #[trigger] self.token(id) is None
        &&& forall|token: u64| #[trigger] self.id(token) is None
    }

    /// Nothing is listed twice.
    pub open spec fn wf(self) -> bool {
        distinct_ids(self.tokens@) && distinct_tokens(self.ids@)
    }

    /// The token of a peripheral.
    pub open spec fn token(self, id: PeripheralId) -> Option<u64> {
        token_in(self.tokens@, id)
    }

    /// The peripheral of a token.
    pub open spec fn id(self, token: u64) -> Option<PeripheralId> {
        id_in(self.ids@, token)
    }

    /// An empty book.
    pub fn new() -> (r: Self)
        ensures
            r.wf(),
            r.empty(),
    {
        AddressBook { tokens: Vec::new(), ids: Vec::new() }
    }

    /// Finds the token of a peripheral.
    pub fn token_of(&self, id: PeripheralId) -> (r: Option<u64>)
        ensures
            r == self.token(id),
    {
        let mut i: usize = self.tokens.len();
        assert(self.tokens@.take(i as int) =~= self.tokens@);
        while i > 0
            invariant
                i <= self.tokens@.len(),
                self.token(id) == token_in(self.tokens@.take(i as int), id),
            decreases i,
        {
            assert(self.tokens@.take(i as int).drop_last() =~= self.tokens@.take(i - 1));
            if self.tokens[i - 1].id == id {
                return Some(self.tokens[i - 1].token);
            }
            i = i - 1;
        }
        None
    }

    /// Finds the peripheral of a token.
    pub fn id_of(&self, token: u64) -> (r: Option<PeripheralId>)
        ensures
            r == self.id(token),
    {
        let mut i: usize = self.ids.len();
        assert(self.ids@.take(i as int) =~= self.ids@);
        while i > 0
            invariant
                i <= self.ids@.len(),
                self.id(token) == id_in(self.ids@.take(i as int), token),
            decreases i,
        {
            assert(self.ids@.take(i as int).drop_last() =~= self.ids@.take(i - 1));
            if self.ids[i - 1].token == token {
                return Some(self.ids[i - 1].id);
            }
            i = i - 1;
        }
        None
    }

    fn set_token(&mut self, id: PeripheralId, token: u64)
        requires
            old(self).wf(),
        ensures
            final(self).wf(),
            final(self).ids == old(self).ids,
            forall|other: PeripheralId| #[trigger]
                final(self).token(other) == if other == id {
                    Some(token)
                } else {
                    old(self).token(other)
                },
            final(self).tokens@.len() == old(self).tokens@.len() + if old(self).token(id) is None {
                1int
            } else {
                0
            },
    {
        let ghost before = self.tokens@;
        let mut i: usize = 0;
        while i < self.tokens.len()
            invariant
                i <= self.tokens@.len(),
                *self == *old(self),
                before == self.tokens@,
                self.wf(),
                forall|k: int| 0 <= k < i ==> (#[trigger] before[k]).id != id,
            decreases self.tokens@.len() - i,
        {
            if self.tokens[i].id == id {
                self.tokens.set(i, TokenEntry { id, token });
                proof {
                    assert(self.tokens@ =~= before.update(
                        i as int,
                        TokenEntry { id: before[i as int].id, token },
                    ));
                    assert forall|other: PeripheralId| #[trigger]
                        self.token(other) == if other == id {
                            Some(token)
                        } else {
                            token_in(before, other)
                        } by {
                        lemma_update_id(before, i as int, token, other);
                    }
                    lemma_update_id(before, i as int, token, id);
                }
                return;
            }
            i = i + 1;
        }
        proof {
            lemma_absent_id(before, id);
        }
        self.tokens.push(TokenEntry { id, token });
        assert(self.tokens@.drop_last() =~= before);
    }

    fn set_id(&mut self, id: PeripheralId, token: u64)
        requires
            old(self).wf(),
        ensures
            final(self).wf(),
            final(self).tokens == old(self).tokens,
            forall|other: u64| #[trigger]
                final(self).id(other) == if other == token {
                    Some(id)
                } else {
                    old(self).id(other)
                },
            final(self).ids@.len() == old(self).ids@.len() + if old(self).id(token) is None {
                1int
            } else {
                0
            },
    {
        let ghost before = self.ids@;
        let mut i: usize = 0;
        while i < self.ids.len()
            invariant
                i <= self.ids@.len(),
                *self == *old(self),
                before == self.ids@,
                self.wf(),
                forall|k: int| 0 <= k < i ==> (#[trigger] before[k]).token != token,
            decreases self.ids@.len() - i,
        {
            if self.ids[i].token == token {
                self.ids.set(i, TokenEntry { id, token });
                proof {
                    assert(self.ids@ =~= before.update(
                        i as int,
                        TokenEntry { id, token: before[i as int].token },
                    ));
                    assert forall|other: u64| #[trigger]
                        self.id(other) == if other == token {
                            Some(id)
                        } else {
                            id_in(before, other)
                        } by {
                        lemma_update_token(before, i as int, id, other);
                    }
                    lemma_update_token(before, i as int, id, token);
                }
                return;
            }
            i = i + 1;
        }
        proof {
            lemma_absent_token(before, token);
        }
        self.ids.push(TokenEntry { id, token });
        assert(self.ids@.drop_last() =~= before);
    }

    /// Whether this is another book with one more association, which goes over those
    /// of its peripheral and of its address.
    pub open spec fn mapped(self, before: Self, id: PeripheralId, token: u64) -> bool {
        &&& forall|other: PeripheralId| #[trigger]
            self.token(other) == if other == id {
                Some(token)
            } else {
                before.token(other)
            }
        &&& forall|other: u64| #[trigger]
            self.id(other) == if other == token {
                Some(id)
            } else {
                before.id(other)
            }
        &&& self.tokens@.len() == before.tokens@.len() + if before.token(id) is None {
            1int
        } else {
            0
        }
        &&& self.ids@.len() == before.ids@.len() + if before.id(token) is None {
            1int
        } else {
            0
        }
    }

    /// Associates a peripheral with an address in both directions. The result is
    /// false where the numbers of peripherals and addresses differ afterwards,
    /// which tells of duplicates.
    pub fn update(&mut self, id: PeripheralId, token: u64) -> (ok: bool)
        requires
            old(self).wf(),
        ensures
            final(self).wf(),
            ok == (final(self).tokens@.len() == final(self).ids@.len()),
            final(self).mapped(*old(self), id, token),
    {
        self.set_token(id, token);
        let ghost middle = *self;
        self.set_id(id, token);
        assert forall|other: PeripheralId| #[trigger] self.token(other) == middle.token(other) by {}
        assert forall|other: u64| #[trigger] middle.id(other) == old(self).id(other) by {}
        self.tokens.len() == self.ids.len()
    }
}

/// Whether both directions say the same.
pub open spec fn consistent(b: AddressBook) -> bool {
    &&& b.tokens@.len() == b.ids@.len()
    &&& forall|id: PeripheralId, token: u64|
        (#[trigger] b.token(id) == Some(token)) <==> (#[trigger] b.id(token) == Some(id))
}

/// A pair of which the book knows neither side, or which it knows already, is
/// accepted and keeps both directions consistent. One of which it knows exactly
/// one side is reported.
pub proof fn law_known_addresses_stay_consistent(
    before: AddressBook,
    after: AddressBook,
    id: PeripheralId,
    token: u64,
)
    requires
        consistent(before),
        after.mapped(before, id, token),
    ensures
        before.token(id) == Some(token) || (before.token(id) is None && before.id(token) is None)
            ==> consistent(after),
        (before.token(id) is None) != (before.id(token) is None) ==> after.tokens@.len()
            != after.ids@.len(),
{
    if before.token(id) == Some(token) || (before.token(id) is None && before.id(token) is None) {
        assert forall|i: PeripheralId, t: u64|
            (#[trigger] after.token(i) == Some(t)) <==> (#[trigger] after.id(t) == Some(i)) by {
            assert((before.token(i) == Some(t)) <==> (before.id(t) == Some(i)));
            assert((before.token(i) == Some(token)) <==> (before.id(token) == Some(i)));
            assert((before.token(id) == Some(t)) <==> (before.id(t) == Some(id)));
        }
    }
}

} // verus!
