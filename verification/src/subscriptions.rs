//! Bookkeeping of a depth-stream client: which symbols it is subscribed to
//! (with their books) and who waits for the next book of each; and the choice
//! of the client that serves a symbol.
use crate::keyed::{find_key, has_key, insert_key, keyed_map, keys_unique, lemma_keyed_len, remove_key};
use vstd::prelude::*;

verus! {

/// Subscribed symbols with their books (`B`), and for each symbol the waiters
/// (`W`) for its next book.
pub struct Subscriptions<B, W> {
    subscribed: Vec<(String, B)>,
    pending: Vec<(String, Vec<W>)>,
}

impl<B, W> Subscriptions<B, W> {
    #[verifier::type_invariant]
    spec fn inv(self) -> bool {
        keys_unique(self.subscribed@) && keys_unique(self.pending@)
    }

    /// The subscribed symbols and their books.
    pub closed spec fn books(self) -> Map<Seq<char>, B> {
        keyed_map(self.subscribed@)
    }

    /// The waiters of each symbol.
    pub closed spec fn waiters(self) -> Map<Seq<char>, Vec<W>> {
        keyed_map(self.pending@)
    }

    /// The number of subscriptions.
    pub closed spec fn count(self) -> nat {
        self.subscribed@.len()
    }

    pub fn new() -> (r: Subscriptions<B, W>)
        ensures
            r.books() == Map::<Seq<char>, B>::empty(),
            r.waiters() == Map::<Seq<char>, Vec<W>>::empty(),
            r.count() == 0,
    {
        let r = Subscriptions { subscribed: Vec::new(), pending: Vec::new() };
        assert(keyed_map(r.subscribed@) =~= Map::<Seq<char>, B>::empty());
        assert(keyed_map(r.pending@) =~= Map::<Seq<char>, Vec<W>>::empty());
        r
    }

    /// Whether the client is subscribed to `symbol`.
    pub fn has_symbol(&self, symbol: &String) -> (r: bool)
        ensures
            r == self.books().contains_key(symbol@),
    {
        proof {
            use_type_invariant(self);
        }
        has_key(&self.subscribed, symbol)
    }

    /// How many symbols the client is subscribed to.
    pub fn subscribed_count(&self) -> (r: usize)
        ensures
            r == self.count(),
            r == self.books().len(),
    {
        proof {
            use_type_invariant(self);
            lemma_keyed_len(self.subscribed@);
        }
        self.subscribed.len()
    }

    /// Registers a waiter for the next book of `symbol`; when the client was
    /// not subscribed to it yet, subscribes it with `book` and says so (the
    /// caller then sends the subscription).
    pub fn watch(&mut self, symbol: String, book: B, waiter: W) -> (first: bool)
        ensures
            first == !old(self).books().contains_key(symbol@),
            final(self).books() == (if first {
                old(self).books().insert(symbol@, book)
            } else {
                old(self).books()
            }),
            final(self).waiters().contains_key(symbol@),
            final(self).waiters()[symbol@]@ == (if old(self).waiters().contains_key(symbol@) {
                old(self).waiters()[symbol@]@
            } else {
                Seq::<W>::empty()
            }).push(waiter),
            final(self).waiters().remove(symbol@) == old(self).waiters().remove(symbol@),
    {
        proof {
            use_type_invariant(&*self);
        }
        let first = !has_key(&self.subscribed, &symbol);
        let mut subscribed = Vec::new();
        let mut pending = Vec::new();
        std::mem::swap(&mut subscribed, &mut self.subscribed);
        std::mem::swap(&mut pending, &mut self.pending);
        if first {
            insert_key(&mut subscribed, symbol.clone(), book);
        }
        let mut ws = match remove_key(&mut pending, &symbol) {
            Some(v) => v,
            None => Vec::new(),
        };
        ws.push(waiter);
        let ghost p1 = keyed_map(pending@);
        insert_key(&mut pending, symbol, ws);
        proof {
            assert(keyed_map(pending@).remove(symbol@) =~= p1.remove(symbol@));
        }
        self.subscribed = subscribed;
        self.pending = pending;
        first
    }

    /// Undoes a first watch whose subscription could not be made: drops the
    /// symbol and its waiters.
    pub fn cancel(&mut self, symbol: &String)
        ensures
            final(self).books() == old(self).books().remove(symbol@),
            final(self).waiters() == old(self).waiters().remove(symbol@),
    {
        proof {
            use_type_invariant(&*self);
        }
        let mut subscribed = Vec::new();
        let mut pending = Vec::new();
        std::mem::swap(&mut subscribed, &mut self.subscribed);
        std::mem::swap(&mut pending, &mut self.pending);
        let _ = remove_key(&mut subscribed, symbol);
        let _ = remove_key(&mut pending, symbol);
        self.subscribed = subscribed;
        self.pending = pending;
    }

    /// Unsubscribes `symbol`, giving back its book (to restore it if the
    /// unsubscription cannot be made).
    pub fn unsubscribe(&mut self, symbol: &String) -> (r: Option<B>)
        ensures
            final(self).books() == old(self).books().remove(symbol@),
            final(self).waiters() == old(self).waiters(),
            r is Some == old(self).books().contains_key(symbol@),
            r matches Some(b) ==> b == old(self).books()[symbol@],
    {
        proof {
            use_type_invariant(&*self);
        }
        let mut subscribed = Vec::new();
        std::mem::swap(&mut subscribed, &mut self.subscribed);
        let r = remove_key(&mut subscribed, symbol);
        self.subscribed = subscribed;
        r
    }

    /// Puts a symbol's book back.
    pub fn restore(&mut self, symbol: String, book: B)
        ensures
            final(self).books() == old(self).books().insert(symbol@, book),
            final(self).waiters() == old(self).waiters(),
    {
        proof {
            use_type_invariant(&*self);
        }
        let mut subscribed = Vec::new();
        std::mem::swap(&mut subscribed, &mut self.subscribed);
        insert_key(&mut subscribed, symbol, book);
        self.subscribed = subscribed;
    }

    /// Drops the waiters of a symbol.
    pub fn drop_waiters(&mut self, symbol: &String)
        ensures
            final(self).books() == old(self).books(),
            final(self).waiters() == old(self).waiters().remove(symbol@),
    {
        proof {
            use_type_invariant(&*self);
        }
        let mut pending = Vec::new();
        std::mem::swap(&mut pending, &mut self.pending);
        let _ = remove_key(&mut pending, symbol);
        self.pending = pending;
    }

    /// Takes the waiters of a symbol to hand them its new book, leaving none;
    /// `None` when the symbol has no waiter list.
    pub fn take_waiters(&mut self, symbol: &String) -> (r: Option<Vec<W>>)
        ensures
            final(self).books() == old(self).books(),
            r is Some == old(self).waiters().contains_key(symbol@),
            r matches Some(ws) ==> ws == old(self).waiters()[symbol@] && final(self).waiters().contains_key(
                symbol@,
            ) && final(self).waiters()[symbol@]@.len() == 0 && final(self).waiters().remove(symbol@)
                == old(self).waiters().remove(symbol@),
            r is None ==> final(self).waiters() == old(self).waiters(),
    {
        proof {
            use_type_invariant(&*self);
        }
        let mut pending = Vec::new();
        std::mem::swap(&mut pending, &mut self.pending);
        let r = remove_key(&mut pending, symbol);
        let ghost p1 = keyed_map(pending@);
        if r.is_some() {
            insert_key(&mut pending, symbol.clone(), Vec::new());
            proof {
                assert(keyed_map(pending@).remove(symbol@) =~= p1.remove(symbol@));
            }
        } else {
            proof {
                assert(p1 =~= keyed_map(old(self).pending@));
            }
        }
        self.pending = pending;
        r
    }

    /// The book of a symbol.
    pub fn book(&self, symbol: &String) -> (r: Option<&B>)
        ensures
            r is Some == self.books().contains_key(symbol@),
            r matches Some(b) ==> *b == self.books()[symbol@],
    {
        proof {
            use_type_invariant(self);
        }
        match find_key(&self.subscribed, symbol) {
            Some(i) => Some(&self.subscribed[i].1),
            None => None,
        }
    }

    /// What a failed connection does: forgets every subscription and waiter.
    pub fn clear(&mut self)
        ensures
            final(self).books() == Map::<Seq<char>, B>::empty(),
            final(self).waiters() == Map::<Seq<char>, Vec<W>>::empty(),
            final(self).count() == 0,
    {
        proof {
            use_type_invariant(&*self);
        }
        let subscribed: Vec<(String, B)> = Vec::new();
        let pending: Vec<(String, Vec<W>)> = Vec::new();
        assert(keys_unique(subscribed@));
        assert(keys_unique(pending@));
        self.subscribed = subscribed;
        self.pending = pending;
        assert(keyed_map(self.subscribed@) =~= Map::<Seq<char>, B>::empty());
        assert(keyed_map(self.pending@) =~= Map::<Seq<char>, Vec<W>>::empty());
    }
}

/// Which client serves a symbol.
#[derive(Debug, Clone, Copy, PartialEq, Eq, Structural)]
pub enum ClientChoice {
    /// The first client already subscribed to the symbol.
    Existing(usize),
    /// The first client with room for another subscription.
    WithRoom(usize),
    /// A new client.
    New,
}

/// How many symbols one depth connection carries before another is opened.
pub const CLIENT_SUBSCRIPTION_LIMIT: usize = 200;

/// Picks the client for a symbol among clients given as (subscribed to the
/// symbol, number of subscriptions): the first one already subscribed to it, else
/// the first with fewer than `limit` subscriptions, else a new one.
pub fn choose_client(clients: &Vec<(bool, usize)>, limit: usize) -> (r: ClientChoice)
    ensures
        match r {
            ClientChoice::Existing(i) => i < clients@.len() && clients@[i as int].0 && forall|j: int|
                0 <= j < i ==> !(#[trigger] clients@[j]).0,
            ClientChoice::WithRoom(i) => i < clients@.len() && clients@[i as int].1 < limit && (forall|
                j: int,
            |
                0 <= j < i ==> (#[trigger] clients@[j]).1 >= limit) && forall|j: int|
                0 <= j < clients@.len() ==> !(#[trigger] clients@[j]).0,
            ClientChoice::New => forall|j: int|
                0 <= j < clients@.len() ==> !(#[trigger] clients@[j]).0 && clients@[j].1 >= limit,
        },
{
    let mut i: usize = 0;
    while i < clients.len()
        invariant
            i <= clients@.len(),
            forall|j: int| 0 <= j < i ==> !(#[trigger] clients@[j]).0,
        decreases clients@.len() - i,
    {
        if clients[i].0 {
            return ClientChoice::Existing(i);
        }
        i = i + 1;
    }
    let mut i: usize = 0;
    while i < clients.len()
        invariant
            i <= clients@.len(),
            forall|j: int| 0 <= j < clients@.len() ==> !(#[trigger] clients@[j]).0,
            forall|j: int| 0 <= j < i ==> (#[trigger] clients@[j]).1 >= limit,
        decreases clients@.len() - i,
    {
        if clients[i].1 < limit {
            return ClientChoice::WithRoom(i);
        }
        i = i + 1;
    }
    ClientChoice::New
}

/// The client to unwatch a symbol on: the first one subscribed to it.
pub fn client_with_symbol(has_symbol: &Vec<bool>) -> (r: Option<usize>)
    ensures
        match r {
            Some(i) => i < has_symbol@.len() && has_symbol@[i as int] && forall|j: int|
                0 <= j < i ==> !(#[trigger] has_symbol@[j]),
            None => forall|j: int| 0 <= j < has_symbol@.len() ==> !(#[trigger] has_symbol@[j]),
        },
{
    let mut i: usize = 0;
    while i < has_symbol.len()
        invariant
            i <= has_symbol@.len(),
            forall|j: int| 0 <= j < i ==> !(#[trigger] has_symbol@[j]),
        decreases has_symbol@.len() - i,
    {
        if has_symbol[i] {
            return Some(i);
        }
        i = i + 1;
    }
    None
}

} // verus!
