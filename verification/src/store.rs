//! The session store: the authoritative, process-local registry mapping
//! `(user, session id)` to a session, with a secondary lookup by bearer
//! token.  Used by both the REST control plane and the dispatch engine.

use vstd::prelude::*;

use crate::strutil::str_eq;

verus! {

/// The mathematical value of a [`Session`]: the same fields over plain
/// sequences of characters.
pub struct SessionView {
    pub id: u64,
    pub addr: Option<Seq<char>>,
    pub token: Seq<char>,
}

/// A named, token-authenticated binding between a user and one backend
/// engine process.  `addr` is absent until the backend calls back with its
/// listening address.
pub struct Session {
    pub id: u64,
    pub addr: Option<String>,
    pub token: String,
}

impl View for Session {
    type V = SessionView;

    open spec fn view(&self) -> SessionView {
        SessionView {
            id: self.id,
            addr: match self.addr {
                Option::Some(a) => Option::Some(a@),
                Option::None => Option::None,
            },
            token: self.token@,
        }
    }
}

impl Clone for Session {
    fn clone(&self) -> (r: Self)
        ensures
            r == *self,
    {
        Session {
            id: self.id,
            addr: match &self.addr {
                Option::Some(a) => Option::Some(a.clone()),
                Option::None => Option::None,
            },
            token: self.token.clone(),
        }
    }
}

/// One row of the store: the owning user paired with the session.
pub type Row = (Seq<char>, SessionView);

/// No two rows carry the same session id.
pub open spec fn ids_distinct(rows: Seq<Row>) -> bool {
    forall|i: int, j: int|
        0 <= i < rows.len() && 0 <= j < rows.len() && i != j ==> rows[i].1.id != rows[j].1.id
}

/// Every row's id lies below the id counter.
pub open spec fn ids_bounded(rows: Seq<Row>, next: u64) -> bool {
    forall|i: int| 0 <= i < rows.len() ==> rows[i].1.id < next
}

/// Well-formedness of a store: distinct ids, all below the counter.
pub open spec fn store_inv(rows: Seq<Row>, next: u64) -> bool {
    ids_distinct(rows) && ids_bounded(rows, next)
}

/// Some row is owned by `user` and carries session id `id`.
pub open spec fn has_user_id(rows: Seq<Row>, user: Seq<char>, id: u64) -> bool {
    exists|i: int| 0 <= i < rows.len() && rows[i].0 == user && rows[i].1.id == id
}

/// Some row's session carries bearer token `t`.
pub open spec fn has_token(rows: Seq<Row>, t: Seq<char>) -> bool {
    exists|i: int| 0 <= i < rows.len() && rows[i].1.token == t
}

/// No two rows carry the same bearer token.
pub open spec fn tokens_distinct(rows: Seq<Row>) -> bool {
    forall|i: int, j: int|
        0 <= i < rows.len() && 0 <= j < rows.len() && i != j
            ==> rows[i].1.token != rows[j].1.token
}

/// The sessions owned by `user`, in store order.
pub open spec fn user_sessions(rows: Seq<Row>, user: Seq<char>) -> Seq<SessionView> {
    rows.filter(|e: Row| e.0 == user).map_values(|e: Row| e.1)
}

/// The capability set the control plane and the dispatch engine need from a
/// session registry.  One in-memory implementation is provided; the
/// contracts leave room for others.
pub trait SessionStore: Sized {
    /// All live sessions, each paired with its owning user, oldest first.
    spec fn rows(&self) -> Seq<Row>;

    /// The id the next created session will receive.
    spec fn next_id(&self) -> u64;

    /// Inserts a fresh session for `username` holding `token`, with no
    /// address yet, under the next free id.
    fn create_session(&mut self, username: &str, token: String)
        requires
            store_inv(old(self).rows(), old(self).next_id()),
            old(self).next_id() < u64::MAX,
        ensures
            final(self).rows() == old(self).rows().push(
                (
                    username@,
                    (SessionView { id: old(self).next_id(), addr: Option::None, token: token@ }),
                ),
            ),
            final(self).next_id() == old(self).next_id() + 1,
            store_inv(final(self).rows(), final(self).next_id()),
    ;

    /// The session under `(username, id)`, if any.
    fn get_session(&self, username: &str, id: u64) -> (r: Option<Session>)
        ensures
            match r {
                Option::Some(s) => s@.id == id && exists|i: int|
                    0 <= i < self.rows().len() && self.rows()[i].0 == username@
                        && self.rows()[i].1 == s@,
                Option::None => !has_user_id(self.rows(), username@, id),
            },
    ;

    /// The first session, in store order, whose token is `token`, if any.
    fn get_session_by_token(&self, token: &str) -> (r: Option<Session>)
        ensures
            match r {
                Option::Some(s) => s@.token == token@ && exists|i: int|
                    0 <= i < self.rows().len() && self.rows()[i].1 == s@ && (forall|j: int|
                        0 <= j < i ==> self.rows()[j].1.token != token@),
                Option::None => !has_token(self.rows(), token@),
            },
    ;

    /// Publishes `addr` on the first session carrying `token`; leaves the
    /// store unchanged when no session does.
    fn set_session_addr(&mut self, token: &str, addr: String)
        ensures
            final(self).next_id() == old(self).next_id(),
            !has_token(old(self).rows(), token@) ==> final(self).rows() == old(self).rows(),
            has_token(old(self).rows(), token@) ==> exists|i: int|
                0 <= i < old(self).rows().len() && old(self).rows()[i].1.token == token@
                    && (forall|j: int| 0 <= j < i ==> old(self).rows()[j].1.token != token@)
                    && final(self).rows() == old(self).rows().update(
                    i,
                    (
                        old(self).rows()[i].0,
                        (SessionView {
                            id: old(self).rows()[i].1.id,
                            addr: Option::Some(addr@),
                            token: old(self).rows()[i].1.token,
                        }),
                    ),
                ),
    ;

    /// All of `username`'s sessions, in store order.
    fn list_sessions(&self, username: &str) -> (r: Vec<Session>)
        ensures
            r@.map_values(|s: Session| s@) == user_sessions(self.rows(), username@),
    ;

    /// Removes the session under `(username, id)`; leaves the store
    /// unchanged when there is none.
    fn delete_session(&mut self, username: &str, id: u64)
        ensures
            final(self).next_id() == old(self).next_id(),
            !has_user_id(old(self).rows(), username@, id) ==> final(self).rows() == old(
                self,
            ).rows(),
            has_user_id(old(self).rows(), username@, id) ==> exists|i: int|
                0 <= i < old(self).rows().len() && old(self).rows()[i].0 == username@ && old(
                    self,
                ).rows()[i].1.id == id && final(self).rows() == old(self).rows().remove(i),
    ;
}

proof fn lemma_user_sessions_index(rows: Seq<Row>, user: Seq<char>, k: int)
    requires
        0 <= k < user_sessions(rows, user).len(),
    ensures
        exists|i: int|
            0 <= i < rows.len() && rows[i].0 == user && rows[i].1 == user_sessions(rows, user)[k],
    decreases rows.len(),
{
    reveal(Seq::filter);
    let us = user_sessions(rows, user);
    if rows.len() > 0 {
        let prev = rows.drop_last();
        let sub = user_sessions(prev, user);
        if rows.last().0 == user {
            assert(us =~= sub.push(rows.last().1));
            if k < sub.len() {
                lemma_user_sessions_index(prev, user, k);
                let i = choose|i: int|
                    0 <= i < prev.len() && prev[i].0 == user && prev[i].1 == sub[k];
                assert(rows[i].0 == user && rows[i].1 == us[k]);
            } else {
                assert(rows[rows.len() - 1].0 == user && rows[rows.len() - 1].1 == us[k]);
            }
        } else {
            assert(us =~= sub);
            lemma_user_sessions_index(prev, user, k);
            let i = choose|i: int| 0 <= i < prev.len() && prev[i].0 == user && prev[i].1 == sub[k];
            assert(rows[i].0 == user && rows[i].1 == us[k]);
        }
    }
}

/// The listing and the point lookup agree: under the store invariant, every
/// session that `list_sessions(user)` returns is the one and only session
/// the store holds under `(user, its id)`, so `get_session(user, id)` must
/// yield exactly it.
pub proof fn lemma_list_get_agree(rows: Seq<Row>, next: u64, user: Seq<char>, s: SessionView)
    requires
        store_inv(rows, next),
        user_sessions(rows, user).contains(s),
    ensures
        has_user_id(rows, user, s.id),
        forall|i: int|
            0 <= i < rows.len() && rows[i].0 == user && rows[i].1.id == s.id ==> rows[i].1 == s,
{
    let us = user_sessions(rows, user);
    let k = choose|k: int| 0 <= k < us.len() && us[k] == s;
    lemma_user_sessions_index(rows, user, k);
    let w = choose|w: int| 0 <= w < rows.len() && rows[w].0 == user && rows[w].1 == us[k];
    assert(rows[w].0 == user && rows[w].1 == s);
    assert(has_user_id(rows, user, s.id));
    assert forall|i: int|
        0 <= i < rows.len() && rows[i].0 == user && rows[i].1.id == s.id implies rows[i].1
        == s by {
        if i != w {
            assert(rows[i].1.id != rows[w].1.id);
        }
    }
}

/// A token issued by session creation resolves at once: the new row's own
/// token is present in the store after the insertion.
pub proof fn lemma_created_token_resolves(rows: Seq<Row>, user: Seq<char>, sv: SessionView)
    ensures
        has_token(rows.push((user, sv)), sv.token),
{
    assert(rows.push((user, sv))[rows.len() as int].1.token == sv.token);
}

/// An issued token stays resolvable across the creation of further
/// sessions: pushing a new row never removes an existing token.
pub proof fn lemma_create_keeps_tokens(rows: Seq<Row>, user: Seq<char>, sv: SessionView, t: Seq<char>)
    requires
        has_token(rows, t),
    ensures
        has_token(rows.push((user, sv)), t),
{
    let i = choose|i: int| 0 <= i < rows.len() && rows[i].1.token == t;
    assert(rows.push((user, sv))[i].1.token == t);
}

/// Publishing an address never changes which tokens resolve: after the
/// update `set_session_addr` performs at row `i`, a token is present
/// exactly when it was present before.
pub proof fn lemma_set_addr_keeps_tokens(rows: Seq<Row>, i: int, a: Seq<char>, t: Seq<char>)
    requires
        0 <= i < rows.len(),
    ensures
        has_token(
            rows.update(
                i,
                (
                    rows[i].0,
                    (SessionView { id: rows[i].1.id, addr: Option::Some(a), token: rows[i].1.token }),
                ),
            ),
            t,
        ) <==> has_token(rows, t),
{
    let rows2 = rows.update(
        i,
        (
            rows[i].0,
            (SessionView { id: rows[i].1.id, addr: Option::Some(a), token: rows[i].1.token }),
        ),
    );
    assert forall|j: int| 0 <= j < rows.len() implies rows2[j].1.token == rows[j].1.token by {}
    if has_token(rows, t) {
        let j = choose|j: int| 0 <= j < rows.len() && rows[j].1.token == t;
        assert(rows2[j].1.token == t);
    }
    if has_token(rows2, t) {
        let j = choose|j: int| 0 <= j < rows2.len() && rows2[j].1.token == t;
        assert(rows[j].1.token == t);
    }
}

/// Deleting one row decides exactly the fate of its token: removing a row
/// that does not carry `t` keeps `t` resolvable, and, when no two live
/// sessions share a token, removing the row that carries `t` makes `t`
/// unresolvable.
pub proof fn lemma_delete_token(rows: Seq<Row>, i: int, t: Seq<char>)
    requires
        0 <= i < rows.len(),
        has_token(rows, t),
    ensures
        rows[i].1.token != t ==> has_token(rows.remove(i), t),
        rows[i].1.token == t && tokens_distinct(rows) ==> !has_token(rows.remove(i), t),
{
    let rows2 = rows.remove(i);
    if rows[i].1.token != t {
        let j = choose|j: int| 0 <= j < rows.len() && rows[j].1.token == t;
        if j < i {
            assert(rows2[j].1.token == t);
        } else {
            assert(rows2[j - 1].1.token == t);
        }
    }
    if rows[i].1.token == t && tokens_distinct(rows) {
        assert forall|j: int| 0 <= j < rows2.len() implies rows2[j].1.token != t by {
            if j < i {
                assert(rows2[j] == rows[j]);
            } else {
                assert(rows2[j] == rows[j + 1]);
            }
        }
    }
}

/// Token uniqueness is preserved by session creation: when no two stored
/// sessions share a token and the new token is fresh, the store after the
/// insertion again holds pairwise distinct tokens.
pub proof fn lemma_create_keeps_tokens_distinct(rows: Seq<Row>, user: Seq<char>, sv: SessionView)
    requires
        tokens_distinct(rows),
        !has_token(rows, sv.token),
    ensures
        tokens_distinct(rows.push((user, sv))),
{
    let rows2 = rows.push((user, sv));
    assert forall|i: int, j: int|
        0 <= i < rows2.len() && 0 <= j < rows2.len() && i != j implies rows2[i].1.token
        != rows2[j].1.token by {
        if i < rows.len() && j < rows.len() {
            assert(rows2[i] == rows[i] && rows2[j] == rows[j]);
        } else if i < rows.len() {
            assert(rows2[j].1 == sv);
            assert(rows2[i] == rows[i]);
        } else {
            assert(rows2[i].1 == sv);
            assert(rows2[j] == rows[j]);
        }
    }
}

/// After `set_session_addr(t, a)` on a store whose tokens are pairwise
/// distinct, every row carrying `t` (there is exactly one) holds address
/// `a`, so `get_session_by_token(t)` must yield a session whose address is
/// `Some(a)`.
pub proof fn lemma_set_addr_then_lookup(rows: Seq<Row>, i: int, a: Seq<char>)
    requires
        tokens_distinct(rows),
        0 <= i < rows.len(),
    ensures
        ({
            let rows2 = rows.update(
                i,
                (
                    rows[i].0,
                    (SessionView {
                        id: rows[i].1.id,
                        addr: Option::Some(a),
                        token: rows[i].1.token,
                    }),
                ),
            );
            has_token(rows2, rows[i].1.token) && forall|j: int|
                0 <= j < rows2.len() && rows2[j].1.token == rows[i].1.token ==> rows2[j].1.addr
                    == Option::Some(a)
        }),
{
    let t = rows[i].1.token;
    let rows2 = rows.update(
        i,
        (rows[i].0, (SessionView { id: rows[i].1.id, addr: Option::Some(a), token: t })),
    );
    assert(rows2[i].1.token == t);
    assert forall|j: int|
        0 <= j < rows2.len() && rows2[j].1.token == t implies rows2[j].1.addr == Option::Some(
        a,
    ) by {
        if j != i {
            assert(rows2[j] == rows[j]);
            assert(rows[j].1.token != rows[i].1.token);
        }
    }
}

/// The process-local implementation of [`SessionStore`]: a growable list of
/// rows plus a monotone id counter.
pub struct InMemorySessionStore {
    entries: Vec<(String, Session)>,
    next_session_id: u64,
}

impl InMemorySessionStore {
    /// The id the next created session will receive.
    pub fn peek_next_id(&self) -> (r: u64)
        ensures
            r == self.next_id(),
    {
        self.next_session_id
    }

    /// An empty store whose first session will get id 0.
    pub fn new() -> (r: Self)
        ensures
            r.rows() == Seq::<Row>::empty(),
            r.next_id() == 0,
            store_inv(r.rows(), r.next_id()),
    {
        let r = InMemorySessionStore { entries: Vec::new(), next_session_id: 0 };
        proof {
            assert(r.rows() =~= Seq::<Row>::empty());
        }
        r
    }
}

impl SessionStore for InMemorySessionStore {
    closed spec fn rows(&self) -> Seq<Row> {
        self.entries@.map_values(|e: (String, Session)| (e.0@, e.1@))
    }

    closed spec fn next_id(&self) -> u64 {
        self.next_session_id
    }

    fn create_session(&mut self, username: &str, token: String) {
        let id = self.next_session_id;
        self.next_session_id = self.next_session_id + 1;
        let session = Session { id, addr: Option::None, token };
        self.entries.push((username.to_owned(), session));
        proof {
            assert(self.rows() =~= old(self).rows().push(
                (
                    username@,
                    (SessionView { id: old(self).next_id(), addr: Option::None, token: token@ }),
                ),
            ));
        }
    }

    fn get_session(&self, username: &str, id: u64) -> (r: Option<Session>) {
        let n = self.entries.len();
        let mut i: usize = 0;
        while i < n
            invariant
                n == self.entries.len(),
                0 <= i <= n,
                forall|j: int|
                    0 <= j < i ==> !(self.rows()[j].0 == username@ && self.rows()[j].1.id == id),
            decreases n - i,
        {
            let entry = &self.entries[i];
            if entry.1.id == id && str_eq(entry.0.as_str(), username) {
                let found = entry.1.clone();
                proof {
                    assert(self.rows()[i as int].0 == username@);
                    assert(self.rows()[i as int].1 == found@);
                }
                return Option::Some(found);
            }
            i = i + 1;
        }
        Option::None
    }

    fn get_session_by_token(&self, token: &str) -> (r: Option<Session>) {
        let n = self.entries.len();
        let mut i: usize = 0;
        while i < n
            invariant
                n == self.entries.len(),
                0 <= i <= n,
                forall|j: int| 0 <= j < i ==> self.rows()[j].1.token != token@,
            decreases n - i,
        {
            let entry = &self.entries[i];
            if str_eq(entry.1.token.as_str(), token) {
                let found = entry.1.clone();
                proof {
                    assert(self.rows()[i as int].1 == found@);
                    assert(found@.token == token@);
                }
                return Option::Some(found);
            }
            i = i + 1;
        }
        Option::None
    }

    fn set_session_addr(&mut self, token: &str, addr: String) {
        let n = self.entries.len();
        let mut i: usize = 0;
        while i < n
            invariant
                n == self.entries.len(),
                0 <= i <= n,
                *self == *old(self),
                forall|j: int| 0 <= j < i ==> self.rows()[j].1.token != token@,
            decreases n - i,
        {
            if str_eq(self.entries[i].1.token.as_str(), token) {
                let id = self.entries[i].1.id;
                let tok = self.entries[i].1.token.clone();
                let user = self.entries[i].0.clone();
                let updated = Session { id, addr: Option::Some(addr), token: tok };
                self.entries.set(i, (user, updated));
                proof {
                    assert(self.rows() =~= old(self).rows().update(
                        i as int,
                        (
                            old(self).rows()[i as int].0,
                            (SessionView {
                                id: old(self).rows()[i as int].1.id,
                                addr: Option::Some(addr@),
                                token: old(self).rows()[i as int].1.token,
                            }),
                        ),
                    ));
                }
                return ;
            }
            i = i + 1;
        }
    }

    fn list_sessions(&self, username: &str) -> (r: Vec<Session>) {
        let n = self.entries.len();
        let mut out: Vec<Session> = Vec::new();
        let mut i: usize = 0;
        proof {
            assert(self.rows().take(0) =~= Seq::<Row>::empty());
            reveal(Seq::filter);
            assert(out@.map_values(|s: Session| s@) =~= user_sessions(
                self.rows().take(0),
                username@,
            ));
        }
        while i < n
            invariant
                n == self.entries.len(),
                0 <= i <= n,
                out@.map_values(|s: Session| s@) == user_sessions(
                    self.rows().take(i as int),
                    username@,
                ),
            decreases n - i,
        {
            let ghost prefix = self.rows().take(i as int);
            let ghost out0 = out@;
            let entry = &self.entries[i];
            let matched = str_eq(entry.0.as_str(), username);
            if matched {
                out.push(entry.1.clone());
            }
            i = i + 1;
            proof {
                let f = |s: Session| s@;
                let g = |e: Row| e.1;
                let pred = |e: Row| e.0 == username@;
                let row = self.rows()[i - 1];
                let next_prefix = self.rows().take(i as int);
                assert(next_prefix.drop_last() =~= prefix);
                assert(next_prefix.last() == row);
                reveal(Seq::filter);
                if matched {
                    assert(next_prefix.filter(pred) =~= prefix.filter(pred).push(row));
                    assert(out@ =~= out0.push(self.entries@[i - 1].1));
                    assert(out@.map_values(f) =~= out0.map_values(f).push(row.1));
                    assert(prefix.filter(pred).push(row).map_values(g) =~= prefix.filter(
                        pred,
                    ).map_values(g).push(row.1));
                } else {
                    assert(next_prefix.filter(pred) =~= prefix.filter(pred));
                }
                assert(out@.map_values(f) =~= user_sessions(next_prefix, username@));
            }
        }
        proof {
            assert(self.rows().take(n as int) =~= self.rows());
        }
        out
    }

    fn delete_session(&mut self, username: &str, id: u64) {
        let n = self.entries.len();
        let mut i: usize = 0;
        while i < n
            invariant
                n == self.entries.len(),
                0 <= i <= n,
                *self == *old(self),
                forall|j: int|
                    0 <= j < i ==> !(self.rows()[j].0 == username@ && self.rows()[j].1.id == id),
            decreases n - i,
        {
            let entry = &self.entries[i];
            if entry.1.id == id && str_eq(entry.0.as_str(), username) {
                proof {
                    assert(old(self).rows()[i as int].0 == username@);
                    assert(old(self).rows()[i as int].1.id == id);
                    assert(has_user_id(old(self).rows(), username@, id));
                }
                self.entries.remove(i);
                proof {
                    assert(self.rows() =~= old(self).rows().remove(i as int));
                }
                return ;
            }
            i = i + 1;
        }
    }
}

} // verus!
