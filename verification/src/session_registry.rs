//! The session registry: authenticated client sessions by id, with a token
//! index for the one-shot authentication handshake.

use vstd::prelude::*;

use vstd::string::StringExecFns;
use vstd::string::StringSliceAdditionalSpecFns;

use crate::decimal::{dec_chars, u64_to_dec};

verus! {

/// A session's role.
#[derive(Clone, Copy, Debug, PartialEq, Eq, Structural)]
pub enum SessionRole {
    Admin,
    Session,
}

/// A session's lifecycle stage.
#[derive(Clone, Copy, Debug, PartialEq, Eq, Structural)]
pub enum SessionLifecycle {
    Pending,
    Loading,
    Occupied,
    Consumed,
}

/// An authenticated (or pending) client session.
#[derive(Debug)]
pub struct Session {
    id: String,
    token: String,
    role: SessionRole,
    state: SessionLifecycle,
    display_name: Option<String>,
}

/// The abstract content of a session.
pub ghost struct SessionView {
    pub id: Seq<char>,
    pub token: Seq<char>,
    pub role: SessionRole,
    pub state: SessionLifecycle,
    pub display_name: Option<Seq<char>>,
}

impl View for Session {
    type V = SessionView;

    closed spec fn view(&self) -> SessionView {
        SessionView {
            id: self.id@,
            token: self.token@,
            role: self.role,
            state: self.state,
            display_name: match self.display_name {
                Some(ref s) => Some(s@),
                None => None,
            },
        }
    }
}

impl Session {
    /// The session's one-shot authentication token.
    pub fn token(&self) -> (r: &str)
        ensures
            r@ == self@.token,
    {
        self.token.as_str()
    }

    /// The session's role.
    pub fn role(&self) -> (r: SessionRole)
        ensures
            r == self@.role,
    {
        self.role
    }

    /// The session's lifecycle stage.
    pub fn state(&self) -> (r: SessionLifecycle)
        ensures
            r == self@.state,
    {
        self.state
    }

    /// The session's display name, if any.
    pub fn display_name(&self) -> (r: Option<&str>)
        ensures
            match r {
                Some(s) => self@.display_name == Some(s@),
                None => self@.display_name is None,
            },
    {
        match &self.display_name {
            Some(s) => Some(s.as_str()),
            None => None,
        }
    }

    /// The session's identifier.
    pub fn id(&self) -> (r: &str)
        ensures
            r@ == self@.id,
    {
        self.id.as_str()
    }
}

/// What the control plane reports about a session.
#[derive(Debug)]
pub struct SessionInfo {
    pub id: String,
    pub role: SessionRole,
    pub display_name: Option<String>,
    pub state: SessionLifecycle,
}

/// Whether two strings hold the same characters.
fn str_eq(a: &str, b: &str) -> (r: bool)
    ensures
        r == (a@ == b@),
{
    let ab = a.as_bytes();
    let bb = b.as_bytes();
    if ab.len() != bb.len() {
        proof {
            vstd::utf8::encode_utf8_decode_utf8(a@);
            vstd::utf8::encode_utf8_decode_utf8(b@);
        }
        return false;
    }
    let mut i: usize = 0;
    while i < ab.len()
        invariant
            i <= ab@.len(),
            ab@.len() == bb@.len(),
            ab@ == a.spec_bytes(),
            bb@ == b.spec_bytes(),
            forall|j: int| 0 <= j < i ==> ab@[j] == bb@[j],
        decreases ab@.len() - i,
    {
        if ab[i] != bb[i] {
            proof {
                vstd::utf8::encode_utf8_decode_utf8(a@);
                vstd::utf8::encode_utf8_decode_utf8(b@);
            }
            return false;
        }
        i = i + 1;
    }
    proof {
        assert(a.spec_bytes() =~= b.spec_bytes());
        vstd::utf8::encode_utf8_decode_utf8(a@);
        vstd::utf8::encode_utf8_decode_utf8(b@);
        assert(a@ == b@);
    }
    true
}

/// The registry of sessions, by id, with the token index used by the
/// authentication handshake. Generated identifiers come from a serial
/// counter, which keeps them distinct within one registry.
#[derive(Debug)]
pub struct SessionRegistry {
    sessions: Vec<Session>,
    token_index: Vec<(String, String)>,
    next_serial: u64,
}

/// Which direction `cycle_session` walks the ordered eligible sessions.
pub enum CycleDirection {
    Forward,
    Backward,
}

impl View for SessionRegistry {
    type V = Seq<SessionView>;

    closed spec fn view(&self) -> Seq<SessionView> {
        Seq::new(self.sessions@.len(), |i: int| self.sessions@[i]@)
    }
}

/// Some session in the sequence has this id.
pub open spec fn has_id(vs: Seq<SessionView>, id: Seq<char>) -> bool {
    exists|i: int| 0 <= i < vs.len() && #[trigger] vs[i].id == id
}

/// The index of the session with this id.
pub open spec fn index_of_id(vs: Seq<SessionView>, id: Seq<char>) -> int {
    choose|i: int| 0 <= i < vs.len() && #[trigger] vs[i].id == id
}

/// The token index as an abstract association: token to session id.
pub open spec fn token_entry(e: (String, String)) -> (Seq<char>, Seq<char>) {
    (e.0@, e.1@)
}

impl SessionRegistry {
    /// The token index as a sequence of (token, id) pairs.
    pub closed spec fn tokens(&self) -> Seq<(Seq<char>, Seq<char>)> {
        Seq::new(self.token_index@.len(), |i: int| token_entry(self.token_index@[i]))
    }

    /// Session ids are distinct, and so are the indexed tokens.
    pub closed spec fn wf(&self) -> bool {
        &&& forall|i: int, j: int|
            0 <= i < j < self@.len() ==> self@[i].id != self@[j].id
        &&& forall|i: int, j: int|
            0 <= i < j < self.tokens().len() ==> self.tokens()[i].0 != self.tokens()[j].0
    }

    /// An empty registry.
    pub fn new() -> (r: Self)
        ensures
            r.wf(),
            r@ == Seq::<SessionView>::empty(),
            r.tokens() == Seq::<(Seq<char>, Seq<char>)>::empty(),
    {
        let r = SessionRegistry { sessions: Vec::new(), token_index: Vec::new(), next_serial: 0 };
        proof {
            assert(r@ =~= Seq::<SessionView>::empty());
            assert(r.tokens() =~= Seq::<(Seq<char>, Seq<char>)>::empty());
        }
        r
    }

    /// The index of the session with this id, if any.
    fn find_session(&self, session_id: &str) -> (r: Option<usize>)
        ensures
            match r {
                Some(i) => 0 <= i < self@.len() && self@[i as int].id == session_id@,
                None => !has_id(self@, session_id@),
            },
    {
        let mut i: usize = 0;
        while i < self.sessions.len()
            invariant
                i <= self@.len(),
                self@.len() == self.sessions@.len(),
                forall|j: int| 0 <= j < i ==> (#[trigger] self@[j]).id != session_id@,
            decreases self@.len() - i,
        {
            proof {
                assert(self@[i as int] == self.sessions@[i as int]@);
            }
            if str_eq(self.sessions[i].id.as_str(), session_id) {
                return Some(i);
            }
            i = i + 1;
        }
        None
    }

    /// The index of the token-index entry with this token, if any.
    fn find_token(&self, token: &str) -> (r: Option<usize>)
        ensures
            match r {
                Some(i) => 0 <= i < self.tokens().len() && self.tokens()[i as int].0 == token@,
                None => forall|j: int|
                    0 <= j < self.tokens().len() ==> (#[trigger] self.tokens()[j]).0 != token@,
            },
    {
        let mut i: usize = 0;
        while i < self.token_index.len()
            invariant
                i <= self.tokens().len(),
                self.tokens().len() == self.token_index@.len(),
                forall|j: int| 0 <= j < i ==> (#[trigger] self.tokens()[j]).0 != token@,
            decreases self.tokens().len() - i,
        {
            proof {
                assert(self.tokens()[i as int] == token_entry(self.token_index@[i as int]));
            }
            if str_eq(self.token_index[i].0.as_str(), token) {
                return Some(i);
            }
            i = i + 1;
        }
        None
    }

    /// Registers a pending session under an id and a one-shot token; an
    /// existing session with the same id, and an existing index entry with
    /// the same token, are replaced.
    pub fn insert_pending(
        &mut self,
        id: String,
        token: String,
        role: SessionRole,
        display_name: Option<String>,
    )
        requires
            old(self).wf(),
        ensures
            final(self).wf(),
            has_id(final(self)@, id@),
            ({
                let i = index_of_id(final(self)@, id@);
                &&& final(self)@[i].token == token@
                &&& final(self)@[i].role == role
                &&& final(self)@[i].state == SessionLifecycle::Pending
                &&& final(self)@[i].display_name == (match display_name {
                    Some(ref s) => Some(s@),
                    None => None::<Seq<char>>,
                })
            }),
            forall|v: SessionView|
                #[trigger] final(self)@.contains(v) ==> v.id == id@ || old(self)@.contains(v),
            ({
                forall|j: int|
                    0 <= j < old(self)@.len() && (#[trigger] old(self)@[j]).id != id@
                        ==> final(self)@.contains(old(self)@[j])
            }),
            ({
                let te = (token@, id@);
                exists|i: int|
                    0 <= i < final(self).tokens().len() && #[trigger] final(self).tokens()[i] == te
            }),
            final(self).serial() == old(self).serial(),
    {
        let ghost pre = self@;
        let token_copy = token.clone();
        let id_copy = id.clone();
        let session = Session {
            id,
            token,
            role,
            state: SessionLifecycle::Pending,
            display_name,
        };
        let ghost ti: int;
        match self.find_token(token_copy.as_str()) {
            Some(t) => {
                self.token_index.set(t, (token_copy, id_copy));
                proof {
                    ti = t as int;
                    assert(self.tokens() =~= old(self).tokens().update(
                        t as int,
                        (session@.token, session@.id),
                    ));
                }
            },
            None => {
                self.token_index.push((token_copy, id_copy));
                proof {
                    ti = self.tokens().len() - 1;
                    assert(self.tokens() =~= old(self).tokens().push(
                        (session@.token, session@.id),
                    ));
                }
            },
        }
        proof {
            assert(self.tokens()[ti] == (session@.token, session@.id));
        }
        let ghost sv = session@;
        match self.find_session(session.id.as_str()) {
            Some(i) => {
                self.sessions.set(i, session);
                proof {
                    assert(self@ =~= pre.update(i as int, sv));
                    assert(self@[i as int].id == sv.id);
                    assert forall|v: SessionView| #[trigger] self@.contains(v) implies v.id == sv.id
                        || pre.contains(v) by {
                        let w = choose|w: int| 0 <= w < self@.len() && self@[w] == v;
                        if w != i {
                            assert(pre[w] == v);
                        }
                    }
                }
            },
            None => {
                self.sessions.push(session);
                proof {
                    assert(self@ =~= pre.push(sv));
                    assert(self@[self@.len() - 1].id == sv.id);
                    assert forall|v: SessionView| #[trigger] self@.contains(v) implies v.id == sv.id
                        || pre.contains(v) by {
                        let w = choose|w: int| 0 <= w < self@.len() && self@[w] == v;
                        if w < pre.len() {
                            assert(pre[w] == v);
                        }
                    }
                }
            },
        }
        proof {
            let i = index_of_id(self@, sv.id);
            assert(has_id(self@, sv.id));
            assert(self@[i].token == sv.token);
            assert(self.tokens()[ti] == (sv.token, sv.id));
            assert forall|j: int|
                0 <= j < pre.len() && (#[trigger] pre[j]).id != sv.id implies self@.contains(
                pre[j],
            ) by {
                if pre.len() == self@.len() {
                    assert(self@[j] == pre[j]);
                } else {
                    assert(self@[j] == pre[j]);
                }
            }
        }
    }

    /// Authenticates a client by its one-shot token. The token entry is
    /// consumed either way; a pending session moves to loading and its id is
    /// returned, any other state fails.
    pub fn authenticate_with_token(&mut self, token: &str) -> (r: Option<String>)
        requires
            old(self).wf(),
        ensures
            final(self).wf(),
            ({
                let toks = old(self).tokens();
                match r {
                    Some(id) => {
                        &&& exists|t: int|
                            0 <= t < toks.len() && #[trigger] toks[t].0 == token@ && has_id(
                                old(self)@,
                                toks[t].1,
                            ) && old(self)@[index_of_id(old(self)@, toks[t].1)].state
                                == SessionLifecycle::Pending && id@ == toks[t].1
                        &&& has_id(final(self)@, id@)
                        &&& final(self)@[index_of_id(final(self)@, id@)].state
                            == SessionLifecycle::Loading
                    },
                    None => final(self)@ == old(self)@,
                }
            }),
    {
        let ghost pre = self@;
        let t = match self.find_token(token) {
            Some(t) => t,
            None => {
                return None;
            },
        };
        let ghost entry = self.tokens()[t as int];
        let (_tok, session_id) = self.token_index.remove(t);
        proof {
            assert(self.tokens() =~= old(self).tokens().remove(t as int));
            assert(self@ =~= pre);
            assert(session_id@ == entry.1);
        }
        let i = match self.find_session(session_id.as_str()) {
            Some(i) => i,
            None => {
                return None;
            },
        };
        let pending = match self.sessions[i].state {
            SessionLifecycle::Pending => true,
            _ => false,
        };
        if !pending {
            return None;
        }
        let ghost before = self@;
        self.set_state_at(i, SessionLifecycle::Loading);
        let id_out = self.sessions[i].id.clone();
        proof {
            assert(self@[i as int].id == entry.1);
            assert(has_id(self@, id_out@));
            let w = index_of_id(self@, id_out@);
            assert(self@[w].id == self@[i as int].id);
            assert(w == i);
            assert(has_id(pre, entry.1)) by {
                assert(pre[i as int].id == entry.1);
            }
            let w0 = index_of_id(pre, entry.1);
            assert(pre[w0].id == pre[i as int].id);
            assert(w0 == i);
        }
        Some(id_out)
    }

    /// Replaces the lifecycle stage of the session at an index.
    fn set_state_at(&mut self, i: usize, new_state: SessionLifecycle)
        requires
            old(self).wf(),
            i < old(self)@.len(),
        ensures
            final(self).wf(),
            final(self)@ == old(self)@.update(
                i as int,
                (SessionView { state: new_state, ..old(self)@[i as int] }),
            ),
            final(self).tokens() == old(self).tokens(),
    {
        let ghost pre = self@;
        let session = &mut self.sessions[i];

        session.state = new_state;
        proof {
            assert(self@ =~= pre.update(
                i as int,
                (SessionView { state: new_state, ..pre[i as int] }),
            ));
            assert(self.tokens() =~= old(self).tokens());
        }
    }

    /// Marks a session consumed; see [`SessionRegistry::set_state`].
    pub fn mark_consumed(&mut self, session_id: &str) -> (r: Option<SessionInfo>)
        requires
            old(self).wf(),
        ensures
            final(self).wf(),
            ({
                if has_id(old(self)@, session_id@) {
                    let i = index_of_id(old(self)@, session_id@);
                    &&& final(self)@ == old(self)@.update(
                        i,
                        (SessionView { state: SessionLifecycle::Consumed, ..old(self)@[i] }),
                    )
                    &&& (match r {
                        Some(info) => info.id@ == session_id@ && info.state
                            == SessionLifecycle::Consumed,
                        None => false,
                    })
                } else {
                    final(self)@ == old(self)@ && r is None
                }
            }),
    {
        self.set_state(session_id, SessionLifecycle::Consumed)
    }

    /// A borrowed view of the session with this id, if any.
    pub fn get(&self, session_id: &str) -> (r: Option<&Session>)
        requires
            self.wf(),
        ensures
            match r {
                Some(s) => has_id(self@, session_id@) && s@ == self@[index_of_id(
                    self@,
                    session_id@,
                )] && s@.id == session_id@,
                None => !has_id(self@, session_id@),
            },
    {
        match self.find_session(session_id) {
            Some(i) => {
                proof {
                    assert(has_id(self@, session_id@));
                    let w = index_of_id(self@, session_id@);
                    assert(self@[w].id == self@[i as int].id);
                    assert(w == i);
                }
                Some(&self.sessions[i])
            },
            None => None,
        }
    }

    /// Whether a session with this id exists.
    pub fn has_session(&self, session_id: &str) -> (r: bool)
        requires
            self.wf(),
        ensures
            r == has_id(self@, session_id@),
    {
        match self.find_session(session_id) {
            Some(_) => true,
            None => false,
        }
    }

    /// The control-plane description of the session with this id, if any.
    pub fn session_info(&self, session_id: &str) -> (r: Option<SessionInfo>)
        requires
            self.wf(),
        ensures
            ({
                match r {
                    Some(info) => {
                        &&& has_id(self@, session_id@)
                        &&& ({
                            let v = self@[index_of_id(self@, session_id@)];
                            &&& info.id@ == v.id
                            &&& info.role == v.role
                            &&& info.state == v.state
                            &&& (match info.display_name {
                                Some(ref s) => v.display_name == Some(s@),
                                None => v.display_name is None,
                            })
                        })
                    },
                    None => !has_id(self@, session_id@),
                }
            }),
    {
        let i = match self.find_session(session_id) {
            Some(i) => i,
            None => {
                return None;
            },
        };
        let s = &self.sessions[i];
        let info = SessionInfo {
            id: s.id.clone(),
            role: s.role,
            display_name: match &s.display_name {
                Some(n) => Some(n.clone()),
                None => None,
            },
            state: s.state,
        };
        proof {
            let w = index_of_id(self@, session_id@);
            assert(self@[w].id == self@[i as int].id);
            assert(w == i);
        }
        Some(info)
    }

    /// The registered sessions, in registration order.
    pub fn iter(&self) -> (r: &Vec<Session>)
        ensures
            r@.len() == self@.len(),
            forall|i: int| 0 <= i < self@.len() ==> (#[trigger] r@[i])@ == self@[i],
    {
        proof {
            assert(forall|i: int|
                0 <= i < self@.len() ==> (#[trigger] self.sessions@[i])@ == self@[i]);
        }
        &self.sessions
    }

    /// Replaces the lifecycle stage of the session with this id and reports
    /// its new description; an unknown id changes nothing.
    pub fn set_state(&mut self, session_id: &str, new_state: SessionLifecycle) -> (r: Option<
        SessionInfo,
    >)
        requires
            old(self).wf(),
        ensures
            final(self).wf(),
            ({
                if has_id(old(self)@, session_id@) {
                    let i = index_of_id(old(self)@, session_id@);
                    &&& final(self)@ == old(self)@.update(
                        i,
                        (SessionView { state: new_state, ..old(self)@[i] }),
                    )
                    &&& (match r {
                        Some(info) => info.id@ == session_id@ && info.state == new_state,
                        None => false,
                    })
                } else {
                    final(self)@ == old(self)@ && r is None
                }
            }),
    {
        let ghost pre = self@;
        let i = match self.find_session(session_id) {
            Some(i) => i,
            None => {
                return None;
            },
        };
        proof {
            let w = index_of_id(pre, session_id@);
            assert(pre[w].id == pre[i as int].id);
            assert(w == i);
        }
        self.set_state_at(i, new_state);
        proof {
            assert(self@.len() == pre.len());
            assert(self.sessions@.len() == self@.len());
            assert(self@[i as int] == self.sessions@[i as int]@);
        }
        let s = &self.sessions[i];
        let info = SessionInfo {
            id: s.id.clone(),
            role: s.role,
            display_name: match &s.display_name {
                Some(n) => Some(n.clone()),
                None => None,
            },
            state: s.state,
        };
        Some(info)
    }

    /// Registers a fresh pending session with generated id and token and
    /// reports its description together with the id and token.
    pub fn create_pending(&mut self, role: SessionRole, display_name: Option<String>) -> (r: (
        SessionInfo,
        String,
        String,
    ))
        requires
            old(self).wf(),
            old(self).serial() < u64::MAX,
        ensures
            final(self).wf(),
            r.1@ == seq!['s', 'e', 's', '_'] + dec_chars(old(self).serial() as nat),
            r.2@ == seq!['t', 'o', 'k', '_'] + dec_chars(old(self).serial() as nat),
            r.0.id@ == r.1@,
            r.0.role == role,
            r.0.state == SessionLifecycle::Pending,
            has_id(final(self)@, r.1@),
            final(self).serial() == old(self).serial() + 1,
    {
        let digits = u64_to_dec(self.next_serial);
        let mut session_id = String::new();
        proof {
            reveal_strlit("ses_");
            reveal_strlit("tok_");
        }
        session_id.append("ses_");
        session_id.append(digits.as_str());
        let mut token = String::new();
        token.append("tok_");
        token.append(digits.as_str());
        proof {
            assert(session_id@ =~= seq!['s', 'e', 's', '_'] + dec_chars(
                self.next_serial as nat,
            ));
            assert(token@ =~= seq!['t', 'o', 'k', '_'] + dec_chars(self.next_serial as nat));
        }
        self.next_serial = self.next_serial + 1;
        proof {
            assert(self@ =~= old(self)@);
            assert(self.tokens() =~= old(self).tokens());
            assert(self.wf());
        }
        let id_out = session_id.clone();
        let token_out = token.clone();
        let display_copy = match &display_name {
            Some(n) => Some(n.clone()),
            None => None,
        };
        self.insert_pending(session_id, token, role, display_name);
        let ghost i = index_of_id(self@, id_out@);
        let info = SessionInfo {
            id: id_out.clone(),
            role,
            display_name: display_copy,
            state: SessionLifecycle::Pending,
        };
        (info, id_out, token_out)
    }

    /// The serial counter that generated identifiers come from.
    pub closed spec fn serial(&self) -> u64 {
        self.next_serial
    }
}


/// Byte-wise lexicographic order on encoded strings, as the standard string
/// order compares them.
pub open spec fn bytes_lt(a: Seq<u8>, b: Seq<u8>) -> bool
    decreases a.len(),
{
    if b.len() == 0 {
        false
    } else if a.len() == 0 {
        true
    } else if a[0] < b[0] {
        true
    } else if a[0] > b[0] {
        false
    } else {
        bytes_lt(a.drop_first(), b.drop_first())
    }
}

/// Lexicographic order on session ids.
pub open spec fn id_lt(a: Seq<char>, b: Seq<char>) -> bool {
    bytes_lt(vstd::utf8::encode_utf8(a), vstd::utf8::encode_utf8(b))
}

/// Whether a session takes part in cycling: it is loading or occupied.
pub open spec fn eligible(v: SessionView) -> bool {
    v.state == SessionLifecycle::Loading || v.state == SessionLifecycle::Occupied
}

/// Some eligible session exists.
pub open spec fn has_eligible(vs: Seq<SessionView>) -> bool {
    exists|i: int| 0 <= i < vs.len() && eligible(#[trigger] vs[i])
}

/// Some eligible session has this id.
pub open spec fn eligible_id(vs: Seq<SessionView>, id: Seq<char>) -> bool {
    exists|i: int| 0 <= i < vs.len() && (#[trigger] vs[i]).id == id && eligible(vs[i])
}

/// `x` is the smallest eligible id.
pub open spec fn is_min_eligible(vs: Seq<SessionView>, x: Seq<char>) -> bool {
    &&& eligible_id(vs, x)
    &&& forall|i: int| 0 <= i < vs.len() && eligible(#[trigger] vs[i]) ==> !id_lt(vs[i].id, x)
}

/// `x` is the largest eligible id.
pub open spec fn is_max_eligible(vs: Seq<SessionView>, x: Seq<char>) -> bool {
    &&& eligible_id(vs, x)
    &&& forall|i: int| 0 <= i < vs.len() && eligible(#[trigger] vs[i]) ==> !id_lt(x, vs[i].id)
}

/// `x` is the smallest eligible id above `c`.
pub open spec fn is_succ_eligible(vs: Seq<SessionView>, c: Seq<char>, x: Seq<char>) -> bool {
    &&& eligible_id(vs, x)
    &&& id_lt(c, x)
    &&& forall|i: int|
        0 <= i < vs.len() && eligible(#[trigger] vs[i]) && id_lt(c, vs[i].id) ==> !id_lt(
            vs[i].id,
            x,
        )
}

/// `x` is the largest eligible id below `c`.
pub open spec fn is_pred_eligible(vs: Seq<SessionView>, c: Seq<char>, x: Seq<char>) -> bool {
    &&& eligible_id(vs, x)
    &&& id_lt(x, c)
    &&& forall|i: int|
        0 <= i < vs.len() && eligible(#[trigger] vs[i]) && id_lt(vs[i].id, c) ==> !id_lt(
            x,
            vs[i].id,
        )
}

/// Some eligible id lies above `c`.
pub open spec fn some_eligible_above(vs: Seq<SessionView>, c: Seq<char>) -> bool {
    exists|i: int| 0 <= i < vs.len() && eligible(#[trigger] vs[i]) && id_lt(c, vs[i].id)
}

/// Some eligible id lies below `c`.
pub open spec fn some_eligible_below(vs: Seq<SessionView>, c: Seq<char>) -> bool {
    exists|i: int| 0 <= i < vs.len() && eligible(#[trigger] vs[i]) && id_lt(vs[i].id, c)
}

/// The byte order is transitive.
proof fn lemma_bytes_lt_trans(a: Seq<u8>, b: Seq<u8>, c: Seq<u8>)
    requires
        bytes_lt(a, b),
        bytes_lt(b, c),
    ensures
        bytes_lt(a, c),
    decreases a.len(),
{
    if a.len() == 0 {
    } else {
        if a[0] < b[0] {
            if b[0] < c[0] {
            } else {
                assert(b[0] == c[0]);
            }
        } else {
            assert(a[0] == b[0]);
            if b[0] < c[0] {
            } else {
                assert(b[0] == c[0]);
                lemma_bytes_lt_trans(a.drop_first(), b.drop_first(), c.drop_first());
            }
        }
    }
}

/// The byte order is irreflexive.
proof fn lemma_bytes_lt_irrefl(a: Seq<u8>)
    ensures
        !bytes_lt(a, a),
    decreases a.len(),
{
    if a.len() > 0 {
        lemma_bytes_lt_irrefl(a.drop_first());
    }
}

/// The id order is a strict order: transitive and irreflexive.
pub proof fn lemma_id_lt_strict(a: Seq<char>, b: Seq<char>, c: Seq<char>)
    ensures
        id_lt(a, b) && id_lt(b, c) ==> id_lt(a, c),
        !id_lt(a, a),
{
    if id_lt(a, b) && id_lt(b, c) {
        lemma_bytes_lt_trans(
            vstd::utf8::encode_utf8(a),
            vstd::utf8::encode_utf8(b),
            vstd::utf8::encode_utf8(c),
        );
    }
    lemma_bytes_lt_irrefl(vstd::utf8::encode_utf8(a));
}

/// Whether `a` orders strictly before `b` in the standard string order.
fn str_lt(a: &str, b: &str) -> (r: bool)
    ensures
        r == id_lt(a@, b@),
{
    let ab = a.as_bytes();
    let bb = b.as_bytes();
    let mut i: usize = 0;
    proof {
        assert(ab@.subrange(0, ab@.len() as int) =~= ab@);
        assert(bb@.subrange(0, bb@.len() as int) =~= bb@);
    }
    loop
        invariant
            i <= ab@.len(),
            i <= bb@.len(),
            ab@ == a.spec_bytes(),
            bb@ == b.spec_bytes(),
            bytes_lt(ab@, bb@) == bytes_lt(
                ab@.subrange(i as int, ab@.len() as int),
                bb@.subrange(i as int, bb@.len() as int),
            ),
        decreases ab@.len() - i,
    {
        let ghost asub = ab@.subrange(i as int, ab@.len() as int);
        let ghost bsub = bb@.subrange(i as int, bb@.len() as int);
        if i >= bb.len() {
            proof {
                assert(bsub.len() == 0);
            }
            return false;
        }
        if i >= ab.len() {
            proof {
                assert(asub.len() == 0 && bsub.len() > 0);
            }
            return true;
        }
        proof {
            assert(asub[0] == ab@[i as int]);
            assert(bsub[0] == bb@[i as int]);
            assert(asub.drop_first() =~= ab@.subrange(i + 1, ab@.len() as int));
            assert(bsub.drop_first() =~= bb@.subrange(i + 1, bb@.len() as int));
        }
        if ab[i] < bb[i] {
            return true;
        }
        if ab[i] > bb[i] {
            return false;
        }
        i = i + 1;
    }
}

impl SessionRegistry {
    /// The index of the smallest eligible session, if any.
    fn min_eligible(&self) -> (r: Option<usize>)
        ensures
            match r {
                Some(i) => 0 <= i < self@.len() && is_min_eligible(self@, self@[i as int].id),
                None => !has_eligible(self@),
            },
    {
        self.extreme_eligible(true)
    }

    /// The index of the largest eligible session, if any.
    fn max_eligible(&self) -> (r: Option<usize>)
        ensures
            match r {
                Some(i) => 0 <= i < self@.len() && is_max_eligible(self@, self@[i as int].id),
                None => !has_eligible(self@),
            },
    {
        self.extreme_eligible(false)
    }

    /// The index of the smallest (or largest) eligible session, if any.
    fn extreme_eligible(&self, smallest: bool) -> (r: Option<usize>)
        ensures
            match r {
                Some(i) => 0 <= i < self@.len() && (if smallest {
                    is_min_eligible(self@, self@[i as int].id)
                } else {
                    is_max_eligible(self@, self@[i as int].id)
                }),
                None => !has_eligible(self@),
            },
    {
        let mut best: Option<usize> = None;
        let mut i: usize = 0;
        while i < self.sessions.len()
            invariant
                i <= self@.len(),
                self@.len() == self.sessions@.len(),
                match best {
                    Some(b) => {
                        &&& 0 <= b < i
                        &&& eligible(self@[b as int])
                        &&& forall|j: int|
                            0 <= j < i && eligible(#[trigger] self@[j]) ==> (if smallest {
                                !id_lt(self@[j].id, self@[b as int].id)
                            } else {
                                !id_lt(self@[b as int].id, self@[j].id)
                            })
                    },
                    None => forall|j: int| 0 <= j < i ==> !eligible(#[trigger] self@[j]),
                },
            decreases self@.len() - i,
        {
            proof {
                assert(self@[i as int] == self.sessions@[i as int]@);
            }
            let ok = match self.sessions[i].state {
                SessionLifecycle::Loading => true,
                SessionLifecycle::Occupied => true,
                _ => false,
            };
            if ok {
                match best {
                    None => {
                        proof {
                            lemma_id_lt_strict(
                                self@[i as int].id,
                                self@[i as int].id,
                                self@[i as int].id,
                            );
                        }
                        best = Some(i);
                    },
                    Some(b) => {
                        proof {
                            assert(self@[b as int] == self.sessions@[b as int]@);
                        }
                        let better = if smallest {
                            str_lt(self.sessions[i].id.as_str(), self.sessions[b].id.as_str())
                        } else {
                            str_lt(self.sessions[b].id.as_str(), self.sessions[i].id.as_str())
                        };
                        proof {
                            assert forall|j: int|
                                0 <= j < i + 1 && eligible(#[trigger] self@[j]) implies (if smallest {
                                !id_lt(
                                    self@[j].id,
                                    self@[(if better {
                                        i as int
                                    } else {
                                        b as int
                                    })].id,
                                )
                            } else {
                                !id_lt(
                                    self@[(if better {
                                        i as int
                                    } else {
                                        b as int
                                    })].id,
                                    self@[j].id,
                                )
                            }) by {
                                lemma_id_lt_strict(self@[j].id, self@[i as int].id, self@[b as int].id);
                                lemma_id_lt_strict(self@[j].id, self@[b as int].id, self@[i as int].id);
                                lemma_id_lt_strict(self@[i as int].id, self@[b as int].id, self@[j].id);
                                lemma_id_lt_strict(self@[b as int].id, self@[i as int].id, self@[j].id);
                                lemma_id_lt_strict(self@[b as int].id, self@[j].id, self@[i as int].id);
                                lemma_id_lt_strict(self@[i as int].id, self@[j].id, self@[b as int].id);
                            }
                        }
                        if better {
                            best = Some(i);
                        }
                    },
                }
            }
            i = i + 1;
        }
        proof {
            match best {
                Some(b) => {
                    assert(eligible_id(self@, self@[b as int].id));
                },
                None => {},
            }
        }
        best
    }

    /// The index of the smallest eligible session above `c` (or the largest
    /// below it), if any.
    fn adjacent_eligible(&self, c: &str, above: bool) -> (r: Option<usize>)
        ensures
            match r {
                Some(i) => 0 <= i < self@.len() && (if above {
                    is_succ_eligible(self@, c@, self@[i as int].id)
                } else {
                    is_pred_eligible(self@, c@, self@[i as int].id)
                }),
                None => if above {
                    !some_eligible_above(self@, c@)
                } else {
                    !some_eligible_below(self@, c@)
                },
            },
    {
        let mut best: Option<usize> = None;
        let mut i: usize = 0;
        while i < self.sessions.len()
            invariant
                i <= self@.len(),
                self@.len() == self.sessions@.len(),
                match best {
                    Some(b) => {
                        &&& 0 <= b < i
                        &&& eligible(self@[b as int])
                        &&& (if above {
                            id_lt(c@, self@[b as int].id)
                        } else {
                            id_lt(self@[b as int].id, c@)
                        })
                        &&& forall|j: int|
                            0 <= j < i && eligible(#[trigger] self@[j]) && (if above {
                                id_lt(c@, self@[j].id)
                            } else {
                                id_lt(self@[j].id, c@)
                            }) ==> (if above {
                                !id_lt(self@[j].id, self@[b as int].id)
                            } else {
                                !id_lt(self@[b as int].id, self@[j].id)
                            })
                    },
                    None => forall|j: int|
                        0 <= j < i ==> !(eligible(#[trigger] self@[j]) && (if above {
                            id_lt(c@, self@[j].id)
                        } else {
                            id_lt(self@[j].id, c@)
                        })),
                },
            decreases self@.len() - i,
        {
            proof {
                assert(self@[i as int] == self.sessions@[i as int]@);
            }
            let ok = match self.sessions[i].state {
                SessionLifecycle::Loading => true,
                SessionLifecycle::Occupied => true,
                _ => false,
            };
            let beyond = if above {
                str_lt(c, self.sessions[i].id.as_str())
            } else {
                str_lt(self.sessions[i].id.as_str(), c)
            };
            if ok && beyond {
                match best {
                    None => {
                        proof {
                            lemma_id_lt_strict(
                                self@[i as int].id,
                                self@[i as int].id,
                                self@[i as int].id,
                            );
                        }
                        best = Some(i);
                    },
                    Some(b) => {
                        proof {
                            assert(self@[b as int] == self.sessions@[b as int]@);
                        }
                        let better = if above {
                            str_lt(self.sessions[i].id.as_str(), self.sessions[b].id.as_str())
                        } else {
                            str_lt(self.sessions[b].id.as_str(), self.sessions[i].id.as_str())
                        };
                        proof {
                            assert forall|j: int|
                                0 <= j < i + 1 && eligible(#[trigger] self@[j]) && (if above {
                                id_lt(c@, self@[j].id)
                            } else {
                                id_lt(self@[j].id, c@)
                            }) implies (if above {
                                !id_lt(
                                    self@[j].id,
                                    self@[(if better {
                                        i as int
                                    } else {
                                        b as int
                                    })].id,
                                )
                            } else {
                                !id_lt(
                                    self@[(if better {
                                        i as int
                                    } else {
                                        b as int
                                    })].id,
                                    self@[j].id,
                                )
                            }) by {
                                lemma_id_lt_strict(self@[j].id, self@[i as int].id, self@[b as int].id);
                                lemma_id_lt_strict(self@[j].id, self@[b as int].id, self@[i as int].id);
                                lemma_id_lt_strict(self@[i as int].id, self@[b as int].id, self@[j].id);
                                lemma_id_lt_strict(self@[b as int].id, self@[i as int].id, self@[j].id);
                                lemma_id_lt_strict(self@[b as int].id, self@[j].id, self@[i as int].id);
                                lemma_id_lt_strict(self@[i as int].id, self@[j].id, self@[b as int].id);
                            }
                        }
                        if better {
                            best = Some(i);
                        }
                    },
                }
            }
            i = i + 1;
        }
        proof {
            match best {
                Some(b) => {
                    assert(eligible_id(self@, self@[b as int].id));
                },
                None => {},
            }
        }
        best
    }

    /// The next session to present when cycling through the loading and
    /// occupied sessions in id order. Forward from a listed session is its
    /// successor (wrapping to the smallest); from an unlisted or absent one
    /// it is the session after the smallest. Backward is symmetric: the
    /// predecessor (wrapping to the largest), or the largest outright.
    pub fn cycle_session(&self, current: Option<&str>, direction: CycleDirection) -> (r: Option<
        String,
    >)
        requires
            self.wf(),
        ensures
            !has_eligible(self@) ==> r is None,
            has_eligible(self@) ==> (match r {
                Some(id) => (match direction {
                    CycleDirection::Forward => ({
                        let from_listed = match current {
                            Some(c) => eligible_id(self@, c@),
                            None => false,
                        };
                        if from_listed {
                            let c = match current {
                                Some(c) => c@,
                                None => Seq::empty(),
                            };
                            if some_eligible_above(self@, c) {
                                is_succ_eligible(self@, c, id@)
                            } else {
                                is_min_eligible(self@, id@)
                            }
                        } else {
                            exists|m0: Seq<char>|
                                #[trigger] is_min_eligible(self@, m0) && (if some_eligible_above(
                                    self@,
                                    m0,
                                ) {
                                    is_succ_eligible(self@, m0, id@)
                                } else {
                                    id@ == m0
                                })
                        }
                    }),
                    CycleDirection::Backward => ({
                        let from_listed = match current {
                            Some(c) => eligible_id(self@, c@),
                            None => false,
                        };
                        if from_listed {
                            let c = match current {
                                Some(c) => c@,
                                None => Seq::empty(),
                            };
                            if some_eligible_below(self@, c) {
                                is_pred_eligible(self@, c, id@)
                            } else {
                                is_max_eligible(self@, id@)
                            }
                        } else {
                            is_max_eligible(self@, id@)
                        }
                    }),
                }),
                None => false,
            }),
    {
        let min = match self.min_eligible() {
            Some(i) => i,
            None => {
                return None;
            },
        };
        proof {
            assert(has_eligible(self@));
        }
        let listed = match current {
            Some(c) => match self.find_session(c) {
                Some(i) => {
                    let e = match self.sessions[i].state {
                        SessionLifecycle::Loading => true,
                        SessionLifecycle::Occupied => true,
                        _ => false,
                    };
                    proof {
                        if e {
                            assert(self@[i as int] == self.sessions@[i as int]@);
                            assert(eligible_id(self@, c@));
                        }
                    }
                    if e {
                        Some(i)
                    } else {
                        None
                    }
                },
                None => None,
            },
            None => None,
        };
        match direction {
            CycleDirection::Forward => {
                let anchor: &str = match (current, listed) {
                    (Some(c), Some(_)) => c,
                    _ => self.sessions[min].id.as_str(),
                };
                proof {
                    if listed is None {
                        assert(self@[min as int] == self.sessions@[min as int]@);
                    }
                }
                match self.adjacent_eligible(anchor, true) {
                    Some(i) => {
                        proof {
                            assert(self@[i as int] == self.sessions@[i as int]@);
                        }
                        Some(self.sessions[i].id.clone())
                    },
                    None => {
                        proof {
                            assert(self@[min as int] == self.sessions@[min as int]@);
                        }
                        Some(self.sessions[min].id.clone())
                    },
                }
            },
            CycleDirection::Backward => {
                match listed {
                    Some(_) => {
                        let c = match current {
                            Some(c) => c,
                            None => self.sessions[min].id.as_str(),
                        };
                        match self.adjacent_eligible(c, false) {
                            Some(i) => {
                                proof {
                                    assert(self@[i as int] == self.sessions@[i as int]@);
                                }
                                Some(self.sessions[i].id.clone())
                            },
                            None => {
                                let mx = match self.max_eligible() {
                                    Some(m) => m,
                                    None => min,
                                };
                                proof {
                                    assert(self@[mx as int] == self.sessions@[mx as int]@);
                                }
                                Some(self.sessions[mx].id.clone())
                            },
                        }
                    },
                    None => {
                        let mx = match self.max_eligible() {
                            Some(m) => m,
                            None => min,
                        };
                        proof {
                            assert(self@[mx as int] == self.sessions@[mx as int]@);
                        }
                        Some(self.sessions[mx].id.clone())
                    },
                }
            },
        }
    }
}

} // verus!
