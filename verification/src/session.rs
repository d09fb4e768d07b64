//! The session store: a persistent mapping from opaque session tokens to
//! the emails that own them. Pure storage; lookup scans sessions in
//! insertion order and returns the first row holding the token.

use vstd::prelude::*;
use crate::model::SessionRow;

verus! {

/// First-match lookup of a token in a sequence of (owner email, token)
/// pairs, the mathematical model of the store.
pub open spec fn spec_lookup(
    s: Seq<(Seq<char>, Seq<char>)>,
    token: Seq<char>,
) -> Option<Seq<char>>
    decreases s.len(),
{
    if s.len() == 0 {
        Option::None
    } else if s[0].1 == token {
        Option::Some(s[0].0)
    } else {
        spec_lookup(s.drop_first(), token)
    }
}

/// Whether some session in the store holds the token.
pub open spec fn contains_token(s: Seq<(Seq<char>, Seq<char>)>, token: Seq<char>) -> bool {
    spec_lookup(s, token) is Some
}

/// The store of all live sessions, in insertion order. Sessions are never
/// expired or revoked; a user may own several at once.
pub struct SessionStore {
    sessions: Vec<SessionRow>,
}

impl View for SessionStore {
    type V = Seq<(Seq<char>, Seq<char>)>;

    closed spec fn view(&self) -> Seq<(Seq<char>, Seq<char>)> {
        self.sessions@.map_values(|r: SessionRow| (r.owner_email@, r.token@))
    }
}

impl SessionStore {
    /// An empty store: no token resolves.
    pub fn new() -> (s: SessionStore)
        ensures
            s@ == Seq::<(Seq<char>, Seq<char>)>::empty(),
    {
        let s = SessionStore { sessions: Vec::new() };
        proof {
            assert(s@ =~= Seq::<(Seq<char>, Seq<char>)>::empty());
        }
        s
    }

    /// Records a new session at the end of the store.
    pub fn insert(&mut self, owner_email: String, token: String)
        ensures
            final(self)@ == old(self)@.push((owner_email@, token@)),
    {
        let ghost prior = self@;
        self.sessions.push(SessionRow { owner_email, token });
        proof {
            assert(final(self)@ =~= prior.push(
                (final(self).sessions@.last().owner_email@, final(self).sessions@.last().token@),
            ));
        }
    }

    /// Returns the owning email of the first session holding the token, if
    /// any session does.
    pub fn lookup(&self, token: &String) -> (r: Option<String>)
        ensures
            opt_owner_view(r) == spec_lookup(self@, token@),
    {
        let n = self.sessions.len();
        proof {
            assert(self@.skip(0) =~= self@);
        }
        let mut i: usize = 0;
        while i < n
            invariant
                n == self.sessions@.len(),
                0 <= i <= n,
                spec_lookup(self@, token@) == spec_lookup(self@.skip(i as int), token@),
            decreases n - i,
        {
            proof {
                assert(self@.skip(i as int)[0] == self@[i as int]);
                assert(self@.skip(i as int).drop_first() =~= self@.skip(i as int + 1));
            }
            if self.sessions[i].token == *token {
                return Option::Some(self.sessions[i].owner_email.clone());
            }
            i = i + 1;
        }
        proof {
            assert(self@.skip(n as int) =~= Seq::<(Seq<char>, Seq<char>)>::empty());
        }
        Option::None
    }
}

/// The view of an optional owning email returned by `lookup`.
pub open spec fn opt_owner_view(r: Option<String>) -> Option<Seq<char>> {
    match r {
        Option::None => Option::None,
        Option::Some(e) => Option::Some(e@),
    }
}

/// A token that no existing session holds resolves, once a session for it
/// is recorded, to exactly the email that session was recorded with: the
/// round trip behind every fresh login.
pub proof fn lemma_fresh_token_resolves(
    s: Seq<(Seq<char>, Seq<char>)>,
    email: Seq<char>,
    token: Seq<char>,
)
    requires
        !contains_token(s, token),
    ensures
        spec_lookup(s.push((email, token)), token) == Option::Some(email),
    decreases s.len(),
{
    if s.len() == 0 {
        assert(s.push((email, token))[0] == (email, token));
    } else {
        assert(s.push((email, token))[0] == s[0]);
        assert(s.push((email, token)).drop_first() =~= s.drop_first().push((email, token)));
        lemma_fresh_token_resolves(s.drop_first(), email, token);
    }
}

/// A successful lookup never invents an identity: the email it returns is
/// the owner of some session that holds exactly the presented token.
pub proof fn lemma_lookup_finds_session(s: Seq<(Seq<char>, Seq<char>)>, token: Seq<char>)
    ensures
        (spec_lookup(s, token) matches Option::Some(email) ==> exists|i: int|
            0 <= i < s.len() && s[i] == (email, token)),
    decreases s.len(),
{
    if s.len() > 0 {
        if s[0].1 == token {
            assert(s[0] == (s[0].0, token));
        } else {
            lemma_lookup_finds_session(s.drop_first(), token);
            if spec_lookup(s, token) is Some {
                let email = spec_lookup(s, token)->0;
                let j = choose|j: int|
                    0 <= j < s.drop_first().len() && s.drop_first()[j] == (email, token);
                assert(s[j + 1] == (email, token));
            }
        }
    }
}

} // verus!
