//! The in-memory relational state of the service — users, sessions, lists,
//! memberships and the movie catalog — with the operations the routes need:
//! signup, login, identity check, list creation (atomic and with injected
//! per-insert storage outcomes, preserving the documented non-atomic
//! behaviour), and the sorted join that feeds the aggregator.

use vstd::prelude::*;
use crate::model::{AuthFailure, Identity, ListRow, MembershipRow, MovieRow, UserRow, opt_str_view};
use crate::session::{SessionStore, contains_token, spec_lookup};
use crate::auth::{LoginSuccess, begin_login, finish_login, resolve, spec_has_credentials};
use crate::aggregate::{ListItem, ListItemV, MyList, aggregate, items_view, lists_view, spec_aggregate};

verus! {

/// The name of the first list row with the id, if one exists.
pub open spec fn spec_list_name(lists: Seq<ListRow>, id: u64) -> Option<Seq<char>>
    decreases lists.len(),
{
    if lists.len() == 0 {
        Option::None
    } else if lists[0].id == id {
        Option::Some(lists[0].name@)
    } else {
        spec_list_name(lists.drop_first(), id)
    }
}

/// The title of the first movie row with the id, if one exists.
pub open spec fn spec_movie_title(movies: Seq<MovieRow>, id: u64) -> Option<Seq<char>>
    decreases movies.len(),
{
    if movies.len() == 0 {
        Option::None
    } else if movies[0].id == id {
        Option::Some(movies[0].title@)
    } else {
        spec_movie_title(movies.drop_first(), id)
    }
}

/// The inner join feeding the aggregator: one row per membership owned by
/// the email whose list and movie both exist, in membership order — a
/// membership referring to a missing list or movie contributes nothing, so
/// a list with no (resolvable) memberships never reaches the output.
pub open spec fn spec_join(
    mem: Seq<MembershipRow>,
    lists: Seq<ListRow>,
    movies: Seq<MovieRow>,
    email: Seq<char>,
) -> Seq<ListItemV>
    decreases mem.len(),
{
    if mem.len() == 0 {
        Seq::<ListItemV>::empty()
    } else {
        let init = spec_join(mem.drop_last(), lists, movies, email);
        let m = mem.last();
        if m.owner_email@ == email && spec_list_name(lists, m.list_id) is Some && spec_movie_title(
            movies,
            m.movie_id,
        ) is Some {
            init.push(
                ListItemV {
                    list_id: m.list_id,
                    name: spec_list_name(lists, m.list_id)->0,
                    title: spec_movie_title(movies, m.movie_id)->0,
                },
            )
        } else {
            init
        }
    }
}

/// Whether some user row carries the email.
pub open spec fn spec_has_email(users: Seq<UserRow>, email: Seq<char>) -> bool {
    exists|i: int| 0 <= i < users.len() && users[i].email@ == email
}

/// The membership rows a list creation writes: one per movie id, in input
/// order, all owned by the same email and list.
pub open spec fn memberships_of(list_id: u64, owner_email: String, ids: Seq<u64>) -> Seq<
    MembershipRow,
> {
    Seq::new(ids.len(), |k: int| MembershipRow { list_id, owner_email, movie_id: ids[k] })
}

/// The movie ids whose membership inserts succeeded, in input order:
/// `ok[k]` is the storage outcome of the k-th insert.
pub open spec fn kept_ids(ids: Seq<u64>, ok: Seq<bool>) -> Seq<u64>
    decreases ids.len(),
{
    if ids.len() == 0 {
        Seq::<u64>::empty()
    } else {
        let init = kept_ids(ids.drop_last(), ok.drop_last());
        if ok[ids.len() - 1] {
            init.push(ids.last())
        } else {
            init
        }
    }
}

/// The whole persistent state, one field per table plus the id counters
/// storage assigns from.
pub struct Db {
    pub users: Vec<UserRow>,
    pub store: SessionStore,
    pub lists: Vec<ListRow>,
    pub memberships: Vec<MembershipRow>,
    pub movies: Vec<MovieRow>,
    pub next_list_id: u64,
    pub next_movie_id: u64,
}

impl Db {
    /// Well-formedness: ids already assigned stay below the counters, list
    /// ids are strictly increasing (so unique), memberships are sorted by
    /// list id (they are only appended while their list is newest, which is
    /// what lets the join feed the aggregator sorted), and emails are
    /// unique, the users table's primary key.
    pub open spec fn wf(self) -> bool {
        &&& 1 <= self.next_list_id
        &&& 1 <= self.next_movie_id
        &&& forall|i: int| 0 <= i < self.lists@.len() ==> (#[trigger] self.lists@[i]).id
            < self.next_list_id
        &&& forall|i: int, j: int|
            0 <= i < j < self.lists@.len() ==> (#[trigger] self.lists@[i]).id < (
            #[trigger] self.lists@[j]).id
        &&& forall|i: int| 0 <= i < self.memberships@.len() ==> (
        #[trigger] self.memberships@[i]).list_id < self.next_list_id
        &&& forall|i: int, j: int|
            0 <= i < j < self.memberships@.len() ==> (#[trigger] self.memberships@[i]).list_id <= (
            #[trigger] self.memberships@[j]).list_id
        &&& forall|i: int| 0 <= i < self.movies@.len() ==> (#[trigger] self.movies@[i]).id
            < self.next_movie_id
        &&& forall|i: int, j: int|
            0 <= i < j < self.users@.len() ==> (#[trigger] self.users@[i]).email@ != (
            #[trigger] self.users@[j]).email@
    }

    /// A freshly initialised store: every table empty, ids assigned from 1
    /// upward as the storage layer does.
    pub fn new() -> (db: Db)
        ensures
            db.wf(),
            db.users@.len() == 0,
            db.store@.len() == 0,
            db.lists@.len() == 0,
            db.memberships@.len() == 0,
            db.movies@.len() == 0,
            db.next_list_id == 1,
            db.next_movie_id == 1,
    {
        Db {
            users: Vec::new(),
            store: SessionStore::new(),
            lists: Vec::new(),
            memberships: Vec::new(),
            movies: Vec::new(),
            next_list_id: 1,
            next_movie_id: 1,
        }
    }

    /// Creates a user. Succeeds exactly when the email is not yet taken
    /// (the primary key on `users`); on success the row is appended, on
    /// failure nothing changes.
    pub fn signup(&mut self, email: String, password: String) -> (r: bool)
        requires
            old(self).wf(),
        ensures
            final(self).wf(),
            r == !spec_has_email(old(self).users@, email@),
            r ==> final(self).users@ == old(self).users@.push(
                (UserRow { email, password }),
            ),
            !r ==> final(self).users@ == old(self).users@,
            final(self).store@ == old(self).store@,
            final(self).lists@ == old(self).lists@,
            final(self).memberships@ == old(self).memberships@,
            final(self).movies@ == old(self).movies@,
            final(self).next_list_id == old(self).next_list_id,
            final(self).next_movie_id == old(self).next_movie_id,
    {
        let n = self.users.len();
        let mut i: usize = 0;
        while i < n
            invariant
                self == old(self),
                old(self).wf(),
                n == self.users@.len(),
                0 <= i <= n,
                forall|j: int| 0 <= j < i ==> (#[trigger] self.users@[j]).email@ != email@,
            decreases n - i,
        {
            if self.users[i].email == email {
                return false;
            }
            i = i + 1;
        }
        self.users.push(UserRow { email, password });
        true
    }

    /// Adds a catalog movie and returns its assigned id.
    pub fn add_movie(
        &mut self,
        title: String,
        description: String,
        release_year: u64,
        genre: String,
        image_url: String,
    ) -> (r: u64)
        requires
            old(self).wf(),
            old(self).next_movie_id < u64::MAX,
        ensures
            final(self).wf(),
            r == old(self).next_movie_id,
            final(self).movies@ == old(self).movies@.push(
                (MovieRow { id: r, title, description, release_year, genre, image_url }),
            ),
            final(self).next_movie_id == r + 1,
            final(self).users@ == old(self).users@,
            final(self).store@ == old(self).store@,
            final(self).lists@ == old(self).lists@,
            final(self).memberships@ == old(self).memberships@,
            final(self).next_list_id == old(self).next_list_id,
    {
        let id = self.next_movie_id;
        self.movies.push(MovieRow { id, title, description, release_year, genre, image_url });
        self.next_movie_id = id + 1;
        id
    }

    /// Login against the in-memory state: any credential mismatch fails
    /// with the single undifferentiated `InvalidCredentials`; on a match a
    /// fresh opaque token is generated and its session row recorded before
    /// the token is released. The in-memory insert is always durable, so
    /// `SessionPersistFailure` cannot arise here; a caller persisting
    /// sessions elsewhere gates on `finish_login` instead.
    pub fn login(&mut self, email: &String, password: &String) -> (r: Result<
        LoginSuccess,
        AuthFailure,
    >)
        requires
            old(self).wf(),
        ensures
            final(self).wf(),
            r is Ok <==> spec_has_credentials(old(self).users@, email@, password@),
            (r matches Err(f) ==> f is InvalidCredentials && final(self).store@ == old(
                self,
            ).store@),
            (r matches Ok(s) ==> s.email@ == email@ && s.token@.len() == 36 && final(self).store@
                == old(self).store@.push((email@, s.token@))),
            final(self).users@ == old(self).users@,
            final(self).lists@ == old(self).lists@,
            final(self).memberships@ == old(self).memberships@,
            final(self).movies@ == old(self).movies@,
            final(self).next_list_id == old(self).next_list_id,
            final(self).next_movie_id == old(self).next_movie_id,
    {
        match begin_login(&self.users, email, password) {
            Err(f) => Err(f),
            Ok(pending) => {
                let owner = pending.email.clone();
                let token = pending.token.clone();
                self.store.insert(owner, token);
                finish_login(pending, true)
            },
        }
    }

    /// Resolves the raw `auth_token` cookie value against the live
    /// sessions; see `auth::resolve` for the exact failure semantics.
    pub fn whoami(&self, cookie: &Option<String>) -> (r: Result<Identity, AuthFailure>)
        ensures
            (r matches Err(f) && f is NoCookie) <==> opt_str_view(*cookie) is None,
            (r matches Err(f) && f is UnknownToken) <==> (opt_str_view(*cookie) matches Some(t)
                && !contains_token(self.store@, t)),
            r is Ok <==> (opt_str_view(*cookie) matches Some(t) && contains_token(self.store@, t)),
            (r matches Ok(id) ==> Option::Some(id.email@) == spec_lookup(
                self.store@,
                opt_str_view(*cookie)->0,
            )),
    {
        resolve(cookie, &self.store)
    }

    /// Creates a list owned by the identity and, in input order, one
    /// membership row per movie id, and returns the list's assigned id.
    /// Every insert into the in-memory state is durable, so this is the
    /// all-successful case of `create_list_with_outcomes`.
    pub fn create_list(
        &mut self,
        owner: &Identity,
        name: String,
        description: String,
        movie_ids: &Vec<u64>,
    ) -> (r: u64)
        requires
            old(self).wf(),
            old(self).next_list_id < u64::MAX,
        ensures
            final(self).wf(),
            r == old(self).next_list_id,
            final(self).lists@ == old(self).lists@.push(
                (ListRow { id: r, owner_email: owner.email, name, description }),
            ),
            final(self).memberships@ == old(self).memberships@ + memberships_of(
                r,
                owner.email,
                movie_ids@,
            ),
            final(self).next_list_id == r + 1,
            final(self).users@ == old(self).users@,
            final(self).store@ == old(self).store@,
            final(self).movies@ == old(self).movies@,
            final(self).next_movie_id == old(self).next_movie_id,
    {
        let list_id = self.next_list_id;
        self.lists.push(ListRow {
            id: list_id,
            owner_email: owner.email.clone(),
            name,
            description,
        });
        self.next_list_id = list_id + 1;
        let n = movie_ids.len();
        let mut k: usize = 0;
        while k < n
            invariant
                old(self).wf(),
                old(self).next_list_id < u64::MAX,
                n == movie_ids@.len(),
                0 <= k <= n,
                list_id == old(self).next_list_id,
                self.next_list_id == list_id + 1,
                self.users@ == old(self).users@,
                self.store@ == old(self).store@,
                self.movies@ == old(self).movies@,
                self.next_movie_id == old(self).next_movie_id,
                self.lists@ == old(self).lists@.push(
                    (ListRow { id: list_id, owner_email: owner.email, name, description }),
                ),
                self.memberships@ == old(self).memberships@ + memberships_of(
                    list_id,
                    owner.email,
                    movie_ids@.take(k as int),
                ),
            decreases n - k,
        {
            self.memberships.push(MembershipRow {
                list_id,
                owner_email: owner.email.clone(),
                movie_id: movie_ids[k],
            });
            proof {
                assert(movie_ids@.take(k as int + 1).drop_last() =~= movie_ids@.take(k as int));
                assert(memberships_of(list_id, owner.email, movie_ids@.take(k as int + 1))
                    =~= memberships_of(list_id, owner.email, movie_ids@.take(k as int)).push(
                    (MembershipRow { list_id, owner_email: owner.email, movie_id: movie_ids@[k as int] }),
                ));
                assert(self.memberships@ =~= old(self).memberships@ + memberships_of(
                    list_id,
                    owner.email,
                    movie_ids@.take(k as int + 1),
                ));
            }
            k = k + 1;
        }
        proof {
            assert(movie_ids@.take(n as int) =~= movie_ids@);
        }
        list_id
    }

    /// List creation against fallible membership storage, preserving the
    /// documented non-atomic behaviour: `outcomes[k]` is the storage
    /// outcome of the k-th membership insert (a failed insert leaves no
    /// row, the loop carries on, and nothing already inserted — the list
    /// row included — is ever rolled back). Returns true, "created", exactly
    /// when every insert succeeded.
    pub fn create_list_with_outcomes(
        &mut self,
        owner: &Identity,
        name: String,
        description: String,
        movie_ids: &Vec<u64>,
        outcomes: &Vec<bool>,
    ) -> (r: bool)
        requires
            old(self).wf(),
            old(self).next_list_id < u64::MAX,
            outcomes@.len() == movie_ids@.len(),
        ensures
            final(self).wf(),
            r == (forall|k: int| 0 <= k < outcomes@.len() ==> outcomes@[k]),
            final(self).lists@ == old(self).lists@.push(
                (ListRow {
                    id: old(self).next_list_id,
                    owner_email: owner.email,
                    name,
                    description,
                }),
            ),
            final(self).memberships@ == old(self).memberships@ + memberships_of(
                old(self).next_list_id,
                owner.email,
                kept_ids(movie_ids@, outcomes@),
            ),
            final(self).next_list_id == old(self).next_list_id + 1,
            final(self).users@ == old(self).users@,
            final(self).store@ == old(self).store@,
            final(self).movies@ == old(self).movies@,
            final(self).next_movie_id == old(self).next_movie_id,
    {
        let list_id = self.next_list_id;
        self.lists.push(ListRow {
            id: list_id,
            owner_email: owner.email.clone(),
            name,
            description,
        });
        self.next_list_id = list_id + 1;
        let n = movie_ids.len();
        let mut failed = false;
        let mut k: usize = 0;
        while k < n
            invariant
                old(self).wf(),
                old(self).next_list_id < u64::MAX,
                n == movie_ids@.len(),
                n == outcomes@.len(),
                0 <= k <= n,
                list_id == old(self).next_list_id,
                self.next_list_id == list_id + 1,
                self.users@ == old(self).users@,
                self.store@ == old(self).store@,
                self.movies@ == old(self).movies@,
                self.next_movie_id == old(self).next_movie_id,
                self.lists@ == old(self).lists@.push(
                    (ListRow { id: list_id, owner_email: owner.email, name, description }),
                ),
                self.memberships@ == old(self).memberships@ + memberships_of(
                    list_id,
                    owner.email,
                    kept_ids(movie_ids@.take(k as int), outcomes@.take(k as int)),
                ),
                failed == !(forall|j: int| 0 <= j < k ==> outcomes@[j]),
            decreases n - k,
        {
            proof {
                assert(movie_ids@.take(k as int + 1).drop_last() =~= movie_ids@.take(k as int));
                assert(outcomes@.take(k as int + 1).drop_last() =~= outcomes@.take(k as int));
            }
            if outcomes[k] {
                self.memberships.push(MembershipRow {
                    list_id,
                    owner_email: owner.email.clone(),
                    movie_id: movie_ids[k],
                });
                proof {
                    assert(memberships_of(
                        list_id,
                        owner.email,
                        kept_ids(movie_ids@.take(k as int + 1), outcomes@.take(k as int + 1)),
                    ) =~= memberships_of(
                        list_id,
                        owner.email,
                        kept_ids(movie_ids@.take(k as int), outcomes@.take(k as int)),
                    ).push(
                        (MembershipRow {
                            list_id,
                            owner_email: owner.email,
                            movie_id: movie_ids@[k as int],
                        }),
                    ));
                    assert(self.memberships@ =~= old(self).memberships@ + memberships_of(
                        list_id,
                        owner.email,
                        kept_ids(movie_ids@.take(k as int + 1), outcomes@.take(k as int + 1)),
                    ));
                }
            } else {
                failed = true;
                proof {
                    assert(kept_ids(movie_ids@.take(k as int + 1), outcomes@.take(k as int + 1))
                        =~= kept_ids(movie_ids@.take(k as int), outcomes@.take(k as int)));
                }
            }
            k = k + 1;
        }
        proof {
            assert(movie_ids@.take(n as int) =~= movie_ids@);
            assert(outcomes@.take(n as int) =~= outcomes@);
        }
        !failed
    }

    /// The name of the first list row with the id, if any.
    fn find_list_name(&self, id: u64) -> (r: Option<String>)
        ensures
            opt_str_view(r) == spec_list_name(self.lists@, id),
    {
        let n = self.lists.len();
        proof {
            assert(self.lists@.skip(0) =~= self.lists@);
        }
        let mut i: usize = 0;
        while i < n
            invariant
                n == self.lists@.len(),
                0 <= i <= n,
                spec_list_name(self.lists@, id) == spec_list_name(self.lists@.skip(i as int), id),
            decreases n - i,
        {
            proof {
                assert(self.lists@.skip(i as int)[0] == self.lists@[i as int]);
                assert(self.lists@.skip(i as int).drop_first() =~= self.lists@.skip(i as int + 1));
            }
            if self.lists[i].id == id {
                return Option::Some(self.lists[i].name.clone());
            }
            i = i + 1;
        }
        proof {
            assert(self.lists@.skip(n as int) =~= Seq::<ListRow>::empty());
        }
        Option::None
    }

    /// The title of the first movie row with the id, if any.
    fn find_movie_title(&self, id: u64) -> (r: Option<String>)
        ensures
            opt_str_view(r) == spec_movie_title(self.movies@, id),
    {
        let n = self.movies.len();
        proof {
            assert(self.movies@.skip(0) =~= self.movies@);
        }
        let mut i: usize = 0;
        while i < n
            invariant
                n == self.movies@.len(),
                0 <= i <= n,
                spec_movie_title(self.movies@, id) == spec_movie_title(
                    self.movies@.skip(i as int),
                    id,
                ),
            decreases n - i,
        {
            proof {
                assert(self.movies@.skip(i as int)[0] == self.movies@[i as int]);
                assert(self.movies@.skip(i as int).drop_first() =~= self.movies@.skip(
                    i as int + 1,
                ));
            }
            if self.movies[i].id == id {
                return Option::Some(self.movies[i].title.clone());
            }
            i = i + 1;
        }
        proof {
            assert(self.movies@.skip(n as int) =~= Seq::<MovieRow>::empty());
        }
        Option::None
    }

    /// All lists of the identity, as ordered summaries: the membership
    /// join — sorted by list id by construction — folded by the aggregator.
    pub fn my_lists(&self, me: &Identity) -> (out: Vec<MyList>)
        ensures
            lists_view(out@) == spec_aggregate(
                spec_join(self.memberships@, self.lists@, self.movies@, me.email@),
            ),
    {
        let mut rows: Vec<ListItem> = Vec::new();
        let n = self.memberships.len();
        let mut i: usize = 0;
        while i < n
            invariant
                n == self.memberships@.len(),
                0 <= i <= n,
                items_view(rows@) == spec_join(
                    self.memberships@.take(i as int),
                    self.lists@,
                    self.movies@,
                    me.email@,
                ),
            decreases n - i,
        {
            proof {
                assert(self.memberships@.take(i as int + 1).drop_last() =~= self.memberships@.take(
                    i as int,
                ));
                assert(self.memberships@.take(i as int + 1).last() == self.memberships@[i as int]);
            }
            let m = &self.memberships[i];
            if m.owner_email == me.email {
                match self.find_list_name(m.list_id) {
                    Option::Some(name) => {
                        match self.find_movie_title(m.movie_id) {
                            Option::Some(title) => {
                                let ghost before = rows@;
                                rows.push(ListItem { list_id: m.list_id, name, title });
                                proof {
                                    assert(items_view(rows@) =~= items_view(before).push(
                                        rows@.last()@,
                                    ));
                                }
                            },
                            Option::None => {},
                        }
                    },
                    Option::None => {},
                }
            }
            i = i + 1;
        }
        proof {
            assert(self.memberships@.take(n as int) =~= self.memberships@);
        }
        aggregate(&rows)
    }

    /// The full user table, as the catalog listing endpoint reports it.
    pub fn all_users(&self) -> (r: &Vec<UserRow>)
        ensures
            r@ == self.users@,
    {
        &self.users
    }
}

/// Whether the join rows are sorted by list id — the precondition under
/// which aggregation is per-list grouping.
pub open spec fn sorted_by_list_id(rows: Seq<ListItemV>) -> bool {
    forall|i: int, j: int|
        0 <= i < j < rows.len() ==> (#[trigger] rows[i]).list_id <= (#[trigger] rows[j]).list_id
}

/// Every join row's list id is bounded by any bound on the memberships'.
proof fn lemma_join_ids_bounded(
    mem: Seq<MembershipRow>,
    lists: Seq<ListRow>,
    movies: Seq<MovieRow>,
    email: Seq<char>,
    bound: u64,
)
    requires
        forall|i: int| 0 <= i < mem.len() ==> (#[trigger] mem[i]).list_id <= bound,
    ensures
        forall|k: int|
            0 <= k < spec_join(mem, lists, movies, email).len() ==> (#[trigger] spec_join(
                mem,
                lists,
                movies,
                email,
            )[k]).list_id <= bound,
    decreases mem.len(),
{
    if mem.len() > 0 {
        assert(forall|i: int|
            0 <= i < mem.drop_last().len() ==> (#[trigger] mem.drop_last()[i]).list_id <= bound);
        lemma_join_ids_bounded(mem.drop_last(), lists, movies, email, bound);
        assert(mem.last() == mem[mem.len() - 1]);
        let init = spec_join(mem.drop_last(), lists, movies, email);
        let whole = spec_join(mem, lists, movies, email);
        assert forall|k: int| 0 <= k < whole.len() implies (#[trigger] whole[k]).list_id
            <= bound by {
            if k < init.len() {
                assert(whole[k] == init[k]);
            } else {
                assert(whole[k].list_id == mem.last().list_id);
            }
        }
    }
}

/// The list service hands the aggregator sorted input: memberships sorted
/// by list id — the well-formedness invariant — join into rows sorted by
/// list id.
pub proof fn lemma_join_sorted(
    mem: Seq<MembershipRow>,
    lists: Seq<ListRow>,
    movies: Seq<MovieRow>,
    email: Seq<char>,
)
    requires
        forall|i: int, j: int|
            0 <= i < j < mem.len() ==> (#[trigger] mem[i]).list_id <= (#[trigger] mem[j]).list_id,
    ensures
        sorted_by_list_id(spec_join(mem, lists, movies, email)),
    decreases mem.len(),
{
    if mem.len() > 0 {
        let init = spec_join(mem.drop_last(), lists, movies, email);
        assert(forall|i: int, j: int|
            0 <= i < j < mem.drop_last().len() ==> (#[trigger] mem.drop_last()[i]).list_id <= (
            #[trigger] mem.drop_last()[j]).list_id);
        lemma_join_sorted(mem.drop_last(), lists, movies, email);
        assert(mem.last() == mem[mem.len() - 1]);
        assert(forall|i: int|
            0 <= i < mem.drop_last().len() ==> (#[trigger] mem.drop_last()[i]).list_id
                <= mem.last().list_id);
        lemma_join_ids_bounded(mem.drop_last(), lists, movies, email, mem.last().list_id);
    }
}

} // verus!
