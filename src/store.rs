use vstd::prelude::*;

use crate::auth::{
    alphanumeric, grants, key_value, printable, random_key_text, required, valid_key_text,
    Desc, EnsureAuthError, GenError, Key, Op, KEY_LEN,
};
use crate::config::Root;
use crate::index::{OrderedIndex, Searched};
use crate::project::{self, db_repr_of, project_of, to_db_repr_result, DbRepr, Project};
use crate::table::Table;
use crate::user::{self, db_value_of, user_of, DbValue, User};
use crate::username::{name_key, Username};

verus! {

/// What an add did: the record was there already, or it was added and the
/// search mirror is to receive the given document.
#[derive(Clone, Debug, PartialEq, Eq)]
pub enum Outcome<D> {
    Existed,
    Added(D),
}

impl<D> Outcome<D> {
    /// Whether the store already held the record, so that nothing changed.
    pub fn existed(&self) -> (r: bool)
        ensures
            r == (self is Existed),
    {
        match self {
            Outcome::Existed => true,
            Outcome::Added(_) => false,
        }
    }
}

/// The operation during which a storage failure happened, for the error channel.
#[derive(Clone, Copy, Debug, PartialEq, Eq, Structural)]
pub enum BindbErrorOp {
    AddUser,
    UserByName,
    SearchUsers,
    RemoveUserByName,
    GenAuth,
    AddProject,
}

/// The access key a caller presented, as text.
pub open spec fn key_view(k: Option<&Key>) -> Option<Seq<char>> {
    match k {
        Some(k) => Some(k@),
        None => None,
    }
}

/// The authorization verdict on `op` for a caller presenting `key`, under `config` and
/// the permission index `perms`.
pub open spec fn auth_outcome(
    config: Root,
    perms: Map<u128, Desc>,
    op: Op,
    key: Option<Seq<char>>,
) -> Result<(), EnsureAuthError> {
    if !required(config.require_auth, op) {
        Ok(())
    } else {
        match key {
            None => Err(EnsureAuthError::Required),
            Some(k) => if !perms.contains_key(key_value(k)) {
                Err(EnsureAuthError::Invalid)
            } else if !grants(perms[key_value(k)], op) {
                Err(EnsureAuthError::NotAllowed)
            } else {
                Ok(())
            },
        }
    }
}

/// The users that search hits name, in hit order, skipping identifiers that no
/// stored user has.
pub open spec fn resolve_hits(by_id: Map<u64, DbValue>, ids: Seq<u64>) -> Seq<User>
    decreases ids.len(),
{
    if ids.len() == 0 {
        Seq::empty()
    } else {
        let prev = resolve_hits(by_id, ids.drop_last());
        if by_id.contains_key(ids.last()) {
            prev.push(user_of(by_id[ids.last()]))
        } else {
            prev
        }
    }
}

/// What `add_user` returns and leaves, from store `s0`, for a caller presenting
/// `key`: the authorization refusal; `Existed` with nothing changed when the name is
/// stored; else the user filed under its name key at a fresh heap identifier,
/// with the mirror document for it.
pub open spec fn add_user_post(
    s0: Store,
    key: Option<Seq<char>>,
    data: User,
    r: Result<Outcome<user::MeiliDoc>, user::AddError>,
    s1: Store,
) -> bool {
    let a = s0.auth_result(Op::Write, key);
    let k = name_key(data.name@);
    if a is Err {
        r == Err::<Outcome<user::MeiliDoc>, user::AddError>(
            user::AddError::Auth(a->Err_0),
        ) && s1 == s0
    } else if s0.users().contains_key(k) {
        r == Ok::<Outcome<user::MeiliDoc>, user::AddError>(Outcome::Existed)
            && s1 == s0
    } else {
        &&& r is Ok && r->Ok_0 is Added
        &&& r->Ok_0->Added_0.status == data.status
        &&& r->Ok_0->Added_0.bio == data.bio
        &&& !s0.user_ids().contains_key(r->Ok_0->Added_0.id)
        &&& s1.users() == s0.users().insert(k, db_value_of(data))
        &&& s1.user_ids() == s0.user_ids().insert(
            r->Ok_0->Added_0.id,
            db_value_of(data),
        )
        &&& s1.user_index() == s0.user_index().insert(k, r->Ok_0->Added_0.id)
        &&& s1.config() == s0.config()
        &&& s1.permissions() == s0.permissions()
        &&& s1.projects() == s0.projects()
        &&& s1.project_ids() == s0.project_ids()
        &&& s1.project_index() == s0.project_index()
    }
}

/// What `user_by_name` returns.
pub open spec fn user_by_name_result(s: Store, key: Option<Seq<char>>, name: Seq<char>) -> Result<
    User,
    user::GetByNameError,
> {
    let a = s.auth_result(Op::Read, key);
    let k = name_key(name);
    if a is Err {
        Err(user::GetByNameError::Auth(a->Err_0))
    } else if s.users().contains_key(k) {
        Ok(user_of(s.users()[k]))
    } else {
        Err(user::GetByNameError::NotFound)
    }
}

/// What `remove_user_by_name` returns and leaves: the authorization refusal; `true`
/// with nothing changed when the name is not stored; else `false` with the name
/// gone from the index and its record gone from the heap (the search mirror is
/// not told).
pub open spec fn remove_user_post(
    s0: Store,
    key: Option<Seq<char>>,
    name: Seq<char>,
    r: Result<bool, user::RemoveByNameError>,
    s1: Store,
) -> bool {
    let a = s0.auth_result(Op::Remove, key);
    let k = name_key(name);
    if a is Err {
        r == Err::<bool, user::RemoveByNameError>(
            user::RemoveByNameError::Auth(a->Err_0),
        ) && s1 == s0
    } else if !s0.users().contains_key(k) {
        r == Ok::<bool, user::RemoveByNameError>(true) && s1 == s0
    } else {
        &&& r == Ok::<bool, user::RemoveByNameError>(false)
        &&& s1.users() == s0.users().remove(k)
        &&& s0.user_index().contains_key(k)
        &&& s1.user_index() == s0.user_index().remove(k)
        &&& s1.user_ids() == s0.user_ids().remove(s0.user_index()[k])
        &&& s1.project_index() == s0.project_index()
        &&& s1.config() == s0.config()
        &&& s1.permissions() == s0.permissions()
        &&& s1.projects() == s0.projects()
        &&& s1.project_ids() == s0.project_ids()
    }
}

/// What `add_project` returns and leaves: the authorization refusal; a text that does
/// not fit, with nothing changed; `Existed` with nothing changed when the id is
/// stored; else the project filed under its id, with the mirror document for it.
pub open spec fn add_project_post(
    s0: Store,
    key: Option<Seq<char>>,
    value: Project,
    r: Result<Outcome<project::MeiliDoc>, project::AddError>,
    s1: Store,
) -> bool {
    let a = s0.auth_result(Op::Write, key);
    let enc = to_db_repr_result(value);
    let k = value.id as u128;
    if a is Err {
        r == Err::<Outcome<project::MeiliDoc>, project::AddError>(
            project::AddError::Auth(a->Err_0),
        ) && s1 == s0
    } else if enc is Err {
        r == Err::<Outcome<project::MeiliDoc>, project::AddError>(
            project::AddError::BadInput(enc->Err_0),
        ) && s1 == s0
    } else if s0.projects().contains_key(k) {
        r == Ok::<Outcome<project::MeiliDoc>, project::AddError>(Outcome::Existed)
            && s1 == s0
    } else {
        &&& r is Ok && r->Ok_0 is Added
        &&& r->Ok_0->Added_0.title == value.title
        &&& r->Ok_0->Added_0.description == value.description
        &&& r->Ok_0->Added_0.instructions == value.instructions
        &&& !s0.project_ids().contains_key(r->Ok_0->Added_0.id)
        &&& s1.projects() == s0.projects().insert(k, db_repr_of(value))
        &&& s1.project_ids() == s0.project_ids().insert(
            r->Ok_0->Added_0.id,
            db_repr_of(value),
        )
        &&& s1.project_index() == s0.project_index().insert(k, r->Ok_0->Added_0.id)
        &&& s1.config() == s0.config()
        &&& s1.permissions() == s0.permissions()
        &&& s1.users() == s0.users()
        &&& s1.user_ids() == s0.user_ids()
        &&& s1.user_index() == s0.user_index()
    }
}

/// The record store: the permission index, and users and projects each in a heap
/// with an ordered index (users by name key, projects by id).
pub struct Store {
    config: Root,
    auth: OrderedIndex<Desc>,
    users: Table<DbValue>,
    projects: Table<DbRepr>,
}

impl Store {
    pub closed spec fn wf(&self) -> bool {
        self.auth.wf() && self.users.wf() && self.projects.wf()
    }

    /// The configuration.
    pub closed spec fn config(&self) -> Root {
        self.config
    }

    /// The permission index: access key value to descriptor.
    pub closed spec fn permissions(&self) -> Map<u128, Desc> {
        self.auth@
    }

    /// The stored users by name key.
    pub closed spec fn users(&self) -> Map<u128, DbValue> {
        self.users@
    }

    /// The stored users by heap identifier.
    pub closed spec fn user_ids(&self) -> Map<u64, DbValue> {
        self.users.by_id()
    }

    /// The user name index: name key to heap identifier.
    pub closed spec fn user_index(&self) -> Map<u128, u64> {
        self.users.index_map()
    }

    /// The project id index: id to heap identifier.
    pub closed spec fn project_index(&self) -> Map<u128, u64> {
        self.projects.index_map()
    }

    /// The stored projects by id.
    pub closed spec fn projects(&self) -> Map<u128, DbRepr> {
        self.projects@
    }

    /// The stored projects by heap identifier.
    pub closed spec fn project_ids(&self) -> Map<u64, DbRepr> {
        self.projects.by_id()
    }

    /// The authorization verdict on `op` for a caller presenting `key`.
    pub open spec fn auth_result(&self, op: Op, key: Option<Seq<char>>) -> Result<(), EnsureAuthError> {
        auth_outcome(self.config(), self.permissions(), op, key)
    }

    /// An empty store.
    pub fn new(config: Root) -> (r: Store)
        ensures
            r.wf(),
            r.config() == config,
            r.permissions() == Map::<u128, Desc>::empty(),
            r.users() == Map::<u128, DbValue>::empty(),
            r.user_ids() == Map::<u64, DbValue>::empty(),
            r.projects() == Map::<u128, DbRepr>::empty(),
            r.project_ids() == Map::<u64, DbRepr>::empty(),
    {
        Store { config, auth: OrderedIndex::new(), users: Table::new(), projects: Table::new() }
    }

    /// The descriptor filed under an access key, if it is known.
    pub fn auth_desc_by_key(&self, key: &Key) -> (r: Option<Desc>)
        requires
            self.wf(),
        ensures
            r == (if self.permissions().contains_key(key_value(key@)) {
                Some(self.permissions()[key_value(key@)])
            } else {
                None
            }),
    {
        self.auth.get(key.index_key())
    }

    /// Checks that a caller presenting `key` may perform `op`.
    pub fn ensure_auth(&self, op: Op, key: Option<&Key>) -> (r: Result<(), EnsureAuthError>)
        requires
            self.wf(),
        ensures
            r == self.auth_result(op, key_view(key)),
    {
        let require = match op {
            Op::Read => self.config.require_auth.read,
            Op::Write => self.config.require_auth.write,
            Op::Remove => self.config.require_auth.remove,
        };
        if require {
            match key {
                None => Err(EnsureAuthError::Required),
                Some(k) => match self.auth_desc_by_key(k) {
                    None => Err(EnsureAuthError::Invalid),
                    Some(desc) => if desc.is_op_allowed(op) {
                        Ok(())
                    } else {
                        Err(EnsureAuthError::NotAllowed)
                    },
                },
            }
        } else {
            Ok(())
        }
    }

    /// Files `key` with the permissions `desc`. A key that is filed already is
    /// not replaced: that is an internal failure.
    pub fn issue_key(&mut self, key: Key, desc: Desc) -> (r: Result<Key, GenError>)
        requires
            old(self).wf(),
        ensures
            final(self).wf(),
            old(self).permissions().contains_key(key_value(key@)) ==> r == Err::<Key, GenError>(
                GenError::Internal,
            ) && *final(self) == *old(self),
            !old(self).permissions().contains_key(key_value(key@)) ==> r is Ok && r->Ok_0@
                == key@ && final(self).permissions() == old(self).permissions().insert(
                key_value(key@),
                desc,
            ) && final(self).config() == old(self).config() && final(self).users()
                == old(self).users() && final(self).user_ids() == old(self).user_ids()
                && final(self).projects() == old(self).projects() && final(self).project_ids()
                == old(self).project_ids() && final(self).user_index() == old(self).user_index()
                && final(self).project_index() == old(self).project_index(),
    {
        let k = key.index_key();
        match self.auth.search(k) {
            Searched::Found(_) => Err(GenError::Internal),
            Searched::Vacant(i) => {
                self.auth.insert_at(i, k, desc);
                Ok(key)
            },
        }
    }

    /// Issues a fresh random access key with the permissions `desc`. A collision
    /// with a key already filed is reported as an internal failure.
    pub fn gen_auth(&mut self, desc: &Desc) -> (r: Result<Key, GenError>)
        requires
            old(self).wf(),
        ensures
            final(self).wf(),
            r is Err ==> *final(self) == *old(self),
            r is Err ==> exists|t: Seq<char>|
                #![trigger key_value(t)]
                t.len() == KEY_LEN && (forall|i: int| 0 <= i < t.len() ==> alphanumeric(#[trigger] t[i]))
                    && old(self).permissions().contains_key(key_value(t)),
            r is Ok ==> ({
                let k = r->Ok_0@;
                &&& valid_key_text(k)
                &&& forall|i: int| 0 <= i < k.len() ==> alphanumeric(#[trigger] k[i])
                &&& !old(self).permissions().contains_key(key_value(k))
                &&& final(self).permissions() == old(self).permissions().insert(
                    key_value(k),
                    *desc,
                )
                &&& final(self).config() == old(self).config()
                &&& final(self).users() == old(self).users()
                &&& final(self).user_ids() == old(self).user_ids()
                &&& final(self).projects() == old(self).projects()
                &&& final(self).project_ids() == old(self).project_ids()
                &&& final(self).user_index() == old(self).user_index()
                &&& final(self).project_index() == old(self).project_index()
            }),
    {
        let text = random_key_text();
        let ghost t = text@;
        assert forall|i: int| 0 <= i < text@.len() implies printable(#[trigger] text@[i]) by {
            assert(alphanumeric(text@[i]));
        }
        let key = Key::from_text(text);
        let r = self.issue_key(key, *desc);
        assert(r is Err ==> old(self).permissions().contains_key(key_value(t)));
        r
    }

    /// Adds a user unless one with the same name is stored. Needs write permission.
    /// On success the search mirror is to receive the returned document.
    pub fn add_user(&mut self, auth_key: Option<&Key>, data: User) -> (r: Result<
        Outcome<user::MeiliDoc>,
        user::AddError,
    >)
        requires
            old(self).wf(),
        ensures
            final(self).wf(),
            add_user_post(*old(self), key_view(auth_key), data, r, *final(self)),
    {
        if let Err(e) = self.ensure_auth(Op::Write, auth_key) {
            return Err(user::AddError::Auth(e));
        }
        let k = data.name.key();
        match self.users.search(k) {
            Searched::Found(_) => Ok(Outcome::Existed),
            Searched::Vacant(i) => {
                let status = data.status.clone();
                let bio = data.bio.clone();
                let rec = data.to_db_value();
                let id = self.users.insert_at(i, k, rec);
                Ok(Outcome::Added(user::MeiliDoc { id, status, bio }))
            },
        }
    }

    /// The user stored under `name`. Needs read permission.
    pub fn user_by_name(&self, auth_key: Option<&Key>, name: &Username) -> (r: Result<
        User,
        user::GetByNameError,
    >)
        requires
            self.wf(),
        ensures
            r == user_by_name_result(*self, key_view(auth_key), name@),
    {
        if let Err(e) = self.ensure_auth(Op::Read, auth_key) {
            return Err(user::GetByNameError::Auth(e));
        }
        match self.users.get(name.key()) {
            Some(v) => Ok(v.to_user()),
            None => Err(user::GetByNameError::NotFound),
        }
    }

    /// The users that the search mirror's hits name, in hit order; hits that name
    /// no stored user (the mirror is not told of removals) are skipped. Needs read
    /// permission.
    pub fn search_users(&self, auth_key: Option<&Key>, hits: &Vec<u64>) -> (r: Result<
        Vec<User>,
        user::SearchError,
    >)
        requires
            self.wf(),
        ensures
            ({
                let a = self.auth_result(Op::Read, key_view(auth_key));
                if a is Err {
                    r == Err::<Vec<User>, user::SearchError>(user::SearchError::Auth(a->Err_0))
                } else {
                    r is Ok && r->Ok_0@ == resolve_hits(self.user_ids(), hits@)
                }
            }),
    {
        if let Err(e) = self.ensure_auth(Op::Read, auth_key) {
            return Err(user::SearchError::Auth(e));
        }
        let mut out: Vec<User> = Vec::new();
        let mut i: usize = 0;
        while i < hits.len()
            invariant
                self.wf(),
                i <= hits@.len(),
                out@ == resolve_hits(self.user_ids(), hits@.subrange(0, i as int)),
            decreases hits@.len() - i,
        {
            assert(hits@.subrange(0, i + 1).drop_last() =~= hits@.subrange(0, i as int));
            match self.users.get_by_id(hits[i]) {
                Some(v) => {
                    out.push(v.to_user());
                },
                None => {},
            }
            i = i + 1;
        }
        assert(hits@.subrange(0, hits@.len() as int) =~= hits@);
        Ok(out)
    }

    /// Removes the user stored under `name`. Returns `true` when there was none,
    /// so that nothing changed. Needs remove permission. The search mirror keeps
    /// its document.
    pub fn remove_user_by_name(&mut self, auth_key: Option<&Key>, name: &Username) -> (r: Result<
        bool,
        user::RemoveByNameError,
    >)
        requires
            old(self).wf(),
        ensures
            final(self).wf(),
            remove_user_post(*old(self), key_view(auth_key), name@, r, *final(self)),
    {
        if let Err(e) = self.ensure_auth(Op::Remove, auth_key) {
            return Err(user::RemoveByNameError::Auth(e));
        }
        match self.users.search(name.key()) {
            Searched::Found(i) => {
                self.users.remove_at(i);
                Ok(false)
            },
            Searched::Vacant(_) => Ok(true),
        }
    }

    /// Adds a project unless one with the same id is stored. Needs write
    /// permission; a text too long for its length prefix is refused before
    /// anything changes. On success the search mirror is to receive the returned
    /// document.
    pub fn add_project(&mut self, auth_key: Option<&Key>, value: Project) -> (r: Result<
        Outcome<project::MeiliDoc>,
        project::AddError,
    >)
        requires
            old(self).wf(),
        ensures
            final(self).wf(),
            add_project_post(*old(self), key_view(auth_key), value, r, *final(self)),
    {
        if let Err(e) = self.ensure_auth(Op::Write, auth_key) {
            return Err(project::AddError::Auth(e));
        }
        let k = value.id as u128;
        let title = value.title.clone();
        let description = value.description.clone();
        let instructions = value.instructions.clone();
        let repr = match value.to_db_repr() {
            Ok(repr) => repr,
            Err(e) => {
                return Err(project::AddError::BadInput(e));
            },
        };
        match self.projects.search(k) {
            Searched::Found(_) => Ok(Outcome::Existed),
            Searched::Vacant(i) => {
                let id = self.projects.insert_at(i, k, repr);
                Ok(Outcome::Added(project::MeiliDoc { id, title, description, instructions }))
            },
        }
    }

    /// The project stored under `id`. Needs read permission.
    pub fn project_by_id(&self, auth_key: Option<&Key>, id: &u64) -> (r: Result<
        Project,
        project::GetByIdError,
    >)
        requires
            self.wf(),
        ensures
            ({
                let a = self.auth_result(Op::Read, key_view(auth_key));
                let k = *id as u128;
                if a is Err {
                    r == Err::<Project, project::GetByIdError>(
                        project::GetByIdError::Auth(a->Err_0),
                    )
                } else if self.projects().contains_key(k) {
                    r == Ok::<Project, project::GetByIdError>(project_of(self.projects()[k]))
                } else {
                    r == Err::<Project, project::GetByIdError>(project::GetByIdError::NotFound)
                }
            }),
    {
        if let Err(e) = self.ensure_auth(Op::Read, auth_key) {
            return Err(project::GetByIdError::Auth(e));
        }
        match self.projects.get(*id as u128) {
            Some(v) => Ok(v.to_project()),
            None => Err(project::GetByIdError::NotFound),
        }
    }
}

/// Adding a user, then adding a user of the same name again: the first add
/// stores the first submission, the second finds it, changes nothing and
/// discards its own payload.
pub proof fn lemma_add_user_idempotent(
    s0: Store,
    s1: Store,
    s2: Store,
    key: Option<Seq<char>>,
    e1: User,
    e2: User,
    r1: Result<Outcome<user::MeiliDoc>, user::AddError>,
    r2: Result<Outcome<user::MeiliDoc>, user::AddError>,
)
    requires
        s0.auth_result(Op::Write, key) is Ok,
        !s0.users().contains_key(name_key(e1.name@)),
        e2.name@ == e1.name@,
        add_user_post(s0, key, e1, r1, s1),
        add_user_post(s1, key, e2, r2, s2),
    ensures
        r1 is Ok && r1->Ok_0 is Added,
        r2 == Ok::<Outcome<user::MeiliDoc>, user::AddError>(Outcome::Existed),
        s2 == s1,
        s2.users().contains_key(name_key(e1.name@)),
        s2.users()[name_key(e1.name@)] == db_value_of(e1),
{
    assert(s1.users().contains_key(name_key(e1.name@)));
}

/// After a user is added, removing it reports a change and takes its record out
/// of the heap, a lookup then finds nothing, and removing it again reports that
/// nothing was there.
pub proof fn lemma_remove_then_lookup(
    s0: Store,
    s1: Store,
    s2: Store,
    s3: Store,
    key: Option<Seq<char>>,
    e: User,
    r1: Result<Outcome<user::MeiliDoc>, user::AddError>,
    r2: Result<bool, user::RemoveByNameError>,
    r3: Result<bool, user::RemoveByNameError>,
)
    requires
        s0.auth_result(Op::Write, key) is Ok,
        s0.auth_result(Op::Remove, key) is Ok,
        s0.auth_result(Op::Read, key) is Ok,
        add_user_post(s0, key, e, r1, s1),
        remove_user_post(s1, key, e.name@, r2, s2),
        remove_user_post(s2, key, e.name@, r3, s3),
    ensures
        r2 == Ok::<bool, user::RemoveByNameError>(false),
        user_by_name_result(s2, key, e.name@) == Err::<User, user::GetByNameError>(
            user::GetByNameError::NotFound,
        ),
        r3 == Ok::<bool, user::RemoveByNameError>(true),
        r1 is Ok && r1->Ok_0 is Added ==> !s2.user_ids().contains_key(r1->Ok_0->Added_0.id),
{
    assert(s1.users().contains_key(name_key(e.name@)));
    assert(!s2.users().contains_key(name_key(e.name@)));
}

/// With write access required, an add without a credential is refused as
/// `Required`, with an unknown one as `Invalid`, with one lacking the write
/// permission as `NotAllowed`, and with one granting it goes ahead.
pub proof fn lemma_write_gating(
    s0: Store,
    s1: Store,
    key: Option<Seq<char>>,
    e: User,
    r: Result<Outcome<user::MeiliDoc>, user::AddError>,
)
    requires
        s0.config().require_auth.write,
        add_user_post(s0, key, e, r, s1),
    ensures
        key is None ==> r == Err::<Outcome<user::MeiliDoc>, user::AddError>(
            user::AddError::Auth(EnsureAuthError::Required),
        ),
        key is Some && !s0.permissions().contains_key(key_value(key->Some_0)) ==> r == Err::<
            Outcome<user::MeiliDoc>,
            user::AddError,
        >(user::AddError::Auth(EnsureAuthError::Invalid)),
        key is Some && s0.permissions().contains_key(key_value(key->Some_0)) && !s0.permissions()[key_value(key->Some_0)].write ==> r == Err::<
            Outcome<user::MeiliDoc>,
            user::AddError,
        >(user::AddError::Auth(EnsureAuthError::NotAllowed)),
        key is Some && s0.permissions().contains_key(key_value(key->Some_0))
            && s0.permissions()[key_value(key->Some_0)].write ==> r is Ok,
{
}

/// A project whose title does not fit its length prefix is refused as bad input,
/// and the store is left exactly as it was: no record, index entry or mirror
/// document comes of it.
pub proof fn lemma_oversized_title_rejected(
    s0: Store,
    s1: Store,
    key: Option<Seq<char>>,
    p: Project,
    r: Result<Outcome<project::MeiliDoc>, project::AddError>,
)
    requires
        s0.auth_result(Op::Write, key) is Ok,
        !project::fits(p.title@),
        add_project_post(s0, key, p, r, s1),
    ensures
        r == Err::<Outcome<project::MeiliDoc>, project::AddError>(
            project::AddError::BadInput(project::ToDbReprError::TitleTooLong),
        ),
        s1 == s0,
{
}

/// No stored record is orphaned: every user and every project in a heap is
/// reached from some key of its index.
pub proof fn lemma_no_orphans(s: Store, id: u64)
    requires
        s.wf(),
    ensures
        s.user_ids().contains_key(id) ==> exists|k: u128| #[trigger]
            s.users().contains_key(k) && s.users()[k] == s.user_ids()[id],
        s.project_ids().contains_key(id) ==> exists|k: u128| #[trigger]
            s.projects().contains_key(k) && s.projects()[k] == s.project_ids()[id],
{
    if s.user_ids().contains_key(id) {
        s.users.lemma_no_orphans(id);
        let k = choose|k: u128| #[trigger] s.users@.contains_key(k) && s.users@[k] == s.users.by_id()[id];
        assert(s.users().contains_key(k) && s.users()[k] == s.user_ids()[id]);
    }
    if s.project_ids().contains_key(id) {
        s.projects.lemma_no_orphans(id);
        let k = choose|k: u128| #[trigger] s.projects@.contains_key(k) && s.projects@[k] == s.projects.by_id()[id];
        assert(s.projects().contains_key(k) && s.projects()[k] == s.project_ids()[id]);
    }
}

} // verus!
