//! The contents of the remote graph store as plain values, and the decisions
//! that each request makes on them.
use vstd::prelude::*;

use crate::message::{answers, ContainerServer, ListEmuNet, Outcome, Request, Response};

verus! {

/// One emunet: its owner, its name (unique per owner), a store-wide unique
/// identifier and the capacity it was created with.
pub struct EmuNetRecord {
    pub owner: String,
    pub name: String,
    pub id: u128,
    pub capacity: u32,
}

/// Why an emunet could not be admitted with a given identifier.
#[derive(PartialEq, Eq, Structural, Debug, Clone, Copy)]
pub enum CreateError {
    UnknownUser,
    IdInUse,
}

/// A snapshot of the remote store: readiness, the registered hosting
/// machines, the users and their emunets.
pub struct Store {
    pub ready: bool,
    pub initialized: bool,
    pub servers: Vec<ContainerServer>,
    pub users: Vec<String>,
    pub emunets: Vec<EmuNetRecord>,
}

/// `created(s, t, id)`: `id` was not in use in `s` and is in use in `t`.
pub open spec fn created(s: Store, t: Store, id: u128) -> bool {
    !s.id_in_use(id) && t.id_in_use(id)
}

/// What registering `name` on `s`, giving `t`, answers: `true` exactly when
/// the name was new, and the name is known afterwards either way.
pub open spec fn register_post(s: Store, t: Store, name: Seq<char>, r: bool) -> bool {
    r == !s.has_user(name) && t.has_user(name)
}

/// What creating the emunet `net` of `user` on `s`, giving `t`, answers.
/// The user being unknown is the one reason for "invalid user name". A known
/// user gets a new emunet unless the random identifier drawn is already in
/// use, which cannot happen on a store without emunets.
pub open spec fn create_post(
    s: Store,
    t: Store,
    user: String,
    net: String,
    capacity: u32,
    r: Outcome<u128>,
) -> bool {
    &&& (r matches Outcome::Fail(m) && m@ == "invalid user name"@) <==> !s.has_user(user@)
    &&& s.has_user(user@) && s.emunets@.len() == 0 ==> r is Succeed
    &&& s.has_user(user@) ==> (r is Succeed || (r matches Outcome::Fail(m) && m@
        == "emunet identifier already in use"@ && s.emunets@.len() > 0))
    &&& r matches Outcome::Succeed(id) ==> created(s, t, id) && t.emunets@ == s.emunets@.push(
        EmuNetRecord { owner: user, name: net, id, capacity },
    ) && t.users == s.users && t.servers == s.servers && t.ready == s.ready && t.initialized
        == s.initialized
    &&& r is Fail ==> t == s
}

pub open spec fn has_server(servers: Seq<ContainerServer>, name: Seq<char>) -> bool {
    exists|i: int| 0 <= i < servers.len() && #[trigger] servers[i].name@ == name
}

/// The known machines followed by each given one whose name is not known
/// by the time it comes, in the order given.
pub open spec fn merge_servers(
    known: Seq<ContainerServer>,
    given: Seq<ContainerServer>,
) -> Seq<ContainerServer>
    decreases given.len(),
{
    if given.len() == 0 {
        known
    } else {
        let acc = merge_servers(known, given.drop_last());
        if has_server(acc, given.last().name@) {
            acc
        } else {
            acc.push(given.last())
        }
    }
}

/// What registering the machines `given` on `s`, giving `t`, does and answers.
pub open spec fn init_post(s: Store, t: Store, given: Seq<ContainerServer>, r: bool) -> bool {
    &&& r == !s.initialized
    &&& t.initialized
    &&& t.servers@ == merge_servers(s.servers@, given)
    &&& t.users == s.users
    &&& t.emunets == s.emunets
    &&& t.ready == s.ready
}

/// Registering machines that are all known already changes nothing: a
/// repeated initialization is safe.
pub proof fn lemma_reinit_known_servers(known: Seq<ContainerServer>, given: Seq<ContainerServer>)
    requires
        forall|i: int| 0 <= i < given.len() ==> has_server(known, #[trigger] given[i].name@),
    ensures
        merge_servers(known, given) == known,
    decreases given.len(),
{
    if given.len() > 0 {
        let front = given.drop_last();
        assert forall|i: int| 0 <= i < front.len() implies has_server(known, #[trigger] front[i].name@) by {
            assert(front[i] == given[i]);
        }
        lemma_reinit_known_servers(known, front);
        assert(has_server(known, given[given.len() - 1].name@));
    }
}

/// Every identifier in use in `s` is still in use in `t`.
pub open spec fn keeps_ids(s: Store, t: Store) -> bool {
    forall|id: u128| #[trigger] s.id_in_use(id) ==> t.id_in_use(id)
}

/// What a listing of `user`'s emunets holds: name and identifier of each of
/// the user's records, in store order.
pub open spec fn listing(recs: Seq<EmuNetRecord>, user: Seq<char>) -> Seq<(Seq<char>, u128)>
    decreases recs.len(),
{
    if recs.len() == 0 {
        Seq::empty()
    } else {
        let prev = listing(recs.drop_last(), user);
        if recs.last().owner@ == user {
            prev.push((recs.last().name@, recs.last().id))
        } else {
            prev
        }
    }
}

pub open spec fn listing_view(v: Seq<(String, u128)>) -> Seq<(Seq<char>, u128)> {
    v.map_values(|p: (String, u128)| (p.0@, p.1))
}

/// Relies on uuid::Uuid::new_v4 and Uuid::as_u128: a random version-4
/// identifier, as its 128-bit value. Nothing is promised of the value.
#[verifier::external_body]
fn random_id() -> (r: u128) {
    uuid::Uuid::new_v4().as_u128()
}

impl Store {
    pub open spec fn has_user(&self, u: Seq<char>) -> bool {
        exists|i: int| 0 <= i < self.users@.len() && #[trigger] self.users@[i]@ == u
    }

    pub open spec fn id_in_use(&self, id: u128) -> bool {
        exists|k: int| 0 <= k < self.emunets@.len() && #[trigger] self.emunets@[k].id == id
    }

    /// User names are unique and emunet identifiers are unique. Emunet names
    /// may repeat: a retried creation makes a second emunet.
    pub open spec fn wf(&self) -> bool {
        &&& forall|a: int, b: int|
            0 <= a < b < self.users@.len() ==> self.users@[a]@ != self.users@[b]@
        &&& forall|a: int, b: int|
            0 <= a < b < self.emunets@.len() ==> self.emunets@[a].id != self.emunets@[b].id
    }

    /// An empty store that answers readiness probes with `ready`.
    pub fn new(ready: bool) -> (r: Store)
        ensures
            r.wf(),
            r.ready == ready,
            !r.initialized,
            r.servers@.len() == 0,
            r.users@.len() == 0,
            r.emunets@.len() == 0,
    {
        Store {
            ready,
            initialized: false,
            servers: Vec::new(),
            users: Vec::new(),
            emunets: Vec::new(),
        }
    }

    pub fn find_user(&self, name: &String) -> (r: bool)
        ensures
            r == self.has_user(name@),
    {
        let mut i: usize = 0;
        while i < self.users.len()
            invariant
                0 <= i <= self.users@.len(),
                forall|a: int| 0 <= a < i ==> self.users@[a]@ != name@,
            decreases self.users@.len() - i,
        {
            if self.users[i].eq(name) {
                return true;
            }
            i += 1;
        }
        false
    }

    pub fn find_id(&self, id: u128) -> (r: bool)
        ensures
            r == self.id_in_use(id),
    {
        let mut k: usize = 0;
        while k < self.emunets.len()
            invariant
                0 <= k <= self.emunets@.len(),
                forall|a: int| 0 <= a < k ==> self.emunets@[a].id != id,
            decreases self.emunets@.len() - k,
        {
            if self.emunets[k].id == id {
                return true;
            }
            k += 1;
        }
        false
    }

    /// Whether the snapshot keeps the store's invariant; a snapshot that does
    /// not is a malformed reply of the remote store.
    pub fn is_well_formed(&self) -> (r: bool)
        ensures
            r == self.wf(),
    {
        let mut i: usize = 0;
        while i < self.users.len()
            invariant
                0 <= i <= self.users@.len(),
                forall|a: int, b: int| 0 <= a < b < i ==> self.users@[a]@ != self.users@[b]@,
            decreases self.users@.len() - i,
        {
            let mut j: usize = 0;
            while j < i
                invariant
                    0 <= j <= i < self.users@.len(),
                    forall|a: int| 0 <= a < j ==> self.users@[a]@ != self.users@[i as int]@,
                decreases i - j,
            {
                if self.users[j].eq(&self.users[i]) {
                    return false;
                }
                j += 1;
            }
            i += 1;
        }
        let mut k: usize = 0;
        while k < self.emunets.len()
            invariant
                0 <= k <= self.emunets@.len(),
                forall|a: int, b: int| 0 <= a < b < self.users@.len() ==> self.users@[a]@ != self.users@[b]@,
                forall|a: int, b: int|
                    0 <= a < b < k ==> self.emunets@[a].id != self.emunets@[b].id,
            decreases self.emunets@.len() - k,
        {
            let mut m: usize = 0;
            while m < k
                invariant
                    0 <= m <= k < self.emunets@.len(),
                    forall|a: int| 0 <= a < m ==> self.emunets@[a].id != self.emunets@[k as int].id,
                decreases k - m,
            {
                if self.emunets[m].id == self.emunets[k].id {
                    return false;
                }
                m += 1;
            }
            k += 1;
        }
        true
    }

    pub fn find_server(&self, name: &String) -> (r: bool)
        ensures
            r == has_server(self.servers@, name@),
    {
        let mut i: usize = 0;
        while i < self.servers.len()
            invariant
                0 <= i <= self.servers@.len(),
                forall|a: int| 0 <= a < i ==> self.servers@[a].name@ != name@,
            decreases self.servers@.len() - i,
        {
            if self.servers[i].name.eq(name) {
                return true;
            }
            i += 1;
        }
        false
    }

    /// Registers the hosting machines not yet known, by name, and marks the
    /// store initialized; known machines are left as they are. Answers
    /// whether this was the store's first initialization.
    pub fn init(&mut self, servers: Vec<ContainerServer>) -> (r: bool)
        requires
            old(self).wf(),
        ensures
            final(self).wf(),
            keeps_ids(*old(self), *final(self)),
            init_post(*old(self), *final(self), servers@, r),
    {
        let first = !self.initialized;
        let ghost s = *self;
        let ghost given = servers@;
        let mut rest = servers;
        let n = rest.len();
        let mut i: usize = 0;
        while rest.len() > 0
            invariant
                given.len() == n,
                0 <= i <= given.len(),
                rest@ == given.skip(i as int),
                self.servers@ == merge_servers(s.servers@, given.take(i as int)),
                self.users == s.users,
                self.emunets == s.emunets,
                self.ready == s.ready,
                self.initialized == s.initialized,
            decreases rest@.len(),
        {
            let server = rest.remove(0);
            proof {
                assert(given.take(i + 1).drop_last() == given.take(i as int));
                assert(given.take(i + 1).last() == server);
                assert(rest@ == given.skip(i + 1));
            }
            if !self.find_server(&server.name) {
                self.servers.push(server);
            }
            i += 1;
        }
        proof {
            assert(given.take(i as int) == given);
        }
        self.initialized = true;
        proof {
            assert forall|x: u128| #[trigger] s.id_in_use(x) implies self.id_in_use(x) by {
                assert(self.emunets@ == s.emunets@);
            }
        }
        first
    }

    /// Creates a user namespace; answers `false`, and changes nothing, when
    /// the user already exists.
    pub fn register_user(&mut self, name: String) -> (r: bool)
        requires
            old(self).wf(),
        ensures
            final(self).wf(),
            register_post(*old(self), *final(self), name@, r),
            keeps_ids(*old(self), *final(self)),
            r ==> final(self).users@ == old(self).users@.push(name),
            r ==> final(self).emunets == old(self).emunets && final(self).servers == old(self).servers && final(self).ready == old(self).ready && final(self).initialized == old(self).initialized,
            !r ==> *final(self) == *old(self),
    {
        if self.find_user(&name) {
            return false;
        }
        let ghost prev = *self;
        self.users.push(name);
        proof {
            assert(self.users@[prev.users@.len() as int]@ == name@);
            assert forall|x: u128| #[trigger] prev.id_in_use(x) implies self.id_in_use(x) by {
                assert(self.emunets@ == prev.emunets@);
            }
        }
        true
    }

    /// Adds the emunet `net` of `user` under the identifier `id`, unless the
    /// user is unknown or `id` is taken (checked in that order). An existing
    /// emunet of the same name is no obstacle.
    pub fn admit_emu_net(&mut self, user: String, net: String, capacity: u32, id: u128) -> (r:
        Result<u128, CreateError>)
        requires
            old(self).wf(),
        ensures
            final(self).wf(),
            keeps_ids(*old(self), *final(self)),
            !old(self).has_user(user@) ==> r == Err::<u128, CreateError>(CreateError::UnknownUser),
            old(self).has_user(user@) && old(self).id_in_use(id) ==> r == Err::<u128, CreateError>(CreateError::IdInUse),
            old(self).has_user(user@) && !old(self).id_in_use(id) ==> r == Ok::<u128, CreateError>(id),
            r is Ok ==> created(*old(self), *final(self), id) && final(self).emunets@ == old(self).emunets@.push(EmuNetRecord { owner: user, name: net, id, capacity }) && final(self).users == old(self).users && final(self).servers == old(self).servers && final(self).ready == old(self).ready && final(self).initialized == old(self).initialized,
            r is Err ==> *final(self) == *old(self),
    {
        if !self.find_user(&user) {
            return Err(CreateError::UnknownUser);
        }
        if self.find_id(id) {
            return Err(CreateError::IdInUse);
        }
        let ghost prev = *self;
        let rec = EmuNetRecord { owner: user, name: net, id, capacity };
        self.emunets.push(rec);
        proof {
            let n = prev.emunets@.len() as int;
            assert(self.emunets@[n].id == id);
            assert forall|x: u128| #[trigger] prev.id_in_use(x) implies self.id_in_use(x) by {
                let k = choose|k: int| 0 <= k < prev.emunets@.len() && #[trigger] prev.emunets@[k].id == x;
                assert(self.emunets@[k].id == x);
            }
            assert forall|a: int, b: int| 0 <= a < b < self.emunets@.len() implies self.emunets@[a].id
                != self.emunets@[b].id by {
                if b == n {
                    assert(prev.emunets@[a].id != id);
                }
            }
        }
        Ok(id)
    }

    /// Creates the emunet `net` of `user` under a freshly drawn random
    /// identifier. Not idempotent: each success adds a new emunet, also when
    /// the user already has one of that name.
    pub fn create_emu_net(&mut self, user: String, net: String, capacity: u32) -> (r: Outcome<u128>)
        requires
            old(self).wf(),
        ensures
            final(self).wf(),
            keeps_ids(*old(self), *final(self)),
            create_post(*old(self), *final(self), user, net, capacity, r),
    {
        proof {
            reveal_strlit("invalid user name");
            reveal_strlit("emunet identifier already in use");
        }
        assert("invalid user name"@.len() != "emunet identifier already in use"@.len());
        let ghost s = *self;
        let id = random_id();
        match self.admit_emu_net(user, net, capacity, id) {
            Ok(id) => Outcome::Succeed(id),
            Err(CreateError::UnknownUser) => Outcome::Fail(String::from_str("invalid user name")),
            Err(CreateError::IdInUse) => {
                assert(s.id_in_use(id));
                assert(s.emunets@.len() > 0);
                Outcome::Fail(String::from_str("emunet identifier already in use"))
            },
        }
    }
}

impl Store {
    /// Runs one request against the store snapshot. Every domain outcome,
    /// failures included, comes back as a response of the request's kind.
    pub fn execute(&mut self, req: Request) -> (r: Response)
        requires
            old(self).wf(),
        ensures
            final(self).wf(),
            keeps_ids(*old(self), *final(self)),
            answers(req, r),
            req is Ping ==> r == Response::Ping(Outcome::Succeed(old(self).ready)) && *final(self)
                == *old(self),
            req matches Request::Init(sv) ==> (r matches Response::Init(Outcome::Succeed(b))
                && init_post(*old(self), *final(self), sv@, b)),
            req matches Request::RegisterUser(u) ==> (r matches Response::RegisterUser(
                Outcome::Succeed(b),
            ) && register_post(*old(self), *final(self), u@, b) && (!b ==> *final(self) == *old(self))),
            req matches Request::CreateEmuNet(u, n, c) ==> (r matches Response::CreateEmuNet(o)
                && create_post(*old(self), *final(self), u, n, c, o)),
            req matches Request::InitEmuNet(m) ==> (r matches Response::InitEmuNet(o) && (o is Succeed
                <==> m.is_valid()) && *final(self) == *old(self)),
            req matches Request::ListEmuNet(m) ==> *final(self) == *old(self) && (!old(self).has_user(
                m.user@,
            ) ==> r matches Response::ListEmuNet(Outcome::Fail(_))) && (old(self).has_user(m.user@)
                ==> (r matches Response::ListEmuNet(Outcome::Succeed(v)) && listing_view(v@)
                == listing(old(self).emunets@, m.user@))),
    {
        match req {
            Request::Ping => Response::Ping(Outcome::Succeed(self.ready)),
            Request::Init(servers) => Response::Init(Outcome::Succeed(self.init(servers))),
            Request::RegisterUser(name) => Response::RegisterUser(
                Outcome::Succeed(self.register_user(name)),
            ),
            Request::CreateEmuNet(user, net, capacity) => Response::CreateEmuNet(
                self.create_emu_net(user, net, capacity),
            ),
            Request::InitEmuNet(msg) => Response::InitEmuNet(msg.execute()),
            Request::ListEmuNet(msg) => Response::ListEmuNet(msg.execute(self)),
        }
    }
}

impl ListEmuNet {
    /// The user's emunets as (name, identifier) pairs, or a domain failure
    /// when the user is unknown.
    pub fn execute(&self, store: &Store) -> (r: Outcome<Vec<(String, u128)>>)
        ensures
            !store.has_user(self.user@) ==> (r matches Outcome::Fail(m) && m@
                == "invalid user name"@),
            store.has_user(self.user@) ==> (r matches Outcome::Succeed(v) && listing_view(v@)
                == listing(store.emunets@, self.user@)),
    {
        if !store.find_user(&self.user) {
            return Outcome::Fail(String::from_str("invalid user name"));
        }
        let mut out: Vec<(String, u128)> = Vec::new();
        let mut k: usize = 0;
        while k < store.emunets.len()
            invariant
                0 <= k <= store.emunets@.len(),
                listing_view(out@) == listing(store.emunets@.take(k as int), self.user@),
            decreases store.emunets@.len() - k,
        {
            proof {
                assert(store.emunets@.take(k + 1).drop_last() == store.emunets@.take(k as int));
            }
            let ghost before = out@;
            if store.emunets[k].owner.eq(&self.user) {
                out.push((store.emunets[k].name.clone(), store.emunets[k].id));
                proof {
                    assert(listing_view(out@) == listing_view(before).push(
                        (store.emunets@[k as int].name@, store.emunets@[k as int].id),
                    ));
                }
            }
            k += 1;
        }
        proof {
            assert(store.emunets@.take(store.emunets@.len() as int) == store.emunets@);
        }
        Outcome::Succeed(out)
    }
}

/// Registering one name twice never answers `true` twice, and on a store
/// that did not know the name it answers `true` and then `false`.
pub proof fn lemma_register_twice(s0: Store, s1: Store, s2: Store, name: Seq<char>, r1: bool, r2: bool)
    requires
        register_post(s0, s1, name, r1),
        register_post(s1, s2, name, r2),
    ensures
        !r2,
        !s0.has_user(name) ==> r1,
{
}

/// Two successful creations hand out distinct identifiers, whatever the
/// store went through between them, so long as no identifier was withdrawn.
pub proof fn lemma_created_ids_distinct(
    s0: Store,
    s1: Store,
    s2: Store,
    s3: Store,
    a: u128,
    b: u128,
)
    requires
        created(s0, s1, a),
        keeps_ids(s1, s2),
        created(s2, s3, b),
    ensures
        a != b,
{
    assert(s1.id_in_use(a));
}

} // verus!
