//! Client identities and the registry that owns one handle per client.

use vstd::prelude::*;
use crate::text::{decimal, decimal_string};

verus! {

/// The identity of a client: the server's address and port, and the name
/// under which the client presents itself to the server.
#[derive(Clone, Debug, Hash, PartialEq, Eq)]
pub struct NetworkTableClientId {
    pub ip: [u8; 4],
    pub port: u16,
    pub identity: String,
}

/// The mathematical content of a [`NetworkTableClientId`].
pub struct ClientIdModel {
    pub ip: Seq<u8>,
    pub port: u16,
    pub identity: Seq<char>,
}

impl View for NetworkTableClientId {
    type V = ClientIdModel;

    open spec fn view(&self) -> ClientIdModel {
        ClientIdModel { ip: self.ip@, port: self.port, identity: self.identity@ }
    }
}

impl ClientIdModel {
    /// The identity as text: the address in dotted decimal, the port and
    /// the name, with colons between them.
    pub open spec fn repr(self) -> Seq<char> {
        decimal(self.ip[0] as nat) + seq!['.'] + decimal(self.ip[1] as nat) + seq!['.'] + decimal(
            self.ip[2] as nat,
        ) + seq!['.'] + decimal(self.ip[3] as nat) + seq![':'] + decimal(self.port as nat)
            + seq![':'] + self.identity
    }
}

impl NetworkTableClientId {
    /// The identity of a client.
    pub fn new(ip: [u8; 4], port: u16, identity: String) -> (r: Self)
        ensures
            r.ip == ip,
            r.port == port,
            r.identity == identity,
    {
        Self { ip, port, identity }
    }

    /// The identity as text.
    pub fn repr(&self) -> (s: String)
        ensures
            s@ == self@.repr(),
    {
        proof {
            reveal_strlit(".");
            reveal_strlit(":");
        }
        let mut s = decimal_string(self.ip[0] as u64);
        s.append(".");
        s.append(decimal_string(self.ip[1] as u64).as_str());
        s.append(".");
        s.append(decimal_string(self.ip[2] as u64).as_str());
        s.append(".");
        s.append(decimal_string(self.ip[3] as u64).as_str());
        s.append(":");
        s.append(decimal_string(self.port as u64).as_str());
        s.append(":");
        s.append(self.identity.as_str());
        assert(s@ =~= self@.repr());
        s
    }

    /// Whether two identities are the same triple.
    pub fn same_as(&self, other: &NetworkTableClientId) -> (b: bool)
        ensures
            b == (self@ == other@),
    {
        let same = self.ip[0] == other.ip[0] && self.ip[1] == other.ip[1] && self.ip[2]
            == other.ip[2] && self.ip[3] == other.ip[3] && self.port == other.port
            && self.identity == other.identity;
        proof {
            if same {
                assert(self.ip@ =~= other.ip@);
            }
        }
        same
    }

    /// A copy with the same content.
    pub fn duplicate(&self) -> (r: Self)
        ensures
            r@ == self@,
    {
        Self { ip: self.ip, port: self.port, identity: self.identity.clone() }
    }
}

/// What a start did.
#[derive(Debug)]
pub enum StartOutcome<H> {
    /// The client is new.
    Started,
    /// A client with the same identity was there: its handle is handed
    /// back, to be stopped, and the new handle stands in its place.
    Replaced(H),
    /// The name is in use by a client of another address or port: the new
    /// handle is handed back and nothing has changed.
    Rejected(H),
}

/// The mathematical content of a registry: the clients in the order in
/// which they were first started.
pub struct RegistryModel<H> {
    pub ids: Seq<ClientIdModel>,
    pub handles: Seq<H>,
}

impl<H> RegistryModel<H> {
    /// One handle per client, and no name twice.
    pub open spec fn wf(self) -> bool {
        &&& self.ids.len() == self.handles.len()
        &&& forall|i: int, j: int|
            0 <= i < j < self.ids.len() ==> self.ids[i].identity != self.ids[j].identity
    }

    /// Whether a client with that identity is there.
    pub open spec fn has(self, id: ClientIdModel) -> bool {
        exists|i: int| 0 <= i < self.ids.len() && #[trigger] self.ids[i] == id
    }

    /// Whether a client presents itself under that name.
    pub open spec fn name_in_use(self, name: Seq<char>) -> bool {
        exists|i: int| 0 <= i < self.ids.len() && #[trigger] self.ids[i].identity == name
    }

    /// The place of the client that uses that name.
    pub open spec fn index_of_name(self, name: Seq<char>) -> int {
        choose|i: int| 0 <= i < self.ids.len() && #[trigger] self.ids[i].identity == name
    }

    /// The registry after a start.
    pub open spec fn started(self, id: ClientIdModel, handle: H) -> RegistryModel<H> {
        if self.has(id) {
            RegistryModel {
                ids: self.ids,
                handles: self.handles.update(self.index_of_name(id.identity), handle),
            }
        } else if self.name_in_use(id.identity) {
            self
        } else {
            RegistryModel { ids: self.ids.push(id), handles: self.handles.push(handle) }
        }
    }

    /// The registry after a stop.
    pub open spec fn stopped(self, id: ClientIdModel) -> RegistryModel<H> {
        if self.has(id) {
            RegistryModel {
                ids: self.ids.remove(self.index_of_name(id.identity)),
                handles: self.handles.remove(self.index_of_name(id.identity)),
            }
        } else {
            self
        }
    }
}

/// In a well-formed registry a client that is there is there once: one
/// place holds its identity, and no other place does.
pub proof fn lemma_one_engine<H>(r: RegistryModel<H>, id: ClientIdModel)
    requires
        r.wf(),
        r.has(id),
    ensures
        0 <= r.index_of_name(id.identity) < r.ids.len(),
        r.ids[r.index_of_name(id.identity)] == id,
        forall|j: int| 0 <= j < r.ids.len() && r.ids[j] == id ==> j == r.index_of_name(id.identity),
{
    let w = choose|i: int| 0 <= i < r.ids.len() && #[trigger] r.ids[i] == id;
    assert(r.ids[w].identity == id.identity);
    let k = r.index_of_name(id.identity);
    assert(k == w) by {
        if k < w {
            assert(r.ids[k].identity != r.ids[w].identity);
        } else if w < k {
            assert(r.ids[w].identity != r.ids[k].identity);
        }
    }
    assert forall|j: int| 0 <= j < r.ids.len() && r.ids[j] == id implies j == k by {
        if j < k {
            assert(r.ids[j].identity != r.ids[k].identity);
        } else if k < j {
            assert(r.ids[k].identity != r.ids[j].identity);
        }
    }
}

/// Starting a client leaves the registry well formed, and with the client
/// in it unless its name is in use by a client of another address or port.
pub proof fn lemma_start<H>(r: RegistryModel<H>, id: ClientIdModel, handle: H)
    requires
        r.wf(),
    ensures
        r.started(id, handle).wf(),
        r.has(id) || !r.name_in_use(id.identity) ==> r.started(id, handle).has(id),
        r.has(id) ==> r.started(id, handle).ids == r.ids,
{
    let n = r.started(id, handle);
    if r.has(id) {
        lemma_one_engine(r, id);
        assert(n.ids[r.index_of_name(id.identity)] == id);
    } else if !r.name_in_use(id.identity) {
        assert(n.ids[r.ids.len() as int] == id);
        assert forall|i: int, j: int| 0 <= i < j < n.ids.len() implies n.ids[i].identity
            != n.ids[j].identity by {
            if j < r.ids.len() {
                assert(r.ids[i].identity != r.ids[j].identity);
            } else {
                assert(r.ids[i].identity != id.identity);
            }
        }
    }
}

/// Starting a client that is there already leaves one client under its
/// identity, no other client touched, and the new handle in its place.
pub proof fn lemma_restart<H>(r: RegistryModel<H>, id: ClientIdModel, handle: H)
    requires
        r.wf(),
        r.has(id),
    ensures
        r.started(id, handle).wf(),
        r.started(id, handle).ids == r.ids,
        r.started(id, handle).has(id),
        forall|i: int, j: int|
            0 <= i < r.ids.len() && 0 <= j < r.ids.len() && r.started(id, handle).ids[i] == id
                && r.started(id, handle).ids[j] == id ==> i == j,
        r.started(id, handle).handles[r.started(id, handle).index_of_name(id.identity)] == handle,
        forall|i: int|
            0 <= i < r.ids.len() && r.ids[i] != id ==> r.started(id, handle).handles[i]
                == r.handles[i],
{
    lemma_start(r, id, handle);
    lemma_one_engine(r, id);
    lemma_one_engine(r.started(id, handle), id);
}

/// After a stop the client is gone, the registry is well formed, and where
/// the client was there its name is free: a start under that name, at any
/// address, is taken as a new client.
pub proof fn lemma_stop<H>(r: RegistryModel<H>, id: ClientIdModel)
    requires
        r.wf(),
    ensures
        r.stopped(id).wf(),
        !r.stopped(id).has(id),
        r.has(id) ==> !r.stopped(id).name_in_use(id.identity),
        forall|other: ClientIdModel, handle: H|
            r.has(id) && other.identity == id.identity ==> (#[trigger] r.stopped(id).started(
                other,
                handle,
            )).ids == r.stopped(id).ids.push(other),
{
    let n = r.stopped(id);
    if r.has(id) {
        lemma_one_engine(r, id);
        let k = r.index_of_name(id.identity);
        assert forall|i: int| 0 <= i < n.ids.len() implies (#[trigger] n.ids[i]).identity
            != id.identity by {
            if i < k {
                assert(n.ids[i] == r.ids[i]);
                assert(r.ids[i].identity != r.ids[k].identity);
            } else {
                assert(n.ids[i] == r.ids[i + 1]);
                assert(r.ids[k].identity != r.ids[i + 1].identity);
            }
        }
        assert forall|i: int, j: int| 0 <= i < j < n.ids.len() implies n.ids[i].identity
            != n.ids[j].identity by {
            let a = if i < k {
                i
            } else {
                i + 1
            };
            let b = if j < k {
                j
            } else {
                j + 1
            };
            assert(n.ids[i] == r.ids[a]);
            assert(n.ids[j] == r.ids[b]);
            assert(r.ids[a].identity != r.ids[b].identity);
        }
        assert(!n.name_in_use(id.identity));
        assert forall|other: ClientIdModel, handle: H|
            other.identity == id.identity implies (#[trigger] n.started(other, handle)).ids
            == n.ids.push(other) by {
            if n.has(other) {
                let w = choose|i: int| 0 <= i < n.ids.len() && #[trigger] n.ids[i] == other;
                assert(n.ids[w].identity == id.identity);
            }
        }
    }
}

/// The owner of the clients' handles, keyed by identity.
#[derive(Debug)]
pub struct ClientRegistry<H> {
    /// The identities of the clients, no name twice, in the order in which
    /// they were first started.
    ids: Vec<NetworkTableClientId>,
    /// The handle of each client, at the place of its identity.
    handles: Vec<H>,
}

/// The contents of a vector of identities.
pub open spec fn ids_model(v: Seq<NetworkTableClientId>) -> Seq<ClientIdModel> {
    Seq::new(v.len(), |i: int| v[i]@)
}

impl<H> View for ClientRegistry<H> {
    type V = RegistryModel<H>;

    closed spec fn view(&self) -> RegistryModel<H> {
        RegistryModel { ids: ids_model(self.ids@), handles: self.handles@ }
    }
}

impl<H> ClientRegistry<H> {
    /// The invariant of the registry.
    pub open spec fn wf(&self) -> bool {
        self@.wf()
    }

    /// A registry without clients.
    pub fn new() -> (r: Self)
        ensures
            r.wf(),
            r@.ids.len() == 0,
    {
        ClientRegistry { ids: Vec::new(), handles: Vec::new() }
    }

    fn find_name(&self, name: &String) -> (r: Option<usize>)
        requires
            self.wf(),
        ensures
            r.is_some() == self@.name_in_use(name@),
            r.is_some() ==> r.unwrap() as int == self@.index_of_name(name@) && r.unwrap()
                < self.ids.len(),
    {
        let mut i: usize = 0;
        while i < self.ids.len()
            invariant
                i <= self.ids.len(),
                self.wf(),
                forall|j: int| 0 <= j < i ==> self@.ids[j].identity != name@,
            decreases self.ids.len() - i,
        {
            if self.ids[i].identity == *name {
                assert(self@.ids[i as int].identity == name@);
                let ghost k = self@.index_of_name(name@);
                assert(k == i) by {
                    if k < i {
                        assert(self@.ids[k].identity != self@.ids[i as int].identity);
                    } else if i < k {
                        assert(self@.ids[i as int].identity != self@.ids[k].identity);
                    }
                }
                return Some(i);
            }
            i += 1;
        }
        None
    }

    fn find(&self, id: &NetworkTableClientId) -> (r: Option<usize>)
        requires
            self.wf(),
        ensures
            r.is_some() == self@.has(id@),
            r.is_some() ==> r.unwrap() as int == self@.index_of_name(id@.identity) && r.unwrap()
                < self.ids.len(),
    {
        match self.find_name(&id.identity) {
            Some(i) => {
                if self.ids[i].same_as(id) {
                    assert(self@.ids[i as int] == id@);
                    Some(i)
                } else {
                    proof {
                        if self@.has(id@) {
                            lemma_one_engine(self@, id@);
                        }
                    }
                    None
                }
            },
            None => {
                proof {
                    if self@.has(id@) {
                        lemma_one_engine(self@, id@);
                    }
                }
                None
            },
        }
    }

    /// Starts a client under `id` with `handle`. A client with the same
    /// identity is replaced and its handle handed back; a name in use at
    /// another address or port is refused.
    pub fn start(&mut self, id: NetworkTableClientId, handle: H) -> (outcome: StartOutcome<H>)
        requires
            old(self).wf(),
        ensures
            final(self).wf(),
            final(self)@ == old(self)@.started(id@, handle),
            old(self)@.has(id@) ==> outcome == StartOutcome::Replaced(
                old(self)@.handles[old(self)@.index_of_name(id@.identity)],
            ) && final(self)@.has(id@),
            !old(self)@.has(id@) && old(self)@.name_in_use(id@.identity) ==> outcome
                == StartOutcome::Rejected(handle),
            !old(self)@.name_in_use(id@.identity) ==> outcome == StartOutcome::<H>::Started
                && final(self)@.has(id@),
    {
        proof {
            lemma_start(self@, id@, handle);
            if self@.has(id@) {
                lemma_one_engine(self@, id@);
            }
        }
        match self.find_name(&id.identity) {
            Some(i) => {
                if self.ids[i].same_as(&id) {
                    let displaced = self.handles.remove(i);
                    self.handles.insert(i, handle);
                    assert(self@.handles =~= old(self)@.started(id@, handle).handles);
                    StartOutcome::Replaced(displaced)
                } else {
                    proof {
                        if self@.has(id@) {
                            lemma_one_engine(self@, id@);
                        }
                    }
                    StartOutcome::Rejected(handle)
                }
            },
            None => {
                self.ids.push(id);
                self.handles.push(handle);
                assert(self@.ids =~= old(self)@.ids.push(id@));
                StartOutcome::Started
            },
        }
    }

    /// Stops the client under `id`: takes it out and hands its handle
    /// back. Its name is free again at once.
    pub fn stop(&mut self, id: &NetworkTableClientId) -> (handle: Option<H>)
        requires
            old(self).wf(),
        ensures
            final(self).wf(),
            final(self)@ == old(self)@.stopped(id@),
            !final(self)@.has(id@),
            handle.is_some() == old(self)@.has(id@),
            handle.is_some() ==> handle.unwrap() == old(self)@.handles[old(self)@.index_of_name(
                id@.identity,
            )] && !final(self)@.name_in_use(id@.identity),
    {
        proof {
            lemma_stop(self@, id@);
        }
        match self.find(id) {
            Some(i) => {
                self.ids.remove(i);
                let handle = self.handles.remove(i);
                assert(self@.ids =~= old(self)@.ids.remove(i as int));
                Some(handle)
            },
            None => None,
        }
    }

    /// Whether a client with that identity is there.
    pub fn contains(&self, id: &NetworkTableClientId) -> (b: bool)
        requires
            self.wf(),
        ensures
            b == self@.has(id@),
    {
        self.find(id).is_some()
    }

    /// The handle of the client under `id`.
    pub fn get(&self, id: &NetworkTableClientId) -> (r: Option<&H>)
        requires
            self.wf(),
        ensures
            r.is_some() == self@.has(id@),
            r.is_some() ==> *r.unwrap() == self@.handles[self@.index_of_name(id@.identity)],
    {
        match self.find(id) {
            Some(i) => Some(&self.handles[i]),
            None => None,
        }
    }

    /// The names of the clients, in the order in which they were started.
    pub fn list(&self) -> (names: Vec<String>)
        ensures
            names.len() == self@.ids.len(),
            forall|i: int| 0 <= i < names.len() ==> (#[trigger] names@[i])@ == self@.ids[i].identity,
    {
        let mut names: Vec<String> = Vec::new();
        let mut i: usize = 0;
        while i < self.ids.len()
            invariant
                i <= self.ids.len(),
                names.len() == i,
                forall|j: int| 0 <= j < i ==> (#[trigger] names@[j])@ == self@.ids[j].identity,
            decreases self.ids.len() - i,
        {
            names.push(self.ids[i].identity.clone());
            i += 1;
        }
        names
    }

    /// The number of clients.
    pub fn len(&self) -> (n: usize)
        ensures
            n == self@.ids.len(),
    {
        self.ids.len()
    }
}

/// The identities of the clients as text, in the order in which they were
/// started.
pub fn get_connect_client_names<H>(registry: &ClientRegistry<H>) -> (names: Vec<String>)
    ensures
        names.len() == registry@.ids.len(),
        forall|i: int| 0 <= i < names.len() ==> (#[trigger] names@[i])@ == registry@.ids[i].repr(),
{
    let mut names: Vec<String> = Vec::new();
    let mut i: usize = 0;
    while i < registry.ids.len()
        invariant
            i <= registry.ids.len(),
            names.len() == i,
            forall|j: int| 0 <= j < i ==> (#[trigger] names@[j])@ == registry@.ids[j].repr(),
        decreases registry.ids.len() - i,
    {
        names.push(registry.ids[i].repr());
        i += 1;
    }
    names
}

/// Whether a client with that identity is in the registry. Whatever the
/// name suggests, the answer is `true` for a client that is there.
pub fn is_network_table_client_stopped<H>(
    registry: &ClientRegistry<H>,
    client_id: &NetworkTableClientId,
) -> (b: bool)
    requires
        registry.wf(),
    ensures
        b == registry@.has(client_id@),
{
    registry.contains(client_id)
}

/// Takes the client out of the registry and hands its handle back, for the
/// caller to stop its engine. `None` where no such client is there.
pub fn stop_network_table_client<H>(
    registry: &mut ClientRegistry<H>,
    client_id: &NetworkTableClientId,
) -> (handle: Option<H>)
    requires
        old(registry).wf(),
    ensures
        final(registry).wf(),
        final(registry)@ == old(registry)@.stopped(client_id@),
        !final(registry)@.has(client_id@),
        handle.is_some() == old(registry)@.has(client_id@),
        handle.is_some() ==> handle.unwrap() == old(registry)@.handles[old(registry)@.index_of_name(client_id@.identity)] && !final(registry)@.name_in_use(
            client_id@.identity,
        ),
{
    registry.stop(client_id)
}

} // verus!
