//! The registry of running mock instances and the operations that start, stop and list
//! them.
//!
//! The registry is an ordinary value that its owner passes to every operation; it does
//! no locking of its own. Binding a port and serving requests happen outside: `start`
//! is told how the probe of the port ended and hands back the instance to serve.

use vstd::prelude::*;
use vstd::string::StringExecFns;
use tokio::sync::oneshot::Sender;
use crate::route::MockRoute;
use crate::server::MockServer;
use crate::text::decimal;
use crate::text::decimal_text;
use crate::text::text_eq;

verus! {

/// tokio's one-shot sender, carried as an opaque value.
#[verifier::external_type_specification]
#[verifier::external_body]
#[verifier::reject_recursive_types(T)]
pub struct ExSender<T>(Sender<T>);

/// Calls `send` of tokio's one-shot `Sender` with the unit value, which consumes the
/// sender.
///
/// Trusted: the call returns. Nothing is claimed of its result, which tells whether a
/// receiver was still there to be woken.
#[verifier::external_body]
fn signal(shutdown_tx: Sender<()>) -> (delivered: Result<(), ()>) {
    shutdown_tx.send(())
}

/// A running instance as the registry knows it: the handle that stops it and the port
/// it was started on.
pub struct RunningServer {
    pub shutdown_tx: Sender<()>,
    pub port: u16,
}

struct Entry {
    id: String,
    server: RunningServer,
}

/// The registry: which server ids are running, and for each the handle that stops its
/// instance and the port it was started on. No id is registered twice.
pub struct MockServerState {
    servers: Vec<Entry>,
}

spec fn entry_ids(entries: Seq<Entry>) -> Seq<Seq<char>> {
    Seq::new(entries.len(), |i: int| entries[i].id@)
}

spec fn entries_map(entries: Seq<Entry>) -> Map<Seq<char>, RunningServer> {
    Map::new(
        |id: Seq<char>| entry_ids(entries).contains(id),
        |id: Seq<char>| entries[entry_ids(entries).index_of(id)].server,
    )
}

impl View for MockServerState {
    type V = Map<Seq<char>, RunningServer>;

    /// The running instance of each id: its handle and its port.
    closed spec fn view(&self) -> Map<Seq<char>, RunningServer> {
        entries_map(self.servers@)
    }
}

/// The message of a stop: it tells a server that was stopped from one that was not
/// running.
pub open spec fn stop_message(server_id: Seq<char>, was_running: bool) -> Seq<char> {
    if was_running {
        "Server "@ + server_id + " stopped"@
    } else {
        "Server "@ + server_id + " was not running"@
    }
}

/// The message of a stop of every server.
pub open spec fn stop_all_message(count: nat) -> Seq<char> {
    "Stopped "@ + decimal(count) + " servers"@
}

/// The message of a start that succeeded.
pub open spec fn started_message(server_id: Seq<char>, port: u16) -> Seq<char> {
    "Server "@ + server_id + " started on port "@ + decimal(port as nat)
}

/// The error of a start whose port could not be bound. It names the port and the cause.
pub open spec fn port_in_use_message(port: u16, cause: Seq<char>) -> Seq<char> {
    "Port "@ + decimal(port as nat) + " is already in use: "@ + cause
}

/// The texts of a list of ids.
pub open spec fn id_texts(ids: Seq<String>) -> Seq<Seq<char>> {
    Seq::new(ids.len(), |i: int| ids[i]@)
}

proof fn lemma_index_of_unique(ids: Seq<Seq<char>>, i: int)
    requires
        ids.no_duplicates(),
        0 <= i < ids.len(),
    ensures
        ids.contains(ids[i]),
        ids.index_of(ids[i]) == i,
{
    let j = ids.index_of(ids[i]);
    assert(0 <= j < ids.len() && ids[j] == ids[i]);
}

proof fn lemma_remove_entry(entries: Seq<Entry>, k: int)
    requires
        entry_ids(entries).no_duplicates(),
        0 <= k < entries.len(),
    ensures
        entry_ids(entries.remove(k)).no_duplicates(),
        entries_map(entries.remove(k)) == entries_map(entries).remove(entries[k].id@),
{
    let ids = entry_ids(entries);
    let rest = entries.remove(k);
    let rest_ids = entry_ids(rest);
    assert forall|i: int| 0 <= i < rest.len() implies #[trigger] rest_ids[i] == ids[if i < k {
        i
    } else {
        i + 1
    }] by {}
    assert forall|id: Seq<char>| #[trigger] rest_ids.contains(id) <==> (ids.contains(id) && id
        != entries[k].id@) by {
        assert(ids[k] == entries[k].id@);
        if rest_ids.contains(id) {
            let i = rest_ids.index_of(id);
            assert(0 <= i < rest_ids.len() && rest_ids[i] == id);
            let j = if i < k { i } else { i + 1 };
            assert(ids[j] == id);
            assert(ids[j] != ids[k]);
        }
        if ids.contains(id) && id != entries[k].id@ {
            let j = ids.index_of(id);
            assert(0 <= j < ids.len() && ids[j] == id);
            let i = if j < k { j } else { j - 1 };
            assert(rest_ids[i] == id);
        }
    }
    assert forall|id: Seq<char>| rest_ids.contains(id) implies rest[rest_ids.index_of(
        id,
    )].server == entries[ids.index_of(id)].server by {
        let i = rest_ids.index_of(id);
        assert(0 <= i < rest_ids.len() && rest_ids[i] == id);
        let j = if i < k { i } else { i + 1 };
        assert(ids[j] == id);
        lemma_index_of_unique(ids, j);
    }
    assert(entries_map(rest) =~= entries_map(entries).remove(entries[k].id@));
}

proof fn lemma_push_entry(entries: Seq<Entry>, entry: Entry)
    requires
        entry_ids(entries).no_duplicates(),
        !entry_ids(entries).contains(entry.id@),
    ensures
        entry_ids(entries.push(entry)).no_duplicates(),
        entries_map(entries.push(entry)) == entries_map(entries).insert(entry.id@, entry.server),
{
    let ids = entry_ids(entries);
    let more = entries.push(entry);
    let more_ids = entry_ids(more);
    assert(more_ids =~= ids.push(entry.id@));
    assert forall|i: int, j: int|
        0 <= i < more_ids.len() && 0 <= j < more_ids.len() && i != j implies more_ids[i]
        != more_ids[j] by {
        if i < ids.len() {
            assert(ids.contains(ids[i]));
        }
        if j < ids.len() {
            assert(ids.contains(ids[j]));
        }
    }
    assert forall|id: Seq<char>| #[trigger] more_ids.contains(id) <==> (ids.contains(id) || id
        == entry.id@) by {
        if ids.contains(id) {
            let j = ids.index_of(id);
            assert(more_ids[j] == id);
        }
        if id == entry.id@ {
            assert(more_ids[ids.len() as int] == id);
        }
    }
    assert forall|id: Seq<char>| more_ids.contains(id) implies more[more_ids.index_of(
        id,
    )].server == (if id == entry.id@ {
        entry.server
    } else {
        entries[ids.index_of(id)].server
    }) by {
        let i = more_ids.index_of(id);
        lemma_index_of_unique(more_ids, i);
        if id != entry.id@ {
            let j = ids.index_of(id);
            assert(more_ids[j] == id);
            lemma_index_of_unique(more_ids, j);
        }
    }
    assert(entries_map(more) =~= entries_map(entries).insert(entry.id@, entry.server));
}

proof fn lemma_entries_count(entries: Seq<Entry>)
    requires
        entry_ids(entries).no_duplicates(),
    ensures
        entries_map(entries).dom() == entry_ids(entries).to_set(),
        entries_map(entries).dom().finite(),
        entries_map(entries).dom().len() == entries.len(),
{
    let ids = entry_ids(entries);
    assert(entries_map(entries).dom() =~= ids.to_set());
    ids.unique_seq_to_set();
    vstd::seq_lib::seq_to_set_is_finite(ids);
}

impl MockServerState {
    #[verifier::type_invariant]
    spec fn no_id_twice(&self) -> bool {
        entry_ids(self.servers@).no_duplicates()
    }

    /// A registry in which nothing runs.
    pub fn new() -> (state: MockServerState)
        ensures
            state@ == Map::<Seq<char>, RunningServer>::empty(),
    {
        let state = MockServerState { servers: Vec::new() };
        assert(state@ =~= Map::<Seq<char>, RunningServer>::empty());
        state
    }

    /// Takes the list of entries out, leaving the registry empty while the list is
    /// edited.
    fn take_servers(&mut self) -> (servers: Vec<Entry>)
        ensures
            servers@ == old(self).servers@,
            final(self).servers@.len() == 0,
    {
        let mut servers: Vec<Entry> = Vec::new();
        std::mem::swap(&mut self.servers, &mut servers);
        servers
    }

    /// Puts an edited list of entries back into an emptied registry.
    fn put_servers(&mut self, servers: Vec<Entry>)
        requires
            entry_ids(servers@).no_duplicates(),
        ensures
            final(self).servers@ == servers@,
    {
        let mut servers = servers;
        std::mem::swap(&mut self.servers, &mut servers);
    }

    fn position(&self, server_id: &str) -> (found: Option<usize>)
        ensures
            match found {
                Some(k) => k < self.servers@.len() && self.servers@[k as int].id@ == server_id@,
                None => !entry_ids(self.servers@).contains(server_id@),
            },
    {
        let mut i: usize = 0;
        while i < self.servers.len()
            invariant
                i <= self.servers@.len(),
                forall|j: int| 0 <= j < i ==> self.servers@[j].id@ != server_id@,
            decreases self.servers@.len() - i,
        {
            if text_eq(self.servers[i].id.as_str(), server_id) {
                return Some(i);
            }
            i += 1;
        }
        assert forall|j: int| 0 <= j < self.servers@.len() implies entry_ids(self.servers@)[j]
            != server_id@ by {}
        None
    }
}

/// Stops the server `server_id` if it is running: takes its entry out of the
/// registry and signals the handle of that entry. Every other id keeps its handle and
/// its port. An id that is not running is no error.
pub fn stop_mock_server_by_id(server_id: String, state: &mut MockServerState) -> (result: Result<
    String,
    String,
>)
    ensures
        final(state)@ == old(state)@.remove(server_id@),
        result is Ok,
        result->Ok_0@ == stop_message(server_id@, old(state)@.contains_key(server_id@)),
{
    proof {
        use_type_invariant(&*state);
    }
    match state.position(server_id.as_str()) {
        Some(k) => {
            proof {
                lemma_remove_entry(state.servers@, k as int);
                assert(entry_ids(state.servers@)[k as int] == server_id@);
            }
            let mut servers = state.take_servers();
            let entry = servers.remove(k);
            state.put_servers(servers);
            let _ = signal(entry.server.shutdown_tx);
            let mut message = String::from_str("Server ");
            message.append(server_id.as_str());
            message.append(" stopped");
            Ok(message)
        },
        None => {
            assert(state@ =~= state@.remove(server_id@));
            let mut message = String::from_str("Server ");
            message.append(server_id.as_str());
            message.append(" was not running");
            Ok(message)
        },
    }
}

/// Stops the server `server_id` if it is running. An id that is not running is no
/// error: the message says that it was not running.
pub fn stop_mock_server(server_id: String, state: &mut MockServerState) -> (result: Result<
    String,
    String,
>)
    ensures
        final(state)@ == old(state)@.remove(server_id@),
        result is Ok,
        result->Ok_0@ == stop_message(server_id@, old(state)@.contains_key(server_id@)),
{
    stop_mock_server_by_id(server_id, state)
}

/// Stops every running server: empties the registry, then signals each handle. The
/// message gives the number of servers that were running.
pub fn stop_all_mock_servers(state: &mut MockServerState) -> (result: Result<String, String>)
    ensures
        final(state)@ == Map::<Seq<char>, RunningServer>::empty(),
        old(state)@.dom().finite(),
        result is Ok,
        result->Ok_0@ == stop_all_message(old(state)@.dom().len()),
{
    proof {
        use_type_invariant(&*state);
        lemma_entries_count(state.servers@);
    }
    let mut servers = state.take_servers();
    assert(state@ =~= Map::<Seq<char>, RunningServer>::empty());
    let count = servers.len();
    while servers.len() > 0
        decreases servers@.len(),
    {
        match servers.pop() {
            Some(entry) => {
                let _ = signal(entry.server.shutdown_tx);
            },
            None => {},
        }
    }
    let mut message = String::from_str("Stopped ");
    message.append(decimal_text(count as u64).as_str());
    message.append(" servers");
    Ok(message)
}

/// The ids of the running servers, each once, in no particular order.
pub fn get_running_servers(state: &MockServerState) -> (result: Result<Vec<String>, String>)
    ensures
        result is Ok,
        id_texts(result->Ok_0@).no_duplicates(),
        id_texts(result->Ok_0@).to_set() == state@.dom(),
{
    proof {
        use_type_invariant(state);
        lemma_entries_count(state.servers@);
    }
    let mut ids: Vec<String> = Vec::new();
    let mut i: usize = 0;
    while i < state.servers.len()
        invariant
            i <= state.servers@.len(),
            id_texts(ids@) == entry_ids(state.servers@).take(i as int),
        decreases state.servers@.len() - i,
    {
        let ghost before = ids@;
        ids.push(state.servers[i].id.clone());
        assert(id_texts(ids@) =~= id_texts(before).push(entry_ids(state.servers@)[i as int]));
        assert(entry_ids(state.servers@).take(i + 1) =~= entry_ids(state.servers@).take(
            i as int,
        ).push(entry_ids(state.servers@)[i as int]));
        i += 1;
    }
    assert(entry_ids(state.servers@).take(i as int) =~= entry_ids(state.servers@));
    Ok(ids)
}

/// What a start that succeeded hands back: the message for the caller and the instance
/// to serve on the port.
pub struct StartedServer {
    pub message: String,
    pub server: MockServer,
}

/// Starts the server `server_id` on `port` with `routes`, given how the probe of the
/// port ended: `Ok` with the handle that will stop the new instance, or `Err` with the
/// cause for which the port could not be bound.
///
/// Whatever the probe says, a server that runs under the same id is stopped first, so
/// that an id never has two instances. If the port is free, the id is registered with
/// the probe's handle and the port, in place of what it had; if not, nothing is
/// registered and the error names the port and the cause. Every other id keeps its
/// handle and its port.
pub fn start_mock_server(
    server_id: String,
    port: u16,
    routes: Vec<MockRoute>,
    probe: Result<Sender<()>, String>,
    state: &mut MockServerState,
) -> (result: Result<StartedServer, String>)
    ensures
        match probe {
            Ok(shutdown_tx) => {
                &&& final(state)@ == old(state)@.insert(
                    server_id@,
                    (RunningServer { shutdown_tx, port }),
                )
                &&& result is Ok
                &&& result->Ok_0.message@ == started_message(server_id@, port)
                &&& result->Ok_0.server.server_id@ == server_id@
                &&& result->Ok_0.server.port == port
                &&& result->Ok_0.server.routes == routes
            },
            Err(cause) => {
                &&& final(state)@ == old(state)@.remove(server_id@)
                &&& result is Err
                &&& result->Err_0@ == port_in_use_message(port, cause@)
            },
        },
{
    let _ = stop_mock_server_by_id(server_id.clone(), state);
    match probe {
        Ok(shutdown_tx) => {
            proof {
                use_type_invariant(&*state);
                assert(!state@.contains_key(server_id@));
                assert(!entry_ids(state.servers@).contains(server_id@));
                lemma_push_entry(
                    state.servers@,
                    Entry { id: server_id, server: RunningServer { shutdown_tx, port } },
                );
            }
            let mut servers = state.take_servers();
            servers.push(Entry { id: server_id.clone(), server: RunningServer { shutdown_tx, port } });
            state.put_servers(servers);
            assert(state@ =~= old(state)@.insert(
                server_id@,
                (RunningServer { shutdown_tx, port }),
            ));
            let mut message = String::from_str("Server ");
            message.append(server_id.as_str());
            message.append(" started on port ");
            message.append(decimal_text(port as u64).as_str());
            Ok(StartedServer { message, server: MockServer::new(server_id, port, routes) })
        },
        Err(cause) => {
            let mut message = String::from_str("Port ");
            message.append(decimal_text(port as u64).as_str());
            message.append(" is already in use: ");
            message.append(cause.as_str());
            Err(message)
        },
    }
}

/// Starting an id that already runs replaces its instance: after two starts of the
/// same id the registry holds the id once, with the handle and the port of the second
/// start, and every other id as before. The handle of the first start is no longer
/// registered.
pub proof fn lemma_restart_replaces(
    before: Map<Seq<char>, RunningServer>,
    server_id: Seq<char>,
    first: RunningServer,
    second: RunningServer,
)
    requires
        before.dom().finite(),
    ensures
        before.insert(server_id, first).remove(server_id).insert(server_id, second)
            == before.insert(server_id, second),
        before.insert(server_id, second)[server_id] == second,
        before.insert(server_id, second).dom().len() == before.insert(server_id, first).dom().len(),
        forall|other: Seq<char>|
            other != server_id && before.contains_key(other) ==> #[trigger] before.insert(
                server_id,
                second,
            )[other] == before[other],
{
    let once = before.insert(server_id, first);
    let twice = once.remove(server_id).insert(server_id, second);
    assert(twice =~= before.insert(server_id, second));
    assert(twice.dom() =~= once.dom());
}

/// A start whose port cannot be bound leaves the id out of the registry, and every
/// other id as it was, with its handle and its port.
pub proof fn lemma_failed_start_leaves_id_out(
    before: Map<Seq<char>, RunningServer>,
    server_id: Seq<char>,
)
    ensures
        !before.remove(server_id).contains_key(server_id),
        !before.contains_key(server_id) ==> before.remove(server_id) == before,
        forall|other: Seq<char>|
            other != server_id ==> (#[trigger] before.remove(server_id).contains_key(other)
                <==> before.contains_key(other)),
        forall|other: Seq<char>|
            other != server_id && before.contains_key(other) ==> #[trigger] before.remove(
                server_id,
            )[other] == before[other],
{
    if !before.contains_key(server_id) {
        assert(before.remove(server_id) =~= before);
    }
}

/// After every server was stopped, no id is listed: a list whose ids are those of the
/// empty registry is empty.
pub proof fn lemma_nothing_listed_after_stop_all(listed: Seq<Seq<char>>)
    requires
        listed.to_set() == Map::<Seq<char>, RunningServer>::empty().dom(),
    ensures
        listed.len() == 0,
{
    if listed.len() > 0 {
        assert(listed.contains(listed[0]));
        assert(listed.to_set().contains(listed[0]));
    }
}

/// The list of running ids is as long as the registry has ids.
pub proof fn lemma_listed_count(listed: Seq<Seq<char>>, registry: Map<Seq<char>, RunningServer>)
    requires
        listed.no_duplicates(),
        listed.to_set() == registry.dom(),
    ensures
        registry.dom().finite(),
        listed.len() == registry.dom().len(),
{
    listed.unique_seq_to_set();
    vstd::seq_lib::seq_to_set_is_finite(listed);
}

} // verus!
