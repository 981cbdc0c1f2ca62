use std::collections::HashMap;

use vstd::prelude::*;

use crate::api::TableId;

verus! {

broadcast use vstd::std_specs::hash::group_hash_axioms;

// ---------------------------------------------------------------- client side

/// What a client holds for a table while a reply is outstanding: bytes that
/// arrived before anyone asked for them, or a reader that waits for the next
/// message.
pub enum Pending {
    Ready(Vec<u8>),
    Waiting,
}

/// The state of one table's slot, as a mathematical value.
pub enum Slot {
    Ready(Seq<u8>),
    Waiting,
}

/// The slot that a pending entry stands for.
pub open spec fn slot_of(p: Pending) -> Slot {
    match p {
        Pending::Ready(b) => Slot::Ready(b@),
        Pending::Waiting => Slot::Waiting,
    }
}

/// The bytes of a slot that are ready to be read; none where the slot is
/// empty or waits.
pub open spec fn ready_bytes(m: Map<TableId, Slot>, id: TableId) -> Seq<u8> {
    if m.contains_key(id) {
        match m[id] {
            Slot::Ready(b) => b,
            Slot::Waiting => Seq::empty(),
        }
    } else {
        Seq::empty()
    }
}

/// Whether a reader waits for the table's next message.
pub open spec fn is_waiting(m: Map<TableId, Slot>, id: TableId) -> bool {
    m.contains_key(id) && m[id] is Waiting
}

/// The slots after a message for table `id` arrives, and the bytes handed to
/// a waiting reader, if one waited: a waiting reader gets the message and
/// the slot is cleared; otherwise the message is appended to the bytes that
/// are ready.
pub open spec fn deliver_spec(m: Map<TableId, Slot>, id: TableId, payload: Seq<u8>) -> (Map<TableId, Slot>, Option<Seq<u8>>) {
    if is_waiting(m, id) {
        (m.remove(id), Some(payload))
    } else {
        (m.insert(id, Slot::Ready(ready_bytes(m, id) + payload)), None)
    }
}

/// The slots after a reader asks for table `id`, and the bytes it reads at
/// once, if any: bytes that are ready are handed over and the slot cleared;
/// where none are, the reader is registered to wait.
pub open spec fn take_spec(m: Map<TableId, Slot>, id: TableId) -> (Map<TableId, Slot>, Option<Seq<u8>>) {
    if m.contains_key(id) {
        (m.remove(id), Some(ready_bytes(m, id)))
    } else {
        (m.insert(id, Slot::Waiting), None)
    }
}

/// The replies a client has received per table, and which tables a reader
/// waits on.
pub struct RecvBuffer {
    entries: HashMap<TableId, Pending>,
}

impl RecvBuffer {
    /// The slots, per table.
    pub closed spec fn slots(&self) -> Map<TableId, Slot> {
        self.entries@.map_values(|p: Pending| slot_of(p))
    }

    /// A buffer with no slots.
    pub fn new() -> (b: RecvBuffer)
        ensures
            b.slots() == Map::<TableId, Slot>::empty(),
    {
        let b = RecvBuffer { entries: HashMap::new() };
        assert(b.slots() =~= Map::<TableId, Slot>::empty());
        b
    }

    /// Whether a reader waits on the table.
    pub fn waits(&self, id: TableId) -> (r: bool)
        ensures
            r == is_waiting(self.slots(), id),
    {
        match self.entries.get(&id) {
            Some(Pending::Waiting) => true,
            _ => false,
        }
    }

    /// Takes in a message for table `id`. Where a reader waits, the message
    /// is returned for it; otherwise it is kept.
    pub fn deliver(&mut self, id: TableId, payload: Vec<u8>) -> (r: Option<Vec<u8>>)
        ensures
            final(self).slots() == deliver_spec(old(self).slots(), id, payload@).0,
            match r {
                Some(v) => deliver_spec(old(self).slots(), id, payload@).1 == Some(v@),
                None => deliver_spec(old(self).slots(), id, payload@).1 is None,
            },
    {
        let ghost before = self.slots();
        match self.entries.remove(&id) {
            Some(Pending::Ready(mut buf)) => {
                let mut more = payload;
                buf.append(&mut more);
                self.entries.insert(id, Pending::Ready(buf));
                assert(self.slots() =~= deliver_spec(before, id, payload@).0);
                None
            },
            Some(Pending::Waiting) => {
                assert(self.slots() =~= deliver_spec(before, id, payload@).0);
                Some(payload)
            },
            None => {
                self.entries.insert(id, Pending::Ready(payload));
                assert(self.slots() =~= deliver_spec(before, id, payload@).0);
                None
            },
        }
    }

    /// A reader asks for the next reply of table `id`: the bytes that are
    /// ready are handed over, or, where there are none, the reader is
    /// registered to wait. Only one reader may wait on a table.
    pub fn take(&mut self, id: TableId) -> (r: Option<Vec<u8>>)
        requires
            !is_waiting(old(self).slots(), id),
        ensures
            final(self).slots() == take_spec(old(self).slots(), id).0,
            match r {
                Some(v) => take_spec(old(self).slots(), id).1 == Some(v@),
                None => take_spec(old(self).slots(), id).1 is None,
            },
    {
        let ghost before = self.slots();
        match self.entries.remove(&id) {
            Some(Pending::Ready(bytes)) => {
                assert(self.slots() =~= take_spec(before, id).0);
                Some(bytes)
            },
            Some(Pending::Waiting) => {
                assert(false);
                None
            },
            None => {
                self.entries.insert(id, Pending::Waiting);
                assert(self.slots() =~= take_spec(before, id).0);
                None
            },
        }
    }
}

/// A reader that finds nothing waits, and the next message for the table is
/// handed to it whole; the slot is then free again.
pub proof fn lemma_waiting_reader_gets_next(m: Map<TableId, Slot>, id: TableId, payload: Seq<u8>)
    requires
        !m.contains_key(id),
    ensures
        ({
            let (m1, r1) = take_spec(m, id);
            let (m2, r2) = deliver_spec(m1, id, payload);
            &&& r1 is None
            &&& is_waiting(m1, id)
            &&& r2 == Some(payload)
            &&& m2 == m
        }),
{
    let (m1, r1) = take_spec(m, id);
    assert(m1.remove(id) =~= m);
}

/// Messages and reads for one table leave the slots of all other tables as
/// they were.
pub proof fn lemma_other_tables_untouched(m: Map<TableId, Slot>, id: TableId, other: TableId, payload: Seq<u8>)
    requires
        other != id,
    ensures
        deliver_spec(m, id, payload).0.contains_key(other) == m.contains_key(other),
        take_spec(m, id).0.contains_key(other) == m.contains_key(other),
        m.contains_key(other) ==> deliver_spec(m, id, payload).0[other] == m[other],
        m.contains_key(other) ==> take_spec(m, id).0[other] == m[other],
{
}

/// The slots after the given messages for table `id` arrive one after
/// another.
pub open spec fn deliver_all_spec(m: Map<TableId, Slot>, id: TableId, msgs: Seq<Seq<u8>>) -> Map<TableId, Slot>
    decreases msgs.len(),
{
    if msgs.len() == 0 {
        m
    } else {
        deliver_spec(deliver_all_spec(m, id, msgs.drop_last()), id, msgs.last()).0
    }
}

/// Any number of messages that arrive for a table while nobody waits are
/// kept, none handed out, and a reader that then asks gets them all joined
/// in the order they came; the slots are then as before the first message.
pub proof fn lemma_reads_get_all_that_arrived(m: Map<TableId, Slot>, id: TableId, msgs: Seq<Seq<u8>>)
    requires
        !m.contains_key(id),
        msgs.len() > 0,
    ensures
        forall|j: int| 0 <= j < msgs.len() ==>
            (#[trigger] deliver_spec(deliver_all_spec(m, id, msgs.take(j)), id, msgs[j])).1 is None,
        ready_bytes(deliver_all_spec(m, id, msgs), id) == msgs.flatten(),
        take_spec(deliver_all_spec(m, id, msgs), id) == (m, Some(msgs.flatten())),
{
    lemma_deliver_all_keeps(m, id, msgs);
    let m1 = deliver_all_spec(m, id, msgs);
    assert(m1.remove(id) =~= m);
    assert forall|j: int| 0 <= j < msgs.len() implies
        (#[trigger] deliver_spec(deliver_all_spec(m, id, msgs.take(j)), id, msgs[j])).1 is None by {
        lemma_deliver_all_keeps(m, id, msgs.take(j));
    }
}

/// While nobody waits, the slot of table `id` after the messages arrive holds
/// them joined in order, or is absent where none arrived; the other slots
/// are as they were.
proof fn lemma_deliver_all_keeps(m: Map<TableId, Slot>, id: TableId, msgs: Seq<Seq<u8>>)
    requires
        !m.contains_key(id),
    ensures
        msgs.len() == 0 ==> deliver_all_spec(m, id, msgs) == m,
        msgs.len() > 0 ==> deliver_all_spec(m, id, msgs) == m.insert(id, Slot::Ready(msgs.flatten())),
    decreases msgs.len(),
{
    broadcast use Seq::lemma_flatten_push;
    if msgs.len() > 0 {
        let prev = msgs.drop_last();
        lemma_deliver_all_keeps(m, id, prev);
        assert(prev.push(msgs.last()) == msgs);
        if prev.len() == 0 {
            assert(prev.flatten() == Seq::<u8>::empty());
            assert(ready_bytes(m, id) == Seq::<u8>::empty());
            assert(Seq::<u8>::empty() + msgs.last() == msgs.last());
        }
        assert(deliver_all_spec(m, id, msgs) =~= m.insert(id, Slot::Ready(msgs.flatten())));
    }
}

// ---------------------------------------------------------------- browser socket

/// The bytes a browser socket keeps per table. A table's bytes are kept
/// only once it has been read from; messages for other tables are dropped.
pub struct SocketBuffer {
    entries: HashMap<TableId, Vec<u8>>,
}

/// The kept bytes after a message for table `id` arrives.
pub open spec fn socket_message_spec(m: Map<TableId, Seq<u8>>, id: TableId, payload: Seq<u8>) -> Map<TableId, Seq<u8>> {
    if m.contains_key(id) {
        m.insert(id, m[id] + payload)
    } else {
        m
    }
}

/// The bytes a read of table `id` returns: all that were kept for it.
pub open spec fn socket_read_spec(m: Map<TableId, Seq<u8>>, id: TableId) -> Seq<u8> {
    if m.contains_key(id) {
        m[id]
    } else {
        Seq::empty()
    }
}

impl SocketBuffer {
    /// The kept bytes, per table.
    pub closed spec fn kept(&self) -> Map<TableId, Seq<u8>> {
        self.entries@.map_values(|v: Vec<u8>| v@)
    }

    /// A buffer that keeps nothing.
    pub fn new() -> (b: SocketBuffer)
        ensures
            b.kept() == Map::<TableId, Seq<u8>>::empty(),
    {
        let b = SocketBuffer { entries: HashMap::new() };
        assert(b.kept() =~= Map::<TableId, Seq<u8>>::empty());
        b
    }

    /// Takes in a message for table `id`: appended to the table's bytes if
    /// the table has been read from, dropped otherwise.
    pub fn on_message(&mut self, id: TableId, payload: Vec<u8>)
        ensures
            final(self).kept() == socket_message_spec(old(self).kept(), id, payload@),
    {
        let ghost before = self.kept();
        match self.entries.remove(&id) {
            Some(mut buf) => {
                let mut more = payload;
                buf.append(&mut more);
                self.entries.insert(id, buf);
                assert(self.kept() =~= socket_message_spec(before, id, payload@));
            },
            None => {
                assert(self.kept() =~= before);
            },
        }
    }

    /// Reads table `id`: all bytes kept for it are returned and the table is
    /// kept from now on, with no bytes.
    pub fn recv(&mut self, id: TableId) -> (r: Vec<u8>)
        ensures
            r@ == socket_read_spec(old(self).kept(), id),
            final(self).kept() == old(self).kept().insert(id, Seq::empty()),
    {
        let ghost before = self.kept();
        let r = match self.entries.remove(&id) {
            Some(buf) => buf,
            None => Vec::new(),
        };
        self.entries.insert(id, Vec::new());
        assert(self.kept() =~= before.insert(id, Seq::empty()));
        r
    }
}

/// The kept bytes after the given messages for table `id` arrive one after
/// another.
pub open spec fn socket_messages_spec(m: Map<TableId, Seq<u8>>, id: TableId, msgs: Seq<Seq<u8>>) -> Map<TableId, Seq<u8>>
    decreases msgs.len(),
{
    if msgs.len() == 0 {
        m
    } else {
        socket_message_spec(socket_messages_spec(m, id, msgs.drop_last()), id, msgs.last())
    }
}

/// Any number of messages for a table that has never been read from are
/// lost; once it has been read from, the next read returns all the messages
/// that followed, joined in the order they came, and leaves the table kept
/// with no bytes.
pub proof fn lemma_socket_read_gets_all_after_first_read(m: Map<TableId, Seq<u8>>, id: TableId, msgs: Seq<Seq<u8>>)
    requires
        !m.contains_key(id),
    ensures
        socket_messages_spec(m, id, msgs) == m,
        ({
            let m0 = m.insert(id, Seq::empty());
            let m1 = socket_messages_spec(m0, id, msgs);
            &&& m1 == m0.insert(id, msgs.flatten())
            &&& socket_read_spec(m1, id) == msgs.flatten()
        }),
    decreases msgs.len(),
{
    broadcast use Seq::lemma_flatten_push;
    if msgs.len() == 0 {
        assert(msgs.flatten() == Seq::<u8>::empty());
        assert(m.insert(id, Seq::empty()).insert(id, Seq::<u8>::empty()) =~= m.insert(id, Seq::empty()));
    } else {
        let prev = msgs.drop_last();
        lemma_socket_read_gets_all_after_first_read(m, id, prev);
        assert(prev.push(msgs.last()) == msgs);
        let m0 = m.insert(id, Seq::empty());
        let p = socket_messages_spec(m0, id, prev);
        assert(p == m0.insert(id, prev.flatten()));
        assert(socket_messages_spec(m0, id, msgs) =~= m0.insert(id, msgs.flatten()));
    }
}

// ---------------------------------------------------------------- server side

/// The tables a server holds, by id, and the id the next table gets.
pub struct TableRegistry<T> {
    next_id: TableId,
    tables: HashMap<TableId, T>,
}

/// The id after `id`, counting round from the largest id back to 0.
pub open spec fn following_id(id: TableId) -> TableId {
    if id == u32::MAX { 0 } else { (id + 1) as u32 }
}

impl<T> TableRegistry<T> {
    /// The id the next table gets.
    pub closed spec fn next(&self) -> TableId {
        self.next_id
    }

    /// The tables, by id.
    pub closed spec fn table_map(&self) -> Map<TableId, T> {
        self.tables@
    }

    /// A registry with no tables, whose first table gets id 1.
    pub fn new() -> (r: TableRegistry<T>)
        ensures
            r.next() == 1,
            r.table_map() == Map::<TableId, T>::empty(),
    {
        TableRegistry { next_id: 1, tables: HashMap::new() }
    }

    /// Adds a table under the next id and returns that id; ids are handed out
    /// in turn, counting round past the largest id.
    pub fn create(&mut self, table: T) -> (id: TableId)
        ensures
            id == old(self).next(),
            final(self).next() == following_id(old(self).next()),
            final(self).table_map() == old(self).table_map().insert(id, table),
    {
        let id = self.next_id;
        self.next_id = self.next_id.wrapping_add(1);
        self.tables.insert(id, table);
        id
    }

    /// The table with the given id, if there is one.
    pub fn get(&self, id: TableId) -> (r: Option<&T>)
        ensures
            match r {
                Some(t) => self.table_map().contains_key(id) && self.table_map()[id] == *t,
                None => !self.table_map().contains_key(id),
            },
    {
        self.tables.get(&id)
    }

    /// Whether there is a table with the given id.
    pub fn contains(&self, id: TableId) -> (r: bool)
        ensures
            r == self.table_map().contains_key(id),
    {
        self.tables.contains_key(&id)
    }
}

/// A request a client sends about a table.
#[derive(Clone, Copy, Debug, PartialEq, Eq, Structural)]
pub enum ClientRequest {
    MakeTable,
    TableSize,
    TableSchema,
    TableMakePort,
    Other,
}

/// What a server does about a request.
#[derive(Clone, Copy, Debug, PartialEq, Eq, Structural)]
pub enum ServerAction {
    /// Make a new table and reply with its id.
    CreateTable,
    /// Reply with the number of rows of the table with this id.
    ReportSize(TableId),
    /// Send no reply.
    Ignore,
}

/// What the server does about a request sent with table id `id`, given
/// whether it holds a table of that id: it makes
/// tables and reports the size of tables it holds; requests about tables it
/// does not hold, and other requests, get no reply.
pub open spec fn server_action_spec(holds_table: bool, id: TableId, req: ClientRequest) -> ServerAction {
    match req {
        ClientRequest::MakeTable => ServerAction::CreateTable,
        ClientRequest::TableSize => if holds_table {
            ServerAction::ReportSize(id)
        } else {
            ServerAction::Ignore
        },
        _ => ServerAction::Ignore,
    }
}

/// Decides what the server does about a request sent with table id `id`.
pub fn server_action<T>(registry: &TableRegistry<T>, id: TableId, req: ClientRequest) -> (r: ServerAction)
    ensures
        r == server_action_spec(registry.table_map().contains_key(id), id, req),
{
    match req {
        ClientRequest::MakeTable => ServerAction::CreateTable,
        ClientRequest::TableSize => {
            if registry.contains(id) {
                ServerAction::ReportSize(id)
            } else {
                ServerAction::Ignore
            }
        },
        _ => ServerAction::Ignore,
    }
}

/// A table is found again under the id it was created with, and two tables
/// created one after the other get different ids.
pub proof fn lemma_created_tables_found<T>(m: Map<TableId, T>, next: TableId, a: T, b: T)
    ensures
        ({
            let m1 = m.insert(next, a);
            let m2 = m1.insert(following_id(next), b);
            &&& following_id(next) != next
            &&& m2.contains_key(next) && m2[next] == a
            &&& m2.contains_key(following_id(next)) && m2[following_id(next)] == b
        }),
{
}

/// What an in-memory client acting as a server does about a request.
#[derive(Clone, Copy, Debug, PartialEq, Eq, Structural)]
pub enum MemoryAction {
    /// Make a new table and reply with its id.
    CreateTable,
    /// Reply with the number of rows of the table with this id.
    ReportSize(TableId),
    /// Reply with the schema of the table with this id.
    ReportSchema(TableId),
    /// Reply with a new port of the table with this id.
    ReportPort(TableId),
}

/// What the in-memory client does about a request sent with table id `id`.
pub open spec fn memory_action_spec(id: TableId, req: ClientRequest) -> MemoryAction {
    match req {
        ClientRequest::TableSize => MemoryAction::ReportSize(id),
        ClientRequest::TableSchema => MemoryAction::ReportSchema(id),
        ClientRequest::TableMakePort => MemoryAction::ReportPort(id),
        _ => MemoryAction::CreateTable,
    }
}

/// Decides what an in-memory client that serves a remote one does about a
/// request sent with table id `id`. It serves only the four table requests,
/// and requests about a table must name one that it holds.
pub fn memory_client_action<T>(registry: &TableRegistry<T>, id: TableId, req: ClientRequest) -> (r: MemoryAction)
    requires
        req != ClientRequest::Other,
        req != ClientRequest::MakeTable ==> registry.table_map().contains_key(id),
    ensures
        r == memory_action_spec(id, req),
{
    match req {
        ClientRequest::TableSize => MemoryAction::ReportSize(id),
        ClientRequest::TableSchema => MemoryAction::ReportSchema(id),
        ClientRequest::TableMakePort => MemoryAction::ReportPort(id),
        _ => MemoryAction::CreateTable,
    }
}

/// Each request is answered by the action of its kind, about the table it
/// names: the server makes a table for a make-table request, reports the
/// size of a table it holds for a size request, and answers nothing else;
/// the in-memory client makes a table, or reports the size, the schema or a
/// new port of the named table, for the matching request.
pub proof fn lemma_request_answers(holds_table: bool, id: TableId, req: ClientRequest)
    ensures
        server_action_spec(holds_table, id, ClientRequest::MakeTable) == ServerAction::CreateTable,
        server_action_spec(true, id, ClientRequest::TableSize) == ServerAction::ReportSize(id),
        server_action_spec(false, id, ClientRequest::TableSize) == ServerAction::Ignore,
        req != ClientRequest::MakeTable && req != ClientRequest::TableSize
            ==> server_action_spec(holds_table, id, req) == ServerAction::Ignore,
        memory_action_spec(id, ClientRequest::MakeTable) == MemoryAction::CreateTable,
        memory_action_spec(id, ClientRequest::TableSize) == MemoryAction::ReportSize(id),
        memory_action_spec(id, ClientRequest::TableSchema) == MemoryAction::ReportSchema(id),
        memory_action_spec(id, ClientRequest::TableMakePort) == MemoryAction::ReportPort(id),
{
}

/// The next id, the tables, and the ids handed out, after
/// `TableRegistry::create` is called once for each of the given tables, in
/// order, on a registry whose next id is `next` and whose tables are `m`
/// (each call as its contract states it).
pub open spec fn creates_spec<T>(next: TableId, m: Map<TableId, T>, tables: Seq<T>) -> (TableId, Map<TableId, T>, Seq<TableId>)
    decreases tables.len(),
{
    if tables.len() == 0 {
        (next, m, Seq::empty())
    } else {
        let (n, m1, ids) = creates_spec(next, m, tables.drop_last());
        (following_id(n), m1.insert(n, tables.last()), ids.push(n))
    }
}

/// In a new registry, the tables created one after another get the ids
/// 1, 2, ..., n in turn, all different and increasing, and each is found
/// under its id; no other id holds a table, and the next id is n + 1. This
/// holds for fewer creates than there are ids.
pub proof fn lemma_fresh_registry_ids<T>(tables: Seq<T>)
    requires
        tables.len() < u32::MAX,
    ensures
        ({
            let (next, m, ids) = creates_spec(1, Map::<TableId, T>::empty(), tables);
            &&& ids.len() == tables.len()
            &&& forall|j: int| 0 <= j < ids.len() ==> #[trigger] ids[j] == j + 1
            &&& forall|i: int, j: int| 0 <= i < j < ids.len() ==> ids[i] < ids[j]
            &&& next == tables.len() + 1
            &&& forall|j: int| 0 <= j < tables.len() ==> m.contains_key((j + 1) as TableId) && m[(j + 1) as TableId] == tables[j]
            &&& forall|k: TableId| #[trigger] m.contains_key(k) <==> 1 <= k <= tables.len()
        }),
    decreases tables.len(),
{
    if tables.len() > 0 {
        let prev = tables.drop_last();
        lemma_fresh_registry_ids(prev);
        let (n, m1, ids) = creates_spec(1, Map::<TableId, T>::empty(), prev);
        let (next, m, ids2) = creates_spec(1, Map::<TableId, T>::empty(), tables);
        assert(ids2 == ids.push(n));
        assert forall|j: int| 0 <= j < tables.len() implies m.contains_key((j + 1) as TableId) && m[(j + 1) as TableId] == tables[j] by {
            if j < prev.len() {
                assert(prev[j] == tables[j]);
            }
        }
    }
}

} // verus!
