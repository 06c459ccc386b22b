use vstd::prelude::*;

use std::collections::HashSet;
use vstd::std_specs::iter::IteratorSpec;

use crate::remote::protocol::{
    device_event_json, device_event_text, json_text_of, move_command_text, telemetry_event_text,
    Direction, MoveCmd, UiEvent,
};

verus! {

/// The number the registry gives a connection.
pub type ClientId = usize;

/// Which side a websocket connection belongs to.
#[derive(Copy, Clone, Debug, PartialEq, Eq, Structural)]
pub enum Role {
    Device,
    Ui,
}

/// One text frame to be written to a websocket.
pub struct Frame(pub String);

/// A frame addressed to one connection.
pub struct Delivery {
    pub to: ClientId,
    pub frame: Frame,
}

/// A connection has closed.
#[derive(Copy, Clone, Debug, PartialEq, Eq, Structural)]
pub struct Disconnect {
    pub role: Role,
    pub id: ClientId,
}

/// A browser asked the tank to move.
#[derive(Copy, Clone, Debug, PartialEq, Eq, Structural)]
pub struct Move {
    pub dir: Direction,
}

/// A device sent a telemetry object.
pub struct Telemetry {
    pub data: serde_json::Value,
}

/// The recipients of a batch of deliveries, in order.
pub open spec fn recipients(ds: Seq<Delivery>) -> Seq<ClientId> {
    ds.map_values(|d: Delivery| d.to)
}

/// `ds` carries `text` once to every member of `to`, and to nobody else.
pub open spec fn broadcast(ds: Seq<Delivery>, to: Set<ClientId>, text: Seq<char>) -> bool {
    &&& recipients(ds).no_duplicates()
    &&& recipients(ds).to_set() == to
    &&& forall|i: int| 0 <= i < ds.len() ==> (#[trigger] ds[i]).frame.0@ == text
}

/// The other role.
pub open spec fn other_role(role: Role) -> Role {
    match role {
        Role::Device => Role::Ui,
        Role::Ui => Role::Device,
    }
}

/// The connections known to the server, by role, and the next number to hand out.
pub struct Registry {
    next_id: ClientId,
    devices: HashSet<ClientId>,
    uis: HashSet<ClientId>,
}

impl Registry {
    /// Every connection has a number below `next_id`, and no number is both a
    /// device and a browser.
    #[verifier::type_invariant]
    spec fn inv(self) -> bool {
        &&& forall|x: ClientId| #[trigger] self.devices@.contains(x) ==> x < self.next_id
        &&& forall|x: ClientId| #[trigger] self.uis@.contains(x) ==> x < self.next_id
        &&& self.devices@.disjoint(self.uis@)
    }

    /// The number the next connection will get.
    pub closed spec fn next_id(&self) -> nat {
        self.next_id as nat
    }

    /// The connected devices.
    pub closed spec fn devices(&self) -> Set<ClientId> {
        self.devices@
    }

    /// The connected browsers.
    pub closed spec fn uis(&self) -> Set<ClientId> {
        self.uis@
    }

    /// The connections of one role.
    pub open spec fn clients(&self, role: Role) -> Set<ClientId> {
        match role {
            Role::Device => self.devices(),
            Role::Ui => self.uis(),
        }
    }

    /// No connection is both a device and a browser, and every connection's
    /// number is below the next one to be handed out.
    pub open spec fn well_formed(&self) -> bool {
        &&& self.devices().disjoint(self.uis())
        &&& forall|x: ClientId| #[trigger] self.devices().contains(x) ==> x < self.next_id()
        &&& forall|x: ClientId| #[trigger] self.uis().contains(x) ==> x < self.next_id()
    }

    /// Whether another connection can still get a number of its own.
    pub fn can_connect(&self) -> (res: bool)
        ensures
            res == (self.next_id() < usize::MAX),
            self.well_formed(),
    {
        proof {
            use_type_invariant(self);
        }
        self.next_id < usize::MAX
    }

    /// An empty registry.
    pub fn new() -> (res: Registry)
        ensures
            res.next_id() == 0,
            res.devices() == Set::<ClientId>::empty(),
            res.uis() == Set::<ClientId>::empty(),
            res.well_formed(),
    {
        Registry { next_id: 0, devices: HashSet::new(), uis: HashSet::new() }
    }
}

fn deliver_to_set(ids: &HashSet<ClientId>, text: &String) -> (res: Vec<Delivery>)
    ensures
        broadcast(res@, ids@, text@),
{
    broadcast use vstd::std_specs::hash::group_hash_axioms;

    let mut res: Vec<Delivery> = Vec::new();
    let ghost sent = vstd::std_specs::hash::spec_hash_keys_iter(ids).remaining().unref();
    for id in it: ids.iter()
        invariant
            recipients(res@) == it.seq().take(it.index() as int).unref(),
            it.seq().unref().to_set() == ids@,
            it.seq().unref().no_duplicates(),
            sent == it.seq().unref(),
            it.index() <= it.seq().len(),
            forall|k: int| 0 <= k < res@.len() ==> (#[trigger] res@[k]).frame.0@ == text@,
    {
        assert(*id == it.seq()[it.index() as int]);
        let ghost before = res@;
        res.push(Delivery { to: *id, frame: Frame(text.clone()) });
        assert(res@ == before.push(res@[before.len() as int]));
        assert(recipients(res@) =~= recipients(before).push(*id));
        assert(it.seq().take(it.index() + 1).unref() =~= it.seq().take(it.index() as int).unref().push(*id));
    }
    assert(recipients(res@) =~= sent);
    res
}

impl Registry {
    /// At least one device is connected.
    pub open spec fn has_device(&self) -> bool {
        self.devices() != Set::<ClientId>::empty()
    }

    /// `new` is `old` with a fresh connection `id` of `role` added.
    pub open spec fn connected(old: Registry, new: Registry, role: Role, id: ClientId) -> bool {
        &&& id == old.next_id()
        &&& !old.devices().contains(id)
        &&& !old.uis().contains(id)
        &&& new.next_id() == old.next_id() + 1
        &&& new.clients(role) == old.clients(role).insert(id)
        &&& new.clients(other_role(role)) == old.clients(other_role(role))
    }

    /// `new` is `old` without the connection `id` of `role`.
    pub open spec fn disconnected(old: Registry, new: Registry, role: Role, id: ClientId) -> bool {
        &&& new.next_id() == old.next_id()
        &&& new.clients(role) == old.clients(role).remove(id)
        &&& new.clients(other_role(role)) == old.clients(other_role(role))
    }

    /// The presence event for the current set of devices.
    pub fn device_online(&self) -> (res: UiEvent)
        ensures
            res matches UiEvent::Device { online } && online == self.has_device(),
            self.well_formed(),
    {
        broadcast use vstd::std_specs::hash::group_hash_axioms;

        proof {
            use_type_invariant(self);
        }
        let online = !self.devices.is_empty();
        UiEvent::Device { online }
    }

    /// Sends an event to every browser.
    pub fn push_uis(&self, evt: &UiEvent) -> (res: Vec<Delivery>)
        ensures
            match evt {
                UiEvent::Device { online } => broadcast(res@, self.uis(), device_event_text(*online)),
                UiEvent::Telemetry { data } => broadcast(
                    res@,
                    self.uis(),
                    telemetry_event_text(json_text_of(*data)),
                ),
            },
            self.well_formed(),
    {
        proof {
            use_type_invariant(self);
        }
        match evt.to_json() {
            Some(text) => deliver_to_set(&self.uis, &text),
            None => Vec::new(),
        }
    }

    /// Sends a drive command to every device.
    pub fn push_devices(&self, dir: Direction) -> (res: Vec<Delivery>)
        ensures
            broadcast(res@, self.devices(), move_command_text(dir)),
            self.well_formed(),
    {
        proof {
            use_type_invariant(self);
        }
        let text = MoveCmd { dir }.to_json();
        deliver_to_set(&self.devices, &text)
    }

    /// Registers a new connection of `role` and returns its number with the
    /// frames that announce it: a device's arrival goes to every browser, a
    /// browser gets the current device presence.
    pub fn handle_connect(&mut self, role: Role) -> (res: (ClientId, Vec<Delivery>))
        requires
            old(self).next_id() < usize::MAX,
        ensures
            Registry::connected(*old(self), *final(self), role, res.0),
            role == Role::Device ==> broadcast(res.1@, final(self).uis(), device_event_text(true)),
            role == Role::Ui ==> broadcast(
                res.1@,
                set![res.0],
                device_event_text(old(self).has_device()),
            ),
            final(self).well_formed(),
    {
        broadcast use vstd::std_specs::hash::group_hash_axioms;

        proof {
            use_type_invariant(&*self);
        }
        let id = self.next_id;
        self.next_id = self.next_id + 1;
        match role {
            Role::Device => {
                let mut devices: HashSet<ClientId> = HashSet::new();
                std::mem::swap(&mut devices, &mut self.devices);
                devices.insert(id);
                self.devices = devices;
                assert(self.devices().contains(id));
                let evt = self.device_online();
                let out = self.push_uis(&evt);
                proof {
                    use_type_invariant(&*self);
                }
                (id, out)
            },
            Role::Ui => {
                let evt = self.device_online();
                let online = match evt {
                    UiEvent::Device { online } => online,
                    UiEvent::Telemetry { .. } => false,
                };
                let hello = device_event_json(online);
                let mut out: Vec<Delivery> = Vec::new();
                out.push(Delivery { to: id, frame: Frame(hello) });
                let mut uis: HashSet<ClientId> = HashSet::new();
                std::mem::swap(&mut uis, &mut self.uis);
                uis.insert(id);
                self.uis = uis;
                proof {
                    use_type_invariant(&*self);
                    assert(recipients(out@) =~= seq![id]);
                    assert(seq![id][0] == id);
                    assert(seq![id].to_set() =~= set![id]);
                }
                (id, out)
            },
        }
    }

    /// Forgets the connection `msg.id` of `msg.role`. Browsers learn the new
    /// device presence when a registered device leaves; nothing else is sent.
    pub fn handle_disconnect(&mut self, msg: Disconnect) -> (res: Vec<Delivery>)
        ensures
            Registry::disconnected(*old(self), *final(self), msg.role, msg.id),
            msg.role == Role::Device && old(self).devices().contains(msg.id) ==> broadcast(
                res@,
                final(self).uis(),
                device_event_text(final(self).has_device()),
            ),
            !(msg.role == Role::Device && old(self).devices().contains(msg.id)) ==> res@.len()
                == 0,
            final(self).well_formed(),
    {
        broadcast use vstd::std_specs::hash::group_hash_axioms;

        proof {
            use_type_invariant(&*self);
        }
        match msg.role {
            Role::Device => {
                let mut devices: HashSet<ClientId> = HashSet::new();
                std::mem::swap(&mut devices, &mut self.devices);
                let removed = devices.remove(&msg.id);
                self.devices = devices;
                proof {
                    use_type_invariant(&*self);
                }
                if removed {
                    let evt = self.device_online();
                    self.push_uis(&evt)
                } else {
                    Vec::new()
                }
            },
            Role::Ui => {
                let mut uis: HashSet<ClientId> = HashSet::new();
                std::mem::swap(&mut uis, &mut self.uis);
                let _ = uis.remove(&msg.id);
                self.uis = uis;
                proof {
                    use_type_invariant(&*self);
                }
                Vec::new()
            },
        }
    }

    /// Relays a browser's drive command to every device.
    pub fn handle_move(&self, msg: Move) -> (res: Vec<Delivery>)
        ensures
            broadcast(res@, self.devices(), move_command_text(msg.dir)),
            self.well_formed(),
    {
        self.push_devices(msg.dir)
    }

    /// Relays a device's telemetry to every browser as
    /// `{"evt":"telemetry","data":<the data's JSON text>}`.
    pub fn handle_telemetry(&self, msg: Telemetry) -> (res: Vec<Delivery>)
        ensures
            broadcast(res@, self.uis(), telemetry_event_text(json_text_of(msg.data))),
            self.well_formed(),
    {
        let evt = UiEvent::Telemetry { data: msg.data };
        self.push_uis(&evt)
    }
}

/// Closing a connection undoes opening it: the registry again holds exactly the
/// devices and browsers it held before, and the number is not handed out again.
pub proof fn lemma_connect_then_disconnect_restores(
    r0: Registry,
    r1: Registry,
    r2: Registry,
    role: Role,
    id: ClientId,
)
    requires
        Registry::connected(r0, r1, role, id),
        Registry::disconnected(r1, r2, role, id),
    ensures
        r2.devices() == r0.devices(),
        r2.uis() == r0.uis(),
        r2.next_id() > id,
{
    assert(r0.clients(role).insert(id).remove(id) =~= r0.clients(role));
}

/// Connections get increasing numbers, so a number never names two of them, and
/// a later connection leaves an earlier one registered.
pub proof fn lemma_connect_ids_increase(
    r0: Registry,
    r1: Registry,
    r2: Registry,
    role1: Role,
    role2: Role,
    id1: ClientId,
    id2: ClientId,
)
    requires
        Registry::connected(r0, r1, role1, id1),
        Registry::connected(r1, r2, role2, id2),
    ensures
        id1 < id2,
        r2.clients(role1).contains(id1),
{
}

/// One message the registry has handled; a connection carries the number it got.
pub enum RegistryStep {
    Connect(Role, ClientId),
    Disconnect(Disconnect),
    Move,
    Telemetry,
}

/// `new` is what handling `step` makes of `old`, as the handlers state it
/// (relaying a move or telemetry leaves the registry as it is).
pub open spec fn step_taken(old: Registry, new: Registry, step: RegistryStep) -> bool {
    match step {
        RegistryStep::Connect(role, id) => Registry::connected(old, new, role, id),
        RegistryStep::Disconnect(msg) => Registry::disconnected(old, new, msg.role, msg.id),
        RegistryStep::Move | RegistryStep::Telemetry => new == old,
    }
}

/// How many connections a run of steps opened.
pub open spec fn connect_count(steps: Seq<RegistryStep>) -> nat
    decreases steps.len(),
{
    if steps.len() == 0 {
        0
    } else {
        connect_count(steps.drop_last()) + if steps.last() is Connect {
            1nat
        } else {
            0nat
        }
    }
}

proof fn lemma_next_id_counts_connects(states: Seq<Registry>, steps: Seq<RegistryStep>, i: int)
    requires
        states.len() == steps.len() + 1,
        states[0].next_id() == 0,
        forall|k: int| 0 <= k < steps.len() ==> step_taken(states[k], states[k + 1], #[trigger] steps[k]),
        0 <= i <= steps.len(),
    ensures
        states[i].next_id() == connect_count(steps.take(i)),
    decreases i,
{
    if i > 0 {
        lemma_next_id_counts_connects(states, steps, i - 1);
        assert(steps.take(i).drop_last() =~= steps.take(i - 1));
        assert(step_taken(states[i - 1], states[i], steps[i - 1]));
    } else {
        assert(steps.take(0).len() == 0);
    }
}

/// Over any run of handled messages that starts from an empty registry, the
/// k-th connection (counting from 0, of either role) gets the number k, so
/// numbers are never handed out twice, even after earlier connections closed.
pub proof fn lemma_kth_connect_gets_k(states: Seq<Registry>, steps: Seq<RegistryStep>)
    requires
        states.len() == steps.len() + 1,
        states[0].next_id() == 0,
        forall|k: int| 0 <= k < steps.len() ==> step_taken(states[k], states[k + 1], #[trigger] steps[k]),
    ensures
        forall|i: int|
            0 <= i < steps.len() ==> (#[trigger] steps[i] matches RegistryStep::Connect(_, id) ==> id
                == connect_count(steps.take(i))),
        forall|i: int, j: int|
            0 <= i < j < steps.len() && (#[trigger] steps[i]) is Connect && (#[trigger] steps[j]) is Connect
                ==> steps[i]->Connect_1 < steps[j]->Connect_1,
{
    assert forall|i: int| 0 <= i < steps.len() implies (#[trigger] steps[i] matches RegistryStep::Connect(_, id) ==> id
        == connect_count(steps.take(i))) by {
        lemma_next_id_counts_connects(states, steps, i);
    }
    assert forall|i: int, j: int|
        0 <= i < j < steps.len() && (#[trigger] steps[i]) is Connect && (#[trigger] steps[j]) is Connect
            implies steps[i]->Connect_1 < steps[j]->Connect_1 by {
        lemma_next_id_counts_connects(states, steps, i);
        lemma_next_id_counts_connects(states, steps, i + 1);
        lemma_next_id_counts_connects(states, steps, j);
        lemma_next_id_nondecreasing(states, steps, i + 1, j);
    }
}

proof fn lemma_next_id_nondecreasing(states: Seq<Registry>, steps: Seq<RegistryStep>, i: int, j: int)
    requires
        states.len() == steps.len() + 1,
        forall|k: int| 0 <= k < steps.len() ==> step_taken(states[k], states[k + 1], #[trigger] steps[k]),
        0 <= i <= j <= steps.len(),
    ensures
        states[i].next_id() <= states[j].next_id(),
    decreases j - i,
{
    if i < j {
        lemma_next_id_nondecreasing(states, steps, i, j - 1);
        assert(step_taken(states[j - 1], states[j], steps[j - 1]));
    }
}

/// A registry counts as having a device exactly when some device is
/// registered, however many there are.
pub proof fn lemma_has_device_iff_some_device(r: Registry)
    ensures
        r.has_device() <==> exists|x: ClientId| r.devices().contains(x),
{
    if r.has_device() {
        assert(!(r.devices() =~= Set::<ClientId>::empty()));
        let x = choose|x: ClientId| r.devices().contains(x) != Set::<ClientId>::empty().contains(x);
        assert(r.devices().contains(x));
    }
}

/// A browser that joins while any device is connected is told the tank is
/// online; one that joins while none is is told it is offline.
pub proof fn lemma_hello_reports_presence(
    r0: Registry,
    r1: Registry,
    id: ClientId,
    ds: Seq<Delivery>,
    online: bool,
)
    requires
        Registry::connected(r0, r1, Role::Ui, id),
        broadcast(ds, set![id], device_event_text(r0.has_device())),
        online == (exists|x: ClientId| r0.devices().contains(x)),
    ensures
        broadcast(ds, set![id], device_event_text(online)),
{
    lemma_has_device_iff_some_device(r0);
}

} // verus!
