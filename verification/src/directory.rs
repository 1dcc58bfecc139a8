//! The port directory: index-to-port routing and the write-back scan.
//!
//! The directory maps a numeric port index to either a control port or an
//! atom port.  Its shape is fixed once built — ports are added in ascending
//! index order at construction time and never removed — while the ports
//! themselves stay mutable.  `port_event` routes one inbound host event to
//! the addressed port, rejecting anything malformed without touching any
//! port.  `scan_and_emit` walks the ports in index order, collects exactly
//! the pending outbound state, and clears what it collected.

use vstd::prelude::*;

use crate::buffer::buf_empty;
use crate::errors::DispatchError;
use crate::ports::{
    atom_after_inbound, atom_inbound_result, atom_new, control_after_read, control_new,
    control_set_value, AtomModel, ControlModel, UIAtomPort, UIControlPort,
};
use vstd::bytes::{spec_u32_from_le_bytes, spec_u32_to_le_bytes, u32_from_le_bytes, u32_to_le_bytes};
use vstd::pervasive::unreached;

verus! {

/// A directory slot: one port of either kind.
pub enum UIPort {
    Control(UIControlPort),
    Atom(UIAtomPort),
}

/// Mathematical model of a directory slot.
pub enum PortModel {
    Control(ControlModel),
    Atom(AtomModel),
}

impl View for UIPort {
    type V = PortModel;

    closed spec fn view(&self) -> PortModel {
        match self {
            UIPort::Control(c) => PortModel::Control(c@),
            UIPort::Atom(a) => PortModel::Atom(a@),
        }
    }
}

/// The index a port answers to.
pub open spec fn port_index(p: PortModel) -> u32 {
    match p {
        PortModel::Control(c) => c.index,
        PortModel::Atom(a) => a.index,
    }
}

/// A single port is well formed when its tag respects the reservation of
/// tag zero for scalars: an atom port's tag is nonzero.
pub open spec fn port_wf(p: PortModel) -> bool {
    match p {
        PortModel::Control(_) => true,
        PortModel::Atom(a) => a.urid != 0,
    }
}

/// A directory is well formed when its ports stand in strictly ascending
/// index order (so indices are unique and a scan in storage order is a scan
/// in index order) and each port is well formed.
pub open spec fn dir_wf(s: Seq<PortModel>) -> bool {
    &&& forall|i: int, j: int|
        0 <= i < j < s.len() ==> port_index(#[trigger] s[i]) < port_index(#[trigger] s[j])
    &&& forall|i: int| 0 <= i < s.len() ==> port_wf(#[trigger] s[i])
}

/// Whether some port answers to `index`.
pub open spec fn has_port(s: Seq<PortModel>, index: u32) -> bool {
    exists|i: int| 0 <= i < s.len() && port_index(#[trigger] s[i]) == index
}

/// The position of the port answering to `index`; meaningful when
/// `has_port` holds and indices are unique.
pub open spec fn lookup(s: Seq<PortModel>, index: u32) -> int {
    choose|i: int| 0 <= i < s.len() && port_index(#[trigger] s[i]) == index
}

/// What one port answers to an inbound event, given the event's tag and
/// payload: a control port takes only tag zero with exactly four payload
/// bytes; an atom port takes only a nonzero tag equal to its own.
pub open spec fn port_accept_result(p: PortModel, type_tag: u32, payload: Seq<u8>) -> Result<
    (),
    DispatchError,
> {
    match p {
        PortModel::Control(c) => {
            if type_tag != 0 {
                Err(DispatchError::ProtocolMismatch)
            } else if payload.len() != 4 {
                Err(DispatchError::SizeMismatch)
            } else {
                Ok(())
            }
        },
        PortModel::Atom(a) => {
            if type_tag == 0 {
                Err(DispatchError::ProtocolMismatch)
            } else {
                atom_inbound_result(a, type_tag)
            }
        },
    }
}

/// The port after an inbound event: on acceptance a control port takes the
/// payload's four bytes as its new value, an atom port fills its inbound
/// mailbox; on any rejection the port is exactly as it was.
pub open spec fn port_after_accept(p: PortModel, type_tag: u32, payload: Seq<u8>) -> PortModel {
    match p {
        PortModel::Control(c) => {
            if type_tag == 0 && payload.len() == 4 {
                PortModel::Control(control_set_value(c, spec_u32_from_le_bytes(payload)))
            } else {
                p
            }
        },
        PortModel::Atom(a) => {
            if type_tag == 0 {
                p
            } else {
                PortModel::Atom(atom_after_inbound(a, type_tag, payload))
            }
        },
    }
}

/// What `port_event` reports for one inbound event.
pub open spec fn dispatch_result(
    s: Seq<PortModel>,
    index: u32,
    type_tag: u32,
    payload: Seq<u8>,
) -> Result<(), DispatchError> {
    if !has_port(s, index) {
        Err(DispatchError::UnknownPortIndex)
    } else {
        port_accept_result(s[lookup(s, index)], type_tag, payload)
    }
}

/// The directory after one inbound event: only the addressed port can
/// move, and only on acceptance.
pub open spec fn dispatch_after(
    s: Seq<PortModel>,
    index: u32,
    type_tag: u32,
    payload: Seq<u8>,
) -> Seq<PortModel> {
    if !has_port(s, index) {
        s
    } else {
        s.update(lookup(s, index), port_after_accept(s[lookup(s, index)], type_tag, payload))
    }
}

/// Whether a port has outbound state pending for the write-back scan.
pub open spec fn port_pending(p: PortModel) -> bool {
    match p {
        PortModel::Control(c) => c.changed,
        PortModel::Atom(a) => a.to_plugin.bytes.len() > 0,
    }
}

/// What a pending port emits: the wire 4-tuple shape, with the scalar
/// value spelled as its four little-endian bytes.
pub open spec fn port_emission(p: PortModel) -> EmissionModel {
    match p {
        PortModel::Control(c) => EmissionModel {
            index: c.index,
            type_tag: 0,
            bytes: spec_u32_to_le_bytes(c.value),
        },
        PortModel::Atom(a) => EmissionModel {
            index: a.index,
            type_tag: a.urid,
            bytes: a.to_plugin.bytes,
        },
    }
}

/// A port after the write-back scan: its pending outbound state is
/// cleared — the dirty flag for a control port, the staging buffer for an
/// atom port — and nothing else moves.
pub open spec fn port_after_scan(p: PortModel) -> PortModel {
    match p {
        PortModel::Control(c) => PortModel::Control(control_after_read(c)),
        PortModel::Atom(a) => {
            if a.to_plugin.bytes.len() > 0 {
                PortModel::Atom(
                    AtomModel { to_plugin: buf_empty(), to_ui: a.to_ui, urid: a.urid, index: a.index },
                )
            } else {
                p
            }
        },
    }
}

/// The emissions of one write-back scan: exactly the pending ports, in
/// storage order (which is index order in a well-formed directory).
pub open spec fn scan_emissions(s: Seq<PortModel>) -> Seq<EmissionModel>
    decreases s.len(),
{
    if s.len() == 0 {
        Seq::empty()
    } else {
        let rest = scan_emissions(s.drop_last());
        if port_pending(s.last()) {
            rest.push(port_emission(s.last()))
        } else {
            rest
        }
    }
}

/// One outbound emission, as handed to the host: which port, under which
/// tag, with which payload bytes.
pub struct Emission {
    pub index: u32,
    pub type_tag: u32,
    pub bytes: Vec<u8>,
}

/// Mathematical model of an emission.
pub struct EmissionModel {
    pub index: u32,
    pub type_tag: u32,
    pub bytes: Seq<u8>,
}

impl View for Emission {
    type V = EmissionModel;

    closed spec fn view(&self) -> EmissionModel {
        EmissionModel { index: self.index, type_tag: self.type_tag, bytes: self.bytes@ }
    }
}

/// The models of a sequence of emissions.
pub open spec fn emissions_view(s: Seq<Emission>) -> Seq<EmissionModel> {
    s.map_values(|e: Emission| e@)
}

impl UIPort {
    /// The index this slot answers to.
    pub fn index(&self) -> (i: u32)
        ensures
            i == port_index(self@),
    {
        match self {
            UIPort::Control(c) => c.index(),
            UIPort::Atom(a) => a.index(),
        }
    }
}

/// The mapping from port index to port, fixed in shape once built.
pub struct PortDirectory {
    ports: Vec<UIPort>,
}

impl View for PortDirectory {
    type V = Seq<PortModel>;

    closed spec fn view(&self) -> Seq<PortModel> {
        self.ports@.map_values(|p: UIPort| p@)
    }
}

impl PortDirectory {
    /// A well-formed directory: ascending unique indices, well-formed ports.
    pub open spec fn wf(&self) -> bool {
        dir_wf(self@)
    }

    /// Creates an empty directory.
    pub fn new() -> (r: Self)
        ensures
            r@ == Seq::<PortModel>::empty(),
            r.wf(),
    {
        let r = PortDirectory { ports: Vec::new() };
        proof {
            assert(r@ =~= Seq::<PortModel>::empty());
        }
        r
    }

    /// Number of ports in the directory.
    pub fn num_ports(&self) -> (n: usize)
        ensures
            n == self@.len(),
    {
        self.ports.len()
    }

    /// Adds a control port at `index`, which must lie above every index
    /// already present — the directory is built in ascending index order.
    pub fn add_control_port(&mut self, index: u32)
        requires
            old(self).wf(),
            old(self)@.len() > 0 ==> port_index(old(self)@.last()) < index,
        ensures
            final(self)@ == old(self)@.push(PortModel::Control(control_new(index))),
            final(self).wf(),
    {
        proof {
            lemma_push_keeps_dir_wf(self@, PortModel::Control(control_new(index)));
        }
        let port = UIPort::Control(UIControlPort::new(index));
        self.ports.push(port);
        proof {
            assert(final(self)@ =~= old(self)@.push(PortModel::Control(control_new(index))));
        }
    }

    /// Adds an atom port at `index` with fixed nonzero tag `urid`; the
    /// index must lie above every index already present.
    pub fn add_atom_port(&mut self, urid: u32, index: u32)
        requires
            urid != 0,
            old(self).wf(),
            old(self)@.len() > 0 ==> port_index(old(self)@.last()) < index,
        ensures
            final(self)@ == old(self)@.push(PortModel::Atom(atom_new(urid, index))),
            final(self).wf(),
    {
        proof {
            lemma_push_keeps_dir_wf(self@, PortModel::Atom(atom_new(urid, index)));
        }
        let port = UIPort::Atom(UIAtomPort::new(urid, index));
        self.ports.push(port);
        proof {
            assert(final(self)@ =~= old(self)@.push(PortModel::Atom(atom_new(urid, index))));
        }
    }

    /// The storage position of the port answering to `index`, if any.
    fn position_of(&self, index: u32) -> (r: Option<usize>)
        ensures
            r matches Some(i) ==> i < self@.len() && port_index(self@[i as int]) == index,
            (r is Some) == has_port(self@, index),
    {
        let n = self.ports.len();
        let mut i: usize = 0;
        while i < n
            invariant
                n == self@.len(),
                i <= n,
                forall|j: int| 0 <= j < i ==> port_index(#[trigger] self@[j]) != index,
            decreases n - i,
        {
            if self.ports[i].index() == index {
                proof {
                    assert(port_index(self@[i as int]) == index);
                }
                return Some(i);
            }
            i += 1;
        }
        None
    }

    /// Resolves `port_index` to the control port stored there, for UI code
    /// to read or stage a scalar.  `None` when no port answers to that
    /// index or the port there is an atom port.
    pub fn map_control_port(&mut self, port_index: u32) -> (r: Option<&mut UIControlPort>)
        requires
            old(self).wf(),
        ensures
            (r is Some) == (has_port(old(self)@, port_index) && old(self)@[lookup(
                old(self)@,
                port_index,
            )] is Control),
            r matches Some(p) ==> {
                &&& old(self)@[lookup(old(self)@, port_index)] == PortModel::Control((*p)@)
                &&& final(self)@ == old(self)@.update(
                    lookup(old(self)@, port_index),
                    PortModel::Control((*final(p))@),
                )
            },
            r is None ==> final(self)@ == old(self)@,
    {
        let pos = self.position_of(port_index);
        let i = match pos {
            None => {
                return None;
            },
            Some(i) => i,
        };
        proof {
            lemma_lookup_of_match(self@, port_index, i as int);
        }
        let is_control = match &self.ports[i] {
            UIPort::Control(_) => true,
            UIPort::Atom(_) => false,
        };
        if !is_control {
            return None;
        }
        let port = &mut self.ports[i];
        match port {
            UIPort::Control(c) => Some(c),
            UIPort::Atom(_) => unreached(),
        }
    }

    /// Resolves `port_index` to the atom port stored there, for UI code to
    /// read inbound messages or stage an outbound one.  `None` when no
    /// port answers to that index or the port there is a control port.
    pub fn map_atom_port(&mut self, port_index: u32) -> (r: Option<&mut UIAtomPort>)
        requires
            old(self).wf(),
        ensures
            (r is Some) == (has_port(old(self)@, port_index) && old(self)@[lookup(
                old(self)@,
                port_index,
            )] is Atom),
            r matches Some(p) ==> {
                &&& old(self)@[lookup(old(self)@, port_index)] == PortModel::Atom((*p)@)
                &&& final(self)@ == old(self)@.update(
                    lookup(old(self)@, port_index),
                    PortModel::Atom((*final(p))@),
                )
            },
            r is None ==> final(self)@ == old(self)@,
    {
        let pos = self.position_of(port_index);
        let i = match pos {
            None => {
                return None;
            },
            Some(i) => i,
        };
        proof {
            lemma_lookup_of_match(self@, port_index, i as int);
        }
        let is_atom = match &self.ports[i] {
            UIPort::Atom(_) => true,
            UIPort::Control(_) => false,
        };
        if !is_atom {
            return None;
        }
        let port = &mut self.ports[i];
        match port {
            UIPort::Atom(a) => Some(a),
            UIPort::Control(_) => unreached(),
        }
    }

    /// Routes one inbound host event to the addressed port.
    ///
    /// An event whose index no port answers to, whose tag disagrees with
    /// the addressed port's kind or fixed tag, or whose scalar payload is
    /// not exactly four bytes, is rejected with the matching condition and
    /// moves nothing.  An accepted scalar event sets the control port's
    /// value; an accepted typed event fills the atom port's inbound
    /// mailbox.
    pub fn port_event(&mut self, index: u32, type_tag: u32, payload: &[u8]) -> (r: Result<
        (),
        DispatchError,
    >)
        requires
            old(self).wf(),
        ensures
            r == dispatch_result(old(self)@, index, type_tag, payload@),
            final(self)@ == dispatch_after(old(self)@, index, type_tag, payload@),
            final(self).wf(),
    {
        let pos = self.position_of(index);
        match pos {
            None => Err(DispatchError::UnknownPortIndex),
            Some(i) => {
                proof {
                    lemma_lookup_of_match(self@, index, i as int);
                }
                let ghost s0 = self@;
                let port = &mut self.ports[i];
                let r = match port {
                    UIPort::Control(c) => {
                        if type_tag != 0 {
                            Err(DispatchError::ProtocolMismatch)
                        } else if payload.len() != 4 {
                            Err(DispatchError::SizeMismatch)
                        } else {
                            let v = u32_from_le_bytes(payload);
                            c.set_value(v);
                            Ok(())
                        }
                    },
                    UIPort::Atom(a) => {
                        if type_tag == 0 {
                            Err(DispatchError::ProtocolMismatch)
                        } else {
                            a.on_inbound(type_tag, payload)
                        }
                    },
                };
                proof {
                    assert(final(self)@ =~= dispatch_after(s0, index, type_tag, payload@));
                    lemma_update_keeps_dir_wf(
                        s0,
                        lookup(s0, index),
                        port_after_accept(s0[lookup(s0, index)], type_tag, payload@),
                    );
                }
                r
            },
        }
    }

    /// The write-back scan: walks the ports in ascending index order and
    /// collects exactly the pending outbound state — a changed control
    /// value as its four little-endian bytes under tag zero, a non-empty
    /// staged atom message under the port's tag — clearing each pending
    /// port as it is collected.  Ports with nothing pending are not
    /// emitted and not changed.  The emissions are handed back for the
    /// caller to push to the host; whether the host takes them is the
    /// caller's affair, the state is cleared regardless.
    pub fn scan_and_emit(&mut self) -> (r: Vec<Emission>)
        requires
            old(self).wf(),
        ensures
            emissions_view(r@) == scan_emissions(old(self)@),
            final(self)@.len() == old(self)@.len(),
            forall|j: int|
                0 <= j < old(self)@.len() ==> final(self)@[j] == port_after_scan(
                    #[trigger] old(self)@[j],
                ),
            final(self).wf(),
    {
        let mut out: Vec<Emission> = Vec::new();
        let n = self.ports.len();
        proof {
            assert(emissions_view(out@) =~= scan_emissions(old(self)@.take(0)));
        }
        let mut i: usize = 0;
        while i < n
            invariant
                n == old(self)@.len(),
                i <= n,
                self@.len() == old(self)@.len(),
                forall|j: int|
                    0 <= j < i ==> self@[j] == port_after_scan(#[trigger] old(self)@[j]),
                forall|j: int| i <= j < n ==> self@[j] == #[trigger] old(self)@[j],
                emissions_view(out@) == scan_emissions(old(self)@.take(i as int)),
            decreases n - i,
        {
            let ghost s_pre = self@;
            let ghost out_pre = out@;
            let port = &mut self.ports[i];
            match port {
                UIPort::Control(c) => {
                    let changed = c.changed_value();
                    match changed {
                        Some(v) => {
                            let bytes = u32_to_le_bytes(v);
                            let idx = c.index();
                            out.push(Emission { index: idx, type_tag: 0, bytes });
                        },
                        None => {},
                    }
                },
                UIPort::Atom(a) => {
                    if a.outbound_size() > 0 {
                        let bytes = a.take_outbound();
                        let idx = a.index();
                        let tag = a.protocol();
                        out.push(Emission { index: idx, type_tag: tag, bytes });
                    }
                },
            }
            proof {
                lemma_scan_emissions_take_step(old(self)@, i as int);
                if port_pending(old(self)@[i as int]) {
                    assert(emissions_view(out@) =~= emissions_view(out_pre).push(
                        port_emission(old(self)@[i as int]),
                    ));
                } else {
                    assert(out@ == out_pre);
                }
                assert(self@[i as int] == port_after_scan(old(self)@[i as int]));
            }
            i += 1;
        }
        proof {
            assert(old(self)@.take(n as int) =~= old(self)@);
            assert forall|a: int, b: int| 0 <= a < b < self@.len() implies port_index(
                #[trigger] self@[a],
            ) < port_index(#[trigger] self@[b]) by {
                lemma_after_scan_keeps_identity(old(self)@[a]);
                lemma_after_scan_keeps_identity(old(self)@[b]);
            }
            assert forall|a: int| 0 <= a < self@.len() implies port_wf(#[trigger] self@[a]) by {
                lemma_after_scan_keeps_identity(old(self)@[a]);
            }
        }
        out
    }
}

/// In a well-formed directory, at most one port answers to an index.
pub proof fn lemma_wf_index_unique(s: Seq<PortModel>, i: int, j: int)
    requires
        dir_wf(s),
        0 <= i < s.len(),
        0 <= j < s.len(),
        port_index(s[i]) == port_index(s[j]),
    ensures
        i == j,
{
    if i < j {
        assert(port_index(s[i]) < port_index(s[j]));
    } else if j < i {
        assert(port_index(s[j]) < port_index(s[i]));
    }
}

/// A found match at position `i` is the `lookup` position.
proof fn lemma_lookup_of_match(s: Seq<PortModel>, index: u32, i: int)
    requires
        dir_wf(s),
        0 <= i < s.len(),
        port_index(s[i]) == index,
    ensures
        has_port(s, index),
        lookup(s, index) == i,
{
    assert(has_port(s, index));
    lemma_wf_index_unique(s, i, lookup(s, index));
}

/// Appending a well-formed port above every present index keeps a
/// directory well formed.
proof fn lemma_push_keeps_dir_wf(s: Seq<PortModel>, p: PortModel)
    requires
        dir_wf(s),
        port_wf(p),
        s.len() > 0 ==> port_index(s.last()) < port_index(p),
    ensures
        dir_wf(s.push(p)),
{
    let t = s.push(p);
    assert forall|i: int, j: int| 0 <= i < j < t.len() implies port_index(#[trigger] t[i])
        < port_index(#[trigger] t[j]) by {
        if j < s.len() {
        } else {
            assert(t[j] == p);
            if i < s.len() - 1 {
                assert(port_index(s[i]) < port_index(s.last()));
            }
        }
    }
}

/// Replacing a port by one with the same index and well-formedness keeps
/// a directory well formed.
proof fn lemma_update_keeps_dir_wf(s: Seq<PortModel>, i: int, p: PortModel)
    requires
        dir_wf(s),
        0 <= i < s.len(),
        port_index(p) == port_index(s[i]),
        port_wf(p) == port_wf(s[i]),
    ensures
        dir_wf(s.update(i, p)),
{
}

/// The write-back scan moves neither a port's index nor its tag.
proof fn lemma_after_scan_keeps_identity(p: PortModel)
    ensures
        port_index(port_after_scan(p)) == port_index(p),
        port_wf(port_after_scan(p)) == port_wf(p),
{
}

/// Unrolls `scan_emissions` over a one-longer prefix.
proof fn lemma_scan_emissions_take_step(s: Seq<PortModel>, i: int)
    requires
        0 <= i < s.len(),
    ensures
        scan_emissions(s.take(i + 1)) == if port_pending(s[i]) {
            scan_emissions(s.take(i)).push(port_emission(s[i]))
        } else {
            scan_emissions(s.take(i))
        },
{
    assert(s.take(i + 1).drop_last() =~= s.take(i));
    assert(s.take(i + 1).last() == s[i]);
}

/// Law: an event addressed at an index absent from the directory moves no
/// port and reports the unknown-index condition.
pub proof fn lemma_dispatch_unknown_index(
    s: Seq<PortModel>,
    index: u32,
    type_tag: u32,
    payload: Seq<u8>,
)
    requires
        !has_port(s, index),
    ensures
        dispatch_result(s, index, type_tag, payload) == Err::<(), DispatchError>(
            DispatchError::UnknownPortIndex,
        ),
        dispatch_after(s, index, type_tag, payload) == s,
{
}

/// Law: a rejected event moves nothing — whatever the condition reported,
/// every port is exactly as it was.
pub proof fn lemma_dispatch_rejected_moves_nothing(
    s: Seq<PortModel>,
    index: u32,
    type_tag: u32,
    payload: Seq<u8>,
)
    requires
        dispatch_result(s, index, type_tag, payload) is Err,
    ensures
        dispatch_after(s, index, type_tag, payload) =~= s,
{
    if has_port(s, index) {
        let i = lookup(s, index);
        assert(port_after_accept(s[i], type_tag, payload) == s[i]);
    }
}

/// Law: a scalar event whose payload is not exactly four bytes reports the
/// size-mismatch condition and leaves the addressed control port's value
/// and dirty flag (and every other port) unchanged.
pub proof fn lemma_dispatch_scalar_size_mismatch(
    s: Seq<PortModel>,
    index: u32,
    payload: Seq<u8>,
)
    requires
        has_port(s, index),
        s[lookup(s, index)] is Control,
        payload.len() != 4,
    ensures
        dispatch_result(s, index, 0, payload) == Err::<(), DispatchError>(
            DispatchError::SizeMismatch,
        ),
        dispatch_after(s, index, 0, payload) =~= s,
{
    lemma_dispatch_rejected_moves_nothing(s, index, 0, payload);
}

/// Law: a typed event whose tag differs from the addressed atom port's
/// fixed tag reports the tag-mismatch condition and leaves the port's
/// inbound mailbox (and every other port) unchanged.
pub proof fn lemma_dispatch_tag_mismatch(
    s: Seq<PortModel>,
    index: u32,
    type_tag: u32,
    payload: Seq<u8>,
)
    requires
        has_port(s, index),
        s[lookup(s, index)] matches PortModel::Atom(a) && a.urid != type_tag,
        type_tag != 0,
    ensures
        dispatch_result(s, index, type_tag, payload) == Err::<(), DispatchError>(
            DispatchError::TypeTagMismatch,
        ),
        dispatch_after(s, index, type_tag, payload) =~= s,
{
    lemma_dispatch_rejected_moves_nothing(s, index, type_tag, payload);
}

/// An emission answers to the index of the port it came from.
proof fn lemma_emission_carries_port_index(p: PortModel)
    ensures
        port_emission(p).index == port_index(p),
{
}

/// Law: in a well-formed directory the write-back scan emits in strictly
/// ascending port index order, and no emission's index exceeds the last
/// port's.
pub proof fn lemma_scan_in_index_order(s: Seq<PortModel>)
    requires
        dir_wf(s),
    ensures
        forall|a: int, b: int|
            0 <= a < b < scan_emissions(s).len() ==> (#[trigger] scan_emissions(s)[a]).index < (
            #[trigger] scan_emissions(s)[b]).index,
        s.len() > 0 ==> forall|a: int|
            0 <= a < scan_emissions(s).len() ==> (#[trigger] scan_emissions(s)[a]).index
                <= port_index(s.last()),
    decreases s.len(),
{
    if s.len() > 0 {
        let e = scan_emissions(s);
        let t = s.drop_last();
        let r = scan_emissions(t);
        assert(dir_wf(t)) by {
            assert(forall|i: int| 0 <= i < t.len() ==> t[i] == s[i]);
        }
        lemma_scan_in_index_order(t);
        lemma_emission_carries_port_index(s.last());
        if t.len() == 0 {
            assert(r =~= Seq::<EmissionModel>::empty());
        } else {
            assert(port_index(t.last()) < port_index(s.last())) by {
                assert(t.last() == s[s.len() - 2]);
            }
        }
        assert(e == if port_pending(s.last()) {
            r.push(port_emission(s.last()))
        } else {
            r
        });
        assert forall|a: int| 0 <= a < e.len() implies (#[trigger] e[a]).index <= port_index(
            s.last(),
        ) by {
            if a < r.len() {
                assert(e[a] == r[a]);
                assert(r[a].index <= port_index(t.last()));
            } else {
                assert(e[a] == port_emission(s.last()));
            }
        }
        assert forall|a: int, b: int| 0 <= a < b < e.len() implies (#[trigger] e[a]).index < (
        #[trigger] e[b]).index by {
            if b < r.len() {
                assert(e[a] == r[a] && e[b] == r[b]);
            } else {
                assert(a < r.len());
                assert(e[a] == r[a]);
                assert(r[a].index <= port_index(t.last()));
                assert(e[b] == port_emission(s.last()));
            }
        }
    }
}

/// Law: the scan drains everything — after one scan nothing is pending,
/// so a scan run immediately after emits nothing.
pub proof fn lemma_scan_after_scan_is_empty(s: Seq<PortModel>)
    ensures
        scan_emissions(s.map_values(|p: PortModel| port_after_scan(p))) == Seq::<
            EmissionModel,
        >::empty(),
    decreases s.len(),
{
    let m = s.map_values(|p: PortModel| port_after_scan(p));
    if s.len() == 0 {
        assert(m =~= Seq::<PortModel>::empty());
    } else {
        lemma_scan_after_scan_is_empty(s.drop_last());
        assert(m.drop_last() =~= s.drop_last().map_values(|p: PortModel| port_after_scan(p)));
        assert(!port_pending(m.last()));
    }
}

} // verus!
