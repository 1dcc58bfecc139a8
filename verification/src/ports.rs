//! The two port kinds: scalar control ports and typed-message atom ports.
//!
//! A control port is a value cell with a dirty flag.  The scalar travels on
//! the wire as four payload bytes; this core stores and hands that value
//! around as the one 32-bit pattern those bytes spell, without interpreting
//! it — turning the pattern into a rendered number is the caller's concern.
//!
//! An atom port owns two independent message buffers: an inbound mailbox
//! filled by the host event path and drained read-once by the UI, and an
//! outbound staging buffer filled by the UI and drained by the write-back
//! scan.  Its type tag is fixed at construction and every inbound message
//! must carry exactly that tag.

use vstd::prelude::*;

use crate::buffer::{
    buf_after_consume, buf_append, buf_consume_result, buf_empty, buf_replace, buf_write_at,
    pad_len, BufferModel, GrowableMessageBuffer,
};
use crate::errors::DispatchError;

verus! {

/// Mathematical model of a control port.
pub struct ControlModel {
    pub value: u32,
    pub changed: bool,
    pub index: u32,
}

/// Mathematical model of an atom port.
pub struct AtomModel {
    pub to_plugin: BufferModel,
    pub to_ui: BufferModel,
    pub urid: u32,
    pub index: u32,
}

/// The model of a fresh control port: value zero, nothing pending.
pub open spec fn control_new(index: u32) -> ControlModel {
    ControlModel { value: 0, changed: false, index }
}

/// The model after `set_value`: the new value, marked changed
/// unconditionally — no deduplication against the previous value.
pub open spec fn control_set_value(c: ControlModel, v: u32) -> ControlModel {
    ControlModel { value: v, changed: true, index: c.index }
}

/// What `changed_value` returns: the current value exactly when a change
/// is pending.
pub open spec fn control_read_result(c: ControlModel) -> Option<u32> {
    if c.changed {
        Some(c.value)
    } else {
        None
    }
}

/// The model after `changed_value`: the pending flag is cleared, the value
/// stays readable.
pub open spec fn control_after_read(c: ControlModel) -> ControlModel {
    ControlModel { value: c.value, changed: false, index: c.index }
}

/// The model of a fresh atom port: both buffers empty.
pub open spec fn atom_new(urid: u32, index: u32) -> AtomModel {
    AtomModel { to_plugin: buf_empty(), to_ui: buf_empty(), urid, index }
}

/// What `on_inbound` reports: a message whose tag differs from the port's
/// fixed tag is rejected, anything else is accepted.
pub open spec fn atom_inbound_result(a: AtomModel, type_tag: u32) -> Result<(), DispatchError> {
    if type_tag != a.urid {
        Err(DispatchError::TypeTagMismatch)
    } else {
        Ok(())
    }
}

/// The model after `on_inbound`: on a tag match the inbound mailbox is
/// replaced with the payload; on a mismatch nothing moves.
pub open spec fn atom_after_inbound(a: AtomModel, type_tag: u32, payload: Seq<u8>) -> AtomModel {
    if type_tag != a.urid {
        a
    } else {
        AtomModel { to_plugin: a.to_plugin, to_ui: buf_replace(payload), urid: a.urid, index: a.index }
    }
}

/// A port carrying a single scalar control value and a dirty flag.
pub struct UIControlPort {
    value: u32,
    changed: bool,
    index: u32,
}

impl View for UIControlPort {
    type V = ControlModel;

    closed spec fn view(&self) -> ControlModel {
        ControlModel { value: self.value, changed: self.changed, index: self.index }
    }
}

impl UIControlPort {
    /// Creates the port for slot `index`, value zero, nothing pending.
    pub fn new(index: u32) -> (r: Self)
        ensures
            r@ == control_new(index),
    {
        UIControlPort { value: 0, changed: false, index }
    }

    /// Overwrites the value and marks it pending, even when the new value
    /// equals the old one.
    pub fn set_value(&mut self, v: u32)
        ensures
            final(self)@ == control_set_value(old(self)@, v),
    {
        self.value = v;
        self.changed = true;
    }

    /// Hands out the value exactly once per change: `Some(value)` and the
    /// pending flag cleared if a change is pending, `None` otherwise.
    pub fn changed_value(&mut self) -> (r: Option<u32>)
        ensures
            r == control_read_result(old(self)@),
            final(self)@ == control_after_read(old(self)@),
    {
        if self.changed {
            self.changed = false;
            Some(self.value)
        } else {
            None
        }
    }

    /// The current value, readable without side effects.
    pub fn value(&self) -> (v: u32)
        ensures
            v == self@.value,
    {
        self.value
    }

    /// The slot this port occupies.
    pub fn index(&self) -> (i: u32)
        ensures
            i == self@.index,
    {
        self.index
    }

    /// The wire protocol of a control port: tag zero.
    pub fn protocol(&self) -> (p: u32)
        ensures
            p == 0,
    {
        0
    }

    /// The size of one scalar value on the wire.
    pub fn size(&self) -> (n: usize)
        ensures
            n == 4,
    {
        4
    }
}

/// A port carrying variable-length, type-tagged opaque messages in both
/// directions.
pub struct UIAtomPort {
    to_plugin: GrowableMessageBuffer,
    to_ui: GrowableMessageBuffer,
    urid: u32,
    index: u32,
}

impl View for UIAtomPort {
    type V = AtomModel;

    closed spec fn view(&self) -> AtomModel {
        AtomModel {
            to_plugin: self.to_plugin@,
            to_ui: self.to_ui@,
            urid: self.urid,
            index: self.index,
        }
    }
}

impl UIAtomPort {
    /// Creates the port for slot `index` with its fixed type tag `urid`.
    /// Tag zero is reserved for scalars, so an atom port's tag is nonzero.
    pub fn new(urid: u32, index: u32) -> (r: Self)
        requires
            urid != 0,
        ensures
            r@ == atom_new(urid, index),
    {
        UIAtomPort {
            to_plugin: GrowableMessageBuffer::new(),
            to_ui: GrowableMessageBuffer::new(),
            urid,
            index,
        }
    }

    /// Accepts a host message into the inbound mailbox.  A payload whose
    /// tag differs from the port's fixed tag is rejected without touching
    /// either buffer; a matching payload replaces the mailbox contents and
    /// arms it for one read.
    pub fn on_inbound(&mut self, type_tag: u32, payload: &[u8]) -> (r: Result<(), DispatchError>)
        ensures
            r == atom_inbound_result(old(self)@, type_tag),
            final(self)@ == atom_after_inbound(old(self)@, type_tag, payload@),
    {
        if type_tag != self.urid {
            Err(DispatchError::TypeTagMismatch)
        } else {
            self.to_ui.replace(payload);
            Ok(())
        }
    }

    /// Drains the inbound mailbox read-once: the pending message's bytes,
    /// or `None` when the mailbox is empty or was already read.  The caller
    /// hands the bytes to whatever decoder its type tag calls for; this
    /// core does not interpret them.
    pub fn take_inbound(&mut self) -> (r: Option<Vec<u8>>)
        ensures
            r is Some <==> buf_consume_result(old(self)@.to_ui) is Some,
            r matches Some(v) ==> buf_consume_result(old(self)@.to_ui) == Some(v@),
            final(self)@.to_ui == buf_after_consume(old(self)@.to_ui),
            final(self)@.to_plugin == old(self)@.to_plugin,
            final(self)@.urid == old(self)@.urid,
            final(self)@.index == old(self)@.index,
    {
        self.to_ui.consume_once()
    }

    /// Starts a fresh outbound message: the staging buffer is cleared and
    /// subsequent `append_outbound` calls serialize into it.
    pub fn begin_outbound(&mut self)
        ensures
            final(self)@.to_plugin == buf_empty(),
            final(self)@.to_ui == old(self)@.to_ui,
            final(self)@.urid == old(self)@.urid,
            final(self)@.index == old(self)@.index,
    {
        self.to_plugin.clear();
    }

    /// Grows the outbound message by `n` zero bytes, preceded by zero
    /// padding up to the next 8-byte boundary when `align_to_8` is set, and
    /// returns the offset of the fresh region, to be filled with
    /// `write_outbound_at`.
    pub fn append_outbound(&mut self, n: usize, align_to_8: bool) -> (start: usize)
        requires
            old(self)@.to_plugin.bytes.len() + 7 + n <= usize::MAX,
        ensures
            final(self)@.to_plugin == buf_append(old(self)@.to_plugin, n as nat, align_to_8),
            start == old(self)@.to_plugin.bytes.len() + pad_len(
                old(self)@.to_plugin.bytes.len(),
                align_to_8,
            ),
            final(self)@.to_plugin.bytes.len() == start + n,
            final(self)@.to_ui == old(self)@.to_ui,
            final(self)@.urid == old(self)@.urid,
            final(self)@.index == old(self)@.index,
    {
        self.to_plugin.append(n, align_to_8)
    }

    /// Fills part of the outbound message opened by `append_outbound`,
    /// overwriting the bytes at `offset..offset + src.len()`.
    pub fn write_outbound_at(&mut self, offset: usize, src: &[u8])
        requires
            offset + src@.len() <= old(self)@.to_plugin.bytes.len(),
        ensures
            final(self)@.to_plugin == buf_write_at(old(self)@.to_plugin, offset as nat, src@),
            final(self)@.to_ui == old(self)@.to_ui,
            final(self)@.urid == old(self)@.urid,
            final(self)@.index == old(self)@.index,
    {
        self.to_plugin.write_at(offset, src);
    }

    /// Drains the staged outbound message: hands out its bytes and clears
    /// the staging buffer.  This is the write-back scan's emit-and-clear
    /// step; the inbound mailbox is untouched.
    pub fn take_outbound(&mut self) -> (r: Vec<u8>)
        ensures
            r@ == old(self)@.to_plugin.bytes,
            final(self)@.to_plugin == buf_empty(),
            final(self)@.to_ui == old(self)@.to_ui,
            final(self)@.urid == old(self)@.urid,
            final(self)@.index == old(self)@.index,
    {
        self.to_plugin.take_bytes()
    }

    /// Length of the staged outbound message; zero means nothing pending.
    pub fn outbound_size(&self) -> (n: usize)
        ensures
            n == self@.to_plugin.bytes.len(),
    {
        self.to_plugin.len()
    }

    /// Read-only access to the staged outbound bytes; marks nothing
    /// consumed — the write-back scan has its own clearing rule.
    pub fn outbound_bytes(&self) -> (r: &Vec<u8>)
        ensures
            r@ == self@.to_plugin.bytes,
    {
        self.to_plugin.bytes()
    }

    /// The slot this port occupies.
    pub fn index(&self) -> (i: u32)
        ensures
            i == self@.index,
    {
        self.index
    }

    /// The wire protocol of an atom port: its fixed type tag.
    pub fn protocol(&self) -> (p: u32)
        ensures
            p == self@.urid,
    {
        self.urid
    }

    /// The size of the outbound payload, as handed to the host.
    pub fn size(&self) -> (n: usize)
        ensures
            n == self@.to_plugin.bytes.len(),
    {
        self.to_plugin.len()
    }
}

/// Law: a set value is read back exactly once.  After `set_value(v)`,
/// `changed_value` yields `Some(v)` and clears the pending flag; read
/// again without an intervening `set_value`, it yields `None`; the value
/// itself stays readable throughout.
pub proof fn lemma_scalar_set_then_read_once(c: ControlModel, v: u32)
    ensures
        control_read_result(control_set_value(c, v)) == Some(v),
        control_after_read(control_set_value(c, v)).changed == false,
        control_after_read(control_set_value(c, v)).value == v,
        control_read_result(control_after_read(control_set_value(c, v))) is None,
{
}

/// Law: in any run of `set_value` calls, the most recent value wins —
/// setting twice is the same as setting once with the later value.
pub proof fn lemma_scalar_last_set_wins(c: ControlModel, v1: u32, v2: u32)
    ensures
        control_set_value(control_set_value(c, v1), v2) == control_set_value(c, v2),
{
}

} // verus!
