use lv2_ui_ports::errors::DispatchError;
use lv2_ui_ports::ports::{UIAtomPort, UIControlPort};

#[test]
fn control_port_starts_clean() {
    let mut p = UIControlPort::new(3);
    assert_eq!(p.index(), 3);
    assert_eq!(p.protocol(), 0);
    assert_eq!(p.size(), 4);
    assert_eq!(p.value(), 0);
    assert_eq!(p.changed_value(), None);
}

#[test]
fn control_set_value_reads_back_exactly_once() {
    let mut p = UIControlPort::new(0);
    let v = 1.5f32.to_bits();
    p.set_value(v);
    assert_eq!(p.changed_value(), Some(v));
    // Read-once: the change was consumed.
    assert_eq!(p.changed_value(), None);
    // The value itself stays readable.
    assert_eq!(p.value(), v);
}

#[test]
fn control_last_set_value_wins() {
    let mut p = UIControlPort::new(0);
    p.set_value(0.25f32.to_bits());
    p.set_value(0.75f32.to_bits());
    assert_eq!(p.changed_value(), Some(0.75f32.to_bits()));
    assert_eq!(p.changed_value(), None);
}

#[test]
fn control_set_value_marks_dirty_without_deduplication() {
    let mut p = UIControlPort::new(0);
    let v = 2.0f32.to_bits();
    p.set_value(v);
    assert_eq!(p.changed_value(), Some(v));
    // Setting the same value again still arms a change.
    p.set_value(v);
    assert_eq!(p.changed_value(), Some(v));
}

#[test]
fn atom_port_metadata() {
    let p = UIAtomPort::new(42, 9);
    assert_eq!(p.index(), 9);
    assert_eq!(p.protocol(), 42);
    assert_eq!(p.size(), 0);
    assert_eq!(p.outbound_size(), 0);
}

#[test]
fn atom_inbound_matching_tag_is_read_once() {
    let mut p = UIAtomPort::new(7, 1);
    assert_eq!(p.on_inbound(7, &[1u8, 2, 3]), Ok(()));
    assert_eq!(p.take_inbound(), Some(vec![1u8, 2, 3]));
    assert_eq!(p.take_inbound(), None);
}

#[test]
fn atom_inbound_wrong_tag_is_rejected_without_corruption() {
    let mut p = UIAtomPort::new(7, 1);
    assert_eq!(p.on_inbound(7, &[1u8, 2, 3]), Ok(()));
    // A wrong-tagged payload must not replace the pending message.
    assert_eq!(p.on_inbound(8, &[0xffu8; 16]), Err(DispatchError::TypeTagMismatch));
    assert_eq!(p.take_inbound(), Some(vec![1u8, 2, 3]));
}

#[test]
fn atom_inbound_empty_payload_reads_as_absent() {
    let mut p = UIAtomPort::new(7, 1);
    assert_eq!(p.on_inbound(7, &[]), Ok(()));
    assert_eq!(p.take_inbound(), None);
}

#[test]
fn atom_outbound_staging_and_drain() {
    let mut p = UIAtomPort::new(7, 1);
    p.begin_outbound();
    let start = p.append_outbound(5, false);
    assert_eq!(start, 0);
    p.write_outbound_at(start, &[1u8, 2, 3, 4, 5]);
    assert_eq!(p.outbound_size(), 5);
    assert_eq!(p.outbound_bytes().as_slice(), &[1u8, 2, 3, 4, 5]);
    let taken = p.take_outbound();
    assert_eq!(taken, vec![1u8, 2, 3, 4, 5]);
    assert_eq!(p.outbound_size(), 0);
}

#[test]
fn atom_begin_outbound_discards_previous_staging() {
    let mut p = UIAtomPort::new(7, 1);
    p.begin_outbound();
    let s = p.append_outbound(2, false);
    p.write_outbound_at(s, &[1u8, 2]);
    p.begin_outbound();
    assert_eq!(p.outbound_size(), 0);
    let s2 = p.append_outbound(1, false);
    p.write_outbound_at(s2, &[9u8]);
    assert_eq!(p.outbound_bytes().as_slice(), &[9u8]);
}

#[test]
fn atom_buffers_are_independent() {
    let mut p = UIAtomPort::new(7, 1);
    p.begin_outbound();
    let s = p.append_outbound(2, false);
    p.write_outbound_at(s, &[1u8, 2]);
    assert_eq!(p.on_inbound(7, &[3u8, 4, 5]), Ok(()));
    // Filling the inbound mailbox does not disturb the staged outbound
    // message, and draining one side leaves the other.
    assert_eq!(p.outbound_bytes().as_slice(), &[1u8, 2]);
    assert_eq!(p.take_inbound(), Some(vec![3u8, 4, 5]));
    assert_eq!(p.outbound_size(), 2);
}
