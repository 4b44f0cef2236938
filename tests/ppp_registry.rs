use mmtk_ruby::abi::{ChildVisitor, ObjectClosure};
use mmtk_ruby::forwarding::Liveness;
use mmtk_ruby::object::ObjectReference;
use mmtk_ruby::ppp::{PPPRegistry, PIN_PPP_CHILDREN_PACKET_SIZE};

fn obj(a: usize) -> ObjectReference {
    ObjectReference::from_raw_address(a)
}

#[test]
fn ppp_pin_and_cleanup_scenario() {
    let a = obj(0x1000);
    let b = obj(0x2000);
    let b_new = obj(0x9000);
    let (x, y, z) = (obj(0x3000), obj(0x4000), obj(0x5000));
    let mut reg = PPPRegistry::new();
    reg.register(a);
    reg.register(b);
    let packets = reg.pin_ppp_children(true, true);
    assert_eq!(packets, vec![vec![a, b]]);
    // children reported by the runtime while walking A and B
    let empty = Liveness::new();
    let mut closure = ObjectClosure::new();
    closure.set_temporarily(ChildVisitor::PinChildren).unwrap();
    for c in [x, y, z] {
        assert_eq!(closure.visit(&empty, c, true), Ok(c));
    }
    let to_pin = closure.reset();
    assert_eq!(to_pin, vec![x, y, z]);
    reg.record_pinned_children(&to_pin, &vec![true, true, true]);
    assert_eq!(reg.pinned_children(), &[x, y, z][..]);

    let mut l = Liveness::new();
    assert!(l.record_forwarding(b, b_new));
    l.mark_reachable(x);
    l.mark_reachable(y);
    l.mark_reachable(z);
    let unpins = reg.cleanup_ppps(&l, &vec![], true, true);
    assert_eq!(unpins, vec![x, y, z]);
    assert_eq!(reg.old_generation(), &[b_new][..]);
    assert!(reg.young().is_empty());
    assert!(reg.pinned_children().is_empty());
}

#[test]
fn ppp_children_to_pin_filters_flag() {
    let l = Liveness::new();
    let mut closure = ObjectClosure::new();
    closure.set_temporarily(ChildVisitor::PinChildren).unwrap();
    for (c, pin) in [(obj(0x10), false), (obj(0x20), true), (obj(0x30), false)] {
        closure.visit(&l, c, pin).unwrap();
    }
    assert_eq!(closure.reset(), vec![obj(0x20)]);
}

#[test]
fn ppp_failed_pins_are_not_recorded() {
    let mut reg = PPPRegistry::new();
    reg.record_pinned_children(&vec![obj(0x10), obj(0x20)], &vec![false, true]);
    assert_eq!(reg.pinned_children(), &[obj(0x20)][..]);
    let l = Liveness::new();
    assert_eq!(reg.cleanup_ppps(&l, &vec![], true, false), vec![obj(0x20)]);
}

#[test]
fn ppp_non_moving_gc_pins_and_unpins_nothing() {
    let mut reg = PPPRegistry::new();
    reg.register_many(&[obj(0x10), obj(0x20)]);
    assert!(reg.pin_ppp_children(false, false).is_empty());
    let mut l = Liveness::new();
    l.mark_reachable(obj(0x10));
    l.mark_reachable(obj(0x20));
    assert!(reg.cleanup_ppps(&l, &vec![], false, false).is_empty());
    assert_eq!(reg.old_generation(), &[obj(0x10), obj(0x20)][..]);
}

#[test]
fn ppp_minor_collection_keeps_old_generation() {
    let mut reg = PPPRegistry::new();
    reg.register(obj(0x10));
    let mut l = Liveness::new();
    l.mark_reachable(obj(0x10));
    reg.cleanup_ppps(&l, &vec![], true, true);
    assert_eq!(reg.old_generation(), &[obj(0x10)][..]);
    // next cycle: the old PPP is not reachable, a young one is dead, another lives
    reg.register(obj(0x20));
    reg.register(obj(0x30));
    let mut l2 = Liveness::new();
    l2.mark_reachable(obj(0x30));
    // a minor collection visits only young PPPs
    assert_eq!(reg.pin_ppp_children(true, true), vec![vec![obj(0x20), obj(0x30)]]);
    reg.cleanup_ppps(&l2, &vec![], true, true);
    assert_eq!(reg.old_generation(), &[obj(0x10), obj(0x30)][..]);
    assert!(reg.young().is_empty());
    // a full collection sweeps the old generation too
    assert_eq!(reg.pin_ppp_children(true, false), vec![vec![obj(0x10), obj(0x30)]]);
    reg.cleanup_ppps(&l2, &vec![], true, false);
    assert_eq!(reg.old_generation(), &[obj(0x30)][..]);
}

#[test]
fn ppp_no_longer_ppp_is_dropped() {
    let mut reg = PPPRegistry::new();
    reg.register_many(&[obj(0x10), obj(0x20)]);
    let mut l = Liveness::new();
    assert!(l.record_forwarding(obj(0x10), obj(0x100)));
    l.mark_reachable(obj(0x20));
    // the runtime answers about the new location
    reg.cleanup_ppps(&l, &vec![obj(0x100)], true, false);
    assert_eq!(reg.old_generation(), &[obj(0x20)][..]);
}

#[test]
fn ppp_pin_packets_are_chunked() {
    let mut reg = PPPRegistry::new();
    let objs: Vec<ObjectReference> = (1..=1100usize).map(|i| obj(i * 8)).collect();
    reg.register_many(&objs);
    let packets = reg.pin_ppp_children(true, false);
    assert_eq!(packets.len(), 3);
    assert_eq!(packets[0].len(), PIN_PPP_CHILDREN_PACKET_SIZE);
    assert_eq!(packets[1].len(), PIN_PPP_CHILDREN_PACKET_SIZE);
    assert_eq!(packets[2].len(), 1100 - 2 * PIN_PPP_CHILDREN_PACKET_SIZE);
    let flat: Vec<ObjectReference> = packets.concat();
    assert_eq!(flat, objs);
}
