use mmtk_ruby::abi::{ChildVisitor, GCThreadKind, GCThreadTLS, ObjectClosure, ObjectClosureError};
use mmtk_ruby::forwarding::Liveness;
use mmtk_ruby::object::{my_special_const_p, ObjectReference, QUNDEF, VALUE};
use mmtk_ruby::weak_proc::concurrent_set_parallel::process_weak_concurrent_set_chunked;
use mmtk_ruby::weak_proc::st_table_parallel::{process_weak_table_chunked, StSizeInfo};
use mmtk_ruby::weak_proc::{
    update_weak_field, update_weak_fields, WeakConcurrentSetKind, WeakFieldUpdate, WeakProcessor,
    WeakTable, WeakWork,
};

fn obj(a: usize) -> ObjectReference {
    ObjectReference::from_raw_address(a)
}

#[test]
fn forwarding_is_idempotent() {
    let mut l = Liveness::new();
    assert!(l.record_forwarding(obj(0x1000), obj(0x2000)));
    l.mark_reachable(obj(0x3000));
    for h in [obj(0x1000), obj(0x2000), obj(0x3000), obj(0x4000)] {
        let f = l.forward(h);
        assert_eq!(l.forward(f), f);
    }
    assert_eq!(l.forward(obj(0x1000)), obj(0x2000));
    assert_eq!(l.forward(obj(0x4000)), obj(0x4000));
    assert_eq!(l.get_forwarded_object(obj(0x3000)), None);
    assert!(l.is_reachable(obj(0x2000)));
    assert!(!l.is_reachable(obj(0x4000)));
}

#[test]
fn record_forwarding_refuses_chains_and_self_moves() {
    let mut l = Liveness::new();
    assert!(!l.record_forwarding(obj(0x1000), obj(0x1000)));
    assert!(l.record_forwarding(obj(0x1000), obj(0x2000)));
    // a new copy never moves again, an object never moves twice
    assert!(!l.record_forwarding(obj(0x2000), obj(0x3000)));
    assert!(!l.record_forwarding(obj(0x1000), obj(0x3000)));
    // two objects cannot move to one place
    assert!(!l.record_forwarding(obj(0x5000), obj(0x2000)));
    assert!(!l.record_forwarding(obj(0x5000), obj(0x1000)));
    assert_eq!(l.forward(obj(0x2000)), obj(0x2000));
    assert!(!l.is_reachable(obj(0x3000)));
    // a new copy cannot land on an object already known to be alive
    l.mark_reachable(obj(0x6000));
    assert!(!l.record_forwarding(obj(0x7000), obj(0x6000)));
    assert_eq!(l.forward(obj(0x7000)), obj(0x7000));
}

#[test]
fn obj_free_sweep_scenario() {
    let dead_cand = obj(0x1000);
    let moved_cand = obj(0x2000);
    let moved_cand_new = obj(0x8000);
    let mut l = Liveness::new();
    assert!(l.record_forwarding(moved_cand, moved_cand_new));
    let mut wp = WeakProcessor::new();
    wp.add_obj_free_candidate(dead_cand);
    wp.add_obj_free_candidate(moved_cand);
    let freed = wp.process_obj_free_candidates(&l);
    assert_eq!(freed, vec![dead_cand]);
    assert_eq!(wp.obj_free_candidates(), &[moved_cand_new][..]);
    // a second sweep in the next cycle with the new copy alive and unmoved frees nothing
    let mut l2 = Liveness::new();
    l2.mark_reachable(moved_cand_new);
    let freed = wp.process_obj_free_candidates(&l2);
    assert!(freed.is_empty());
    assert_eq!(wp.obj_free_candidates(), &[moved_cand_new][..]);
}

#[test]
fn obj_free_dead_candidate_finalized_once_per_registration() {
    let mut l = Liveness::new();
    l.mark_reachable(obj(0x3000));
    let mut wp = WeakProcessor::new();
    wp.add_obj_free_candidates(&[obj(0x1000), obj(0x3000), obj(0x2000)]);
    let freed = wp.process_obj_free_candidates(&l);
    assert_eq!(freed, vec![obj(0x1000), obj(0x2000)]);
    assert_eq!(wp.obj_free_candidates(), &[obj(0x3000)][..]);
    assert!(!wp.obj_free_candidates().contains(&obj(0x1000)));
    let all = wp.get_all_obj_free_candidates();
    assert_eq!(all, vec![obj(0x3000)]);
    assert!(wp.obj_free_candidates().is_empty());
}

#[test]
fn obj_free_empty_set_is_noop() {
    let l = Liveness::new();
    let mut wp = WeakProcessor::new();
    assert!(wp.process_obj_free_candidates(&l).is_empty());
    assert!(wp.obj_free_candidates().is_empty());
}

#[test]
fn wb_unprotected_list_sweep() {
    let mut l = Liveness::new();
    assert!(l.record_forwarding(obj(0x1000), obj(0x9000)));
    let mut wp = WeakProcessor::new();
    wp.register_wb_unprotected_object(obj(0x1000));
    wp.register_wb_unprotected_object(obj(0x1000));
    wp.register_wb_unprotected_object(obj(0x2000));
    assert_eq!(wp.wb_unprotected_objects().len(), 2);
    wp.update_wb_unprotected_objects_list(&l);
    assert_eq!(wp.wb_unprotected_objects(), &[obj(0x9000)][..]);
    assert!(wp.is_object_wb_unprotected(obj(0x9000)));
    assert!(!wp.is_object_wb_unprotected(obj(0x2000)));
}

#[test]
fn wb_unprotected_sweep_keeps_each_location_once() {
    let mut l = Liveness::new();
    assert!(l.record_forwarding(obj(0x1000), obj(0x9000)));
    // the new copy is also reported directly
    l.mark_reachable(obj(0x9000));
    l.mark_reachable(obj(0x2000));
    let mut wp = WeakProcessor::new();
    wp.register_wb_unprotected_object(obj(0x1000));
    wp.register_wb_unprotected_object(obj(0x9000));
    wp.register_wb_unprotected_object(obj(0x2000));
    wp.update_wb_unprotected_objects_list(&l);
    assert_eq!(wp.wb_unprotected_objects(), &[obj(0x9000), obj(0x2000)][..]);
}

#[test]
fn weak_fields_discovery_and_take() {
    let mut wp = WeakProcessor::new();
    wp.discover_weak_field(0x10);
    wp.discover_weak_field(0x18);
    assert_eq!(wp.get_all_weak_fields(), vec![0x10, 0x18]);
    assert!(wp.get_all_weak_fields().is_empty());
    wp.discover_weak_field(0x20);
    wp.clear_weak_fields();
    assert!(wp.get_all_weak_fields().is_empty());
}

#[test]
fn weak_field_updates() {
    let mut l = Liveness::new();
    assert!(l.record_forwarding(obj(0x1000), obj(0x2000)));
    l.mark_reachable(obj(0x3000));
    // fixnum 1 is immediate
    assert_eq!(update_weak_field(VALUE(0x3), true, &l), WeakFieldUpdate::Unchanged);
    // false is special
    assert_eq!(update_weak_field(VALUE(0x0), false, &l), WeakFieldUpdate::Unchanged);
    assert_eq!(update_weak_field(VALUE(0x1000), true, &l), WeakFieldUpdate::Forward(VALUE(0x2000)));
    assert_eq!(update_weak_field(VALUE(0x3000), true, &l), WeakFieldUpdate::Unchanged);
    assert_eq!(update_weak_field(VALUE(0x4000), true, &l), WeakFieldUpdate::Clear(VALUE(QUNDEF)));
    assert_eq!(update_weak_field(VALUE(0x5000), false, &l), WeakFieldUpdate::Invalid);
    let (updates, stats) = update_weak_fields(
        &vec![VALUE(0x1000), VALUE(0x3000), VALUE(0x4000), VALUE(0x4)],
        &vec![true, true, true, false],
        &l,
    );
    assert_eq!(
        updates,
        vec![
            WeakFieldUpdate::Forward(VALUE(0x2000)),
            WeakFieldUpdate::Unchanged,
            WeakFieldUpdate::Clear(VALUE(QUNDEF)),
            WeakFieldUpdate::Unchanged
        ]
    );
    assert_eq!(stats.num_fields, 4);
    assert_eq!(stats.live, 2);
    assert_eq!(stats.forwarded, 1);
}

#[test]
fn special_consts() {
    assert!(my_special_const_p(VALUE(0x0)));
    assert!(my_special_const_p(VALUE(0x1)));
    assert!(my_special_const_p(VALUE(0x4)));
    assert!(my_special_const_p(VALUE(QUNDEF)));
    assert!(!my_special_const_p(VALUE(0x1000)));
    assert!(VALUE(0x14).is_special_const());
    assert!(!VALUE(0x7f00_0000_0008).is_special_const());
}

#[test]
fn process_weak_stuff_schedule_order() {
    let wp = WeakProcessor::new();
    let s = wp.process_weak_stuff();
    assert_eq!(
        s,
        vec![
            WeakWork::ProcessObjFreeCandidates,
            WeakWork::UpdateTable(WeakTable::CiTable),
            WeakWork::UpdateTable(WeakTable::OverloadedCmeTable),
            WeakWork::UpdateTable(WeakTable::FinalizerAndObjIdTables),
            WeakWork::UpdateTable(WeakTable::GenericFieldsTable),
            WeakWork::UpdateTable(WeakTable::CCRefinementTable),
            WeakWork::UpdateWbUnprotectedObjectsList,
            WeakWork::UpdateWeakFields,
            WeakWork::UpdateConcurrentSet(WeakConcurrentSetKind::FString),
            WeakWork::UpdateConcurrentSet(WeakConcurrentSetKind::GlobalSymbols),
        ]
    );
}

#[test]
fn weak_table_chunking_scenario() {
    let info = StSizeInfo { entries_start: 0, entries_bound: 10050, bins_num: 100 };
    let mut sweep = process_weak_table_chunked(0xabc0, true, false, true, info, 4096, 64);
    let ranges: Vec<(usize, usize)> = sweep.entries.iter().map(|p| (p.begin, p.end)).collect();
    assert_eq!(ranges, vec![(0, 4096), (4096, 8192), (8192, 10050)]);
    assert!(sweep.entries.iter().all(|p| p.table == 0xabc0 && p.weak_keys && !p.weak_values && p.forward));
    assert_eq!(sweep.after_entries.counter(), 3);
    // completion order does not matter: only the third count-down releases the bins
    assert!(sweep.after_entries.count_down().is_none());
    assert!(sweep.after_entries.count_down().is_none());
    let bins = sweep.after_entries.count_down().expect("last count-down releases");
    let bin_ranges: Vec<(usize, usize)> = bins.iter().map(|b| (b.begin, b.end)).collect();
    assert_eq!(bin_ranges, vec![(0, 64), (64, 100)]);
}

#[test]
fn weak_table_nonzero_start() {
    let info = StSizeInfo { entries_start: 10, entries_bound: 25, bins_num: 0 };
    let sweep = process_weak_table_chunked(1, false, true, false, info, 10, 10);
    let ranges: Vec<(usize, usize)> = sweep.entries.iter().map(|p| (p.begin, p.end)).collect();
    assert_eq!(ranges, vec![(10, 20), (20, 25)]);
    assert_eq!(sweep.after_entries.counter(), 2);
}

#[test]
fn concurrent_set_chunking() {
    assert!(process_weak_concurrent_set_chunked(None, WeakConcurrentSetKind::FString, 100, 10).is_none());
    let set = obj(0x7000);
    let sweep = process_weak_concurrent_set_chunked(Some(set), WeakConcurrentSetKind::GlobalSymbols, 25, 10)
        .expect("set exists");
    let ranges: Vec<(usize, usize)> = sweep.chunks.iter().map(|p| (p.begin, p.end)).collect();
    assert_eq!(ranges, vec![(0, 10), (10, 20), (20, 25)]);
    assert!(sweep.chunks.iter().all(|p| p.set == set && p.kind == WeakConcurrentSetKind::GlobalSymbols));
    assert_eq!(sweep.counter.counter(), 3);
    let empty = process_weak_concurrent_set_chunked(Some(set), WeakConcurrentSetKind::FString, 0, 10).unwrap();
    assert!(empty.chunks.is_empty());
    assert_eq!(WeakConcurrentSetKind::FString.as_u8(), 0);
    assert_eq!(WeakConcurrentSetKind::GlobalSymbols.as_u8(), 1);
}

#[test]
fn child_visitor_session() {
    let mut l = Liveness::new();
    assert!(l.record_forwarding(obj(0x1000), obj(0x2000)));
    let mut c = ObjectClosure::new();
    assert_eq!(c.visit(&l, obj(0x1000), false), Err(ObjectClosureError::Unregistered));
    assert_eq!(c.visitor(), None);
    assert_eq!(c.set_temporarily(ChildVisitor::Forward), Ok(()));
    assert_eq!(c.visitor(), Some(ChildVisitor::Forward));
    assert_eq!(c.set_temporarily(ChildVisitor::PinChildren), Err(ObjectClosureError::Reentered));
    assert_eq!(c.visit(&l, obj(0x1000), false), Ok(obj(0x2000)));
    assert!(c.reset().is_empty());
    assert_eq!(c.set_temporarily(ChildVisitor::PinChildren), Ok(()));
    assert_eq!(c.visit(&l, obj(0x1000), true), Ok(obj(0x1000)));
    assert_eq!(c.visit(&l, obj(0x3000), false), Ok(obj(0x3000)));
    assert_eq!(c.reset(), vec![obj(0x1000)]);
    assert_eq!(c.visit(&l, obj(0x1000), true), Err(ObjectClosureError::Unregistered));
    assert_eq!(c.set_temporarily(ChildVisitor::CollectRoots), Ok(()));
    c.visit(&l, obj(0x1000), false).unwrap();
    c.visit(&l, obj(0x3000), true).unwrap();
    assert_eq!(c.reset(), vec![obj(0x1000), obj(0x3000)]);
    let w = GCThreadTLS::for_worker();
    assert_eq!(w.kind, GCThreadKind::Worker);
    assert_eq!(GCThreadTLS::for_controller().kind, GCThreadKind::Controller);
}
