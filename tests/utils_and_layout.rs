use mmtk_ruby::address_buffer::AddressBuffer;
use mmtk_ruby::binding::{CopyRecordError, MovedGIVTbl, RubyBindingFast, RubyBindingFastMut};
use mmtk_ruby::cruby_support::cruby_extra::{
    get_imemo_type, rarray_embed_ary_addr, rarray_embed_len, robject_shape_id, shape_id_is_too_complex,
    IMEMO_MMTK_OBJBUF, OBJ_TOO_COMPLEX_SHAPE_ID,
};
use mmtk_ruby::cruby_support::flag_tests::{
    all_set, any_set, rarray_is_embedded, robject_has_exivar, robject_is_embedded, rstring_is_embedded,
    rstring_is_shared, rstring_no_free,
};
use mmtk_ruby::finalize::FinalizerProcessor;
use mmtk_ruby::gc_work::ObjectsToObjectsWork;
use mmtk_ruby::object::{ObjectReference, VALUE};
use mmtk_ruby::object_model::{is_mmtk_object_safe, mmtk_hidden_header_is_sane, VMObjectModel};
use mmtk_ruby::utils::{chunk_ranges, AfterAll, ChunkedVecCollector, GenList, WorkBucketStage};
use mmtk_ruby::vm::BindingState;

fn obj(a: usize) -> ObjectReference {
    ObjectReference::from_raw_address(a)
}

#[test]
fn chunk_ranges_cover_without_overlap() {
    assert_eq!(chunk_ranges(0, 10050, 4096), vec![(0, 4096), (4096, 8192), (8192, 10050)]);
    assert_eq!(chunk_ranges(0, 8192, 4096), vec![(0, 4096), (4096, 8192)]);
    assert!(chunk_ranges(0, 0, 4096).is_empty());
    assert!(chunk_ranges(7, 3, 4).is_empty());
    assert_eq!(chunk_ranges(0, 1, 4096), vec![(0, 1)]);
    assert_eq!(chunk_ranges(usize::MAX - 3, usize::MAX, 2), vec![(usize::MAX - 3, usize::MAX - 1), (usize::MAX - 1, usize::MAX)]);
    let r = chunk_ranges(3, 100, 7);
    assert_eq!(r[0].0, 3);
    assert_eq!(r.last().unwrap().1, 100);
    for w in r.windows(2) {
        assert_eq!(w[0].1, w[1].0);
    }
}

#[test]
fn after_all_fires_exactly_once() {
    let mut aa: AfterAll<u32> = AfterAll::new(WorkBucketStage::VMRefClosure);
    aa.add_packets(vec![7, 8]);
    aa.count_up(4);
    assert_eq!(aa.stage(), WorkBucketStage::VMRefClosure);
    let mut fired = Vec::new();
    for _ in 0..4 {
        if let Some(p) = aa.count_down() {
            fired.push(p);
        }
    }
    assert_eq!(fired, vec![vec![7, 8]]);
    assert_eq!(aa.counter(), 0);
}

#[test]
fn chunked_vec_collector_splits() {
    let mut c = ChunkedVecCollector::new(2);
    for i in 1..=5u32 {
        c.add(i);
    }
    assert_eq!(c.into_vecs(), vec![vec![1, 2], vec![3, 4], vec![5]]);
    let mut c = ChunkedVecCollector::new(2);
    c.add(1u32);
    c.add(2u32);
    assert_eq!(c.into_vecs(), vec![vec![1, 2]]);
    let c: ChunkedVecCollector<u32> = ChunkedVecCollector::new(3);
    assert!(c.into_vecs().is_empty());
}

#[test]
fn gen_list_generations() {
    let mut g: GenList<u32> = GenList::new();
    g.push(1);
    g.extend(vec![2, 3]);
    assert_eq!(g.young(), &[1, 2, 3][..]);
    assert!(g.old_generation().is_empty());
    g.promote();
    assert!(g.young().is_empty());
    assert_eq!(g.old_generation(), &[1, 2, 3][..]);
    g.push(4);
    g.push(5);
    g.retain_mut_young(|x: &u32| if *x % 2 == 0 { Some(*x * 10) } else { None });
    assert_eq!(g.young(), &[40][..]);
    assert_eq!(g.old_generation(), &[1, 2, 3][..]);
    g.retain_mut_old(|x: &u32| if *x != 2 { Some(*x) } else { None });
    assert_eq!(g.old_generation(), &[1, 3][..]);
    g.promote();
    assert_eq!(g.old_generation(), &[1, 3, 40][..]);
}

#[test]
fn flag_bit_tests() {
    assert!(all_set(0b1110, 0b0110));
    assert!(!all_set(0b1010, 0b0110));
    assert!(any_set(0b1010, 0b0110));
    assert!(!any_set(0b1000, 0b0110));
    assert!(robject_has_exivar(0x400));
    assert!(!robject_has_exivar(0x800));
    assert!(robject_is_embedded(0x2000));
    assert!(!robject_is_embedded(0x0));
    assert!(rstring_is_embedded(0x0));
    assert!(!rstring_is_embedded(0x2000));
    assert!(rstring_no_free(0x4000_0000));
    assert!(rstring_is_shared(0x6000));
    assert!(!rstring_is_shared(0x4000));
    assert!(rarray_is_embedded(0x2000));
}

#[test]
fn header_field_extraction() {
    assert_eq!(robject_shape_id(0x0000_0005_0000_1234), 5);
    assert_eq!(robject_shape_id(0xFFFF_FFFF_0000_0000), 0xFFFF_FFFF);
    assert!(shape_id_is_too_complex(OBJ_TOO_COMPLEX_SHAPE_ID));
    assert!(!shape_id_is_too_complex(7));
    assert_eq!(rarray_embed_len(3 << 15), 3);
    assert_eq!(rarray_embed_len((3 << 15) | 0x2000 | (1 << 22)), 3);
    assert_eq!(rarray_embed_ary_addr(VALUE(0x1000)), 0x1010);
    assert_eq!(get_imemo_type(15 << 12), IMEMO_MMTK_OBJBUF);
    assert_eq!(get_imemo_type((0x3f << 12) | 0xfff), 15);
    assert_eq!(VALUE(0x1234).as_basic(), 0x1234);
}

#[test]
fn object_access_layer() {
    assert_eq!(VMObjectModel::ref_to_object_start(obj(0x1008)), 0x1000);
    assert_eq!(VMObjectModel::ref_to_header(obj(0x1008)), 0x1008);
    assert_eq!(VMObjectModel::payload_size(40), Some(40));
    assert_eq!(VMObjectModel::payload_size(1 << 48), None);
    assert!(mmtk_hidden_header_is_sane(0xFFFF_FFFF_FFFF));
    assert!(!mmtk_hidden_header_is_sane(0x1_0000_0000_0000));
    assert_eq!(VMObjectModel::object_size(40, 0), 48);
    assert_eq!(VMObjectModel::get_current_size(40, 16), Some(64));
    assert_eq!(VMObjectModel::get_current_size(u64::MAX, 0), None);
    assert!(is_mmtk_object_safe(0x1008, true));
    assert!(!is_mmtk_object_safe(0x1004, true));
    assert!(!is_mmtk_object_safe(0, true));
    assert!(!is_mmtk_object_safe(0x1008, false));
}

#[test]
fn finalizer_processor_polls_only_with_include_live() {
    let mut f = FinalizerProcessor::new();
    f.register_finalizable(obj(0x10));
    f.register_finalizable(obj(0x20));
    assert_eq!(f.poll_finalizable(false), None);
    assert_eq!(f.poll_finalizable(true), Some(obj(0x20)));
    assert_eq!(f.candidates(), &vec![obj(0x10)]);
    assert_eq!(f.poll_finalizable(true), Some(obj(0x10)));
    assert_eq!(f.poll_finalizable(true), None);
    let s = BindingState::new();
    assert!(s.finalizer_processor.candidates().is_empty());
}

#[test]
fn address_buffer_take() {
    let mut b = AddressBuffer::create();
    assert!(b.is_empty());
    b.push(0x10);
    b.push(0x20);
    assert!(!b.is_empty());
    let filled = b.take_as_filled_buffer();
    assert!(b.is_empty());
    assert_eq!(filled.as_objref_vec(), vec![obj(0x10), obj(0x20)]);
    b.push(0x30);
    assert_eq!(b.take_as_filled_buffer().as_address_vec(), vec![0x30]);
}

#[test]
fn objects_to_objects_follow_up_packets() {
    let dest: Vec<ObjectReference> = (1..=5usize).map(|i| obj(i * 8)).collect();
    let packets = ObjectsToObjectsWork::next_packets(&dest, 2);
    let sizes: Vec<usize> = packets.iter().map(|p| p.src_objs.len()).collect();
    assert_eq!(sizes, vec![2, 2, 1]);
    let flat: Vec<ObjectReference> = packets.into_iter().flat_map(|p| p.src_objs).collect();
    assert_eq!(flat, dest);
    assert!(ObjectsToObjectsWork::next_packets(&vec![], 4).is_empty());
    let full = ObjectsToObjectsWork::next_packets(&dest[..4].to_vec(), 2);
    assert_eq!(full.len(), 2);
    assert_eq!(ObjectsToObjectsWork::new(vec![obj(8)]).src_objs, vec![obj(8)]);
}

#[test]
fn moved_givtbl_drains_each_entry_once() {
    let mut m = MovedGIVTbl::new();
    assert!(m.insert(obj(0x200), obj(0x100), 0xdead0));
    assert!(m.insert(obj(0x400), obj(0x300), 0xbeef0));
    assert!(!m.insert(obj(0x400), obj(0x500), 0xcafe0));
    let e = m.drain();
    assert_eq!(e.len(), 2);
    assert_eq!(e[0].new_objref, obj(0x200));
    assert_eq!(e[0].old_objref, obj(0x100));
    assert_eq!(e[1].gen_ivtbl, 0xbeef0);
    assert!(m.drain().is_empty());
}

#[test]
fn copied_object_records_table_move_only_with_exivar() {
    let mut m = MovedGIVTbl::new();
    assert_eq!(m.record_copied_object(obj(0x100), obj(0x200), 0x0, 0xdead0), Ok(false));
    assert_eq!(m.record_copied_object(obj(0x100), obj(0x200), 0x400, 0), Err(CopyRecordError::MissingGenIvtbl));
    assert_eq!(m.record_copied_object(obj(0x100), obj(0x200), 0x400 | 0x5, 0xdead0), Ok(true));
    assert_eq!(
        m.record_copied_object(obj(0x180), obj(0x200), 0x400, 0xbeef0),
        Err(CopyRecordError::AlreadyRecorded)
    );
    let e = m.drain();
    assert_eq!(e.len(), 1);
    assert_eq!((e[0].new_objref, e[0].old_objref, e[0].gen_ivtbl), (obj(0x200), obj(0x100), 0xdead0));
}

#[test]
fn binding_fast_defaults() {
    assert!(RubyBindingFast::new().gc_enabled);
    assert_eq!(RubyBindingFastMut::new().suffix_size, 0);
}
