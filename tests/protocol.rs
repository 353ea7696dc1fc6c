use automerge_seq::protocol::{
    ActorId, DataType, ElementId, Key, MapType, ObjType, ObjectId, OpId, SequenceType, SortedVec,
};

#[test]
fn hex_string_of_actor() {
    let a = ActorId(vec![0x01, 0xab, 0xff, 0x00, 0x9c]);
    assert_eq!(a.to_hex_string(), "01abff009c");
    assert_eq!(ActorId(vec![]).to_hex_string(), "");
}

#[test]
fn random_actor_has_sixteen_bytes() {
    let a = ActorId::random();
    let b = ActorId::random();
    assert_eq!(a.to_bytes().len(), 16);
    assert_eq!(a.to_hex_string().len(), 32);
    assert_ne!(a, b);
}

#[test]
fn opid_helpers() {
    let a = ActorId(vec![1, 2, 3]);
    let id = a.op_id_at(5);
    assert_eq!(id, OpId(5, a.clone()));
    assert_eq!(id.counter(), 5);
    assert_eq!(id.increment_by(3), OpId::new(8, &a));
    assert!(id.delta(&OpId::new(8, &a), 3));
    assert!(!id.delta(&OpId::new(8, &a), 2));
    assert!(!id.delta(&OpId::new(4, &a), 0));
    assert!(!id.delta(&OpId::new(8, &ActorId(vec![9])), 3));
    assert!(!OpId::new(u64::MAX, &a).delta(&OpId::new(1, &a), 2));
}

#[test]
fn element_id_and_key() {
    let a = ActorId(vec![7]);
    let e = ElementId::Id(OpId::new(2, &a));
    assert!(e.not_head());
    assert!(!ElementId::Head.not_head());
    assert_eq!(e.as_opid(), Some(&OpId::new(2, &a)));
    assert_eq!(ElementId::Head.as_opid(), None);
    assert_eq!(e.increment_by(4), Some(ElementId::Id(OpId::new(6, &a))));
    assert_eq!(ElementId::Head.increment_by(4), None);

    let k = e.clone().into_key();
    assert_eq!(k, Key::SeqKey(e.clone()));
    assert!(!k.is_map_key());
    assert_eq!(k.as_element_id(), Some(e.clone()));
    assert_eq!(k.to_opid(), Some(OpId::new(2, &a)));
    assert_eq!(k.increment_by(1), Some(Key::SeqKey(ElementId::Id(OpId::new(3, &a)))));

    let m = Key::MapKey("title".to_string());
    assert!(m.is_map_key());
    assert_eq!(m.as_element_id(), None);
    assert_eq!(m.to_opid(), None);
    assert_eq!(m.increment_by(1), None);
    assert_eq!(Key::head(), Key::SeqKey(ElementId::Head));
    assert_eq!(Key::head().to_opid(), None);
    assert_eq!(Key::head().increment_by(1), None);
    assert_ne!(ObjectId::Root, ObjectId::Id(OpId::new(1, &a)));
}

#[test]
fn object_types() {
    assert!(ObjType::List.is_sequence());
    assert!(ObjType::Text.is_sequence());
    assert!(!ObjType::MapObj.is_sequence());
    assert!(!ObjType::Table.is_sequence());
    assert_eq!(ObjType::from(MapType::Table), ObjType::Table);
    assert_eq!(ObjType::from(MapType::MapObj), ObjType::MapObj);
    assert_eq!(ObjType::from(SequenceType::Text), ObjType::Text);
    assert!(DataType::is_undefined(&DataType::Undefined));
    assert!(!DataType::is_undefined(&DataType::Counter));
}

#[test]
fn sorted_vec_access() {
    let mut v: SortedVec<u32> = SortedVec::new();
    assert!(v.is_empty());
    assert_eq!(v.len(), 0);
    assert_eq!(v.get(0), None);
    assert!(v.get_mut(0).is_none());
    assert_eq!(v.iter().count(), 0);
}

#[test]
fn opid_order_counter_then_actor() {
    let a = ActorId(vec![1, 2]);
    let b = ActorId(vec![1, 3]);
    let prefix = ActorId(vec![1]);
    assert!(OpId::new(1, &b).precedes(&OpId::new(2, &a)));
    assert!(!OpId::new(2, &a).precedes(&OpId::new(1, &b)));
    assert!(OpId::new(2, &a).precedes(&OpId::new(2, &b)));
    assert!(!OpId::new(2, &b).precedes(&OpId::new(2, &a)));
    assert!(OpId::new(2, &prefix).precedes(&OpId::new(2, &a)));
    assert!(!OpId::new(2, &a).precedes(&OpId::new(2, &prefix)));
    assert!(OpId::new(2, &a).precedes(&OpId::new(2, &a)));
}

#[test]
fn sorted_vec_from_unsorted() {
    let a = ActorId(vec![0xaa]);
    let b = ActorId(vec![0xbb]);
    let items = vec![
        OpId::new(5, &a),
        OpId::new(1, &b),
        OpId::new(5, &b),
        OpId::new(1, &a),
        OpId::new(3, &a),
        OpId::new(1, &a),
    ];
    let v = SortedVec::from_unsorted(items);
    assert_eq!(v.len(), 6);
    assert!(!v.is_empty());
    let got: Vec<&OpId> = v.iter().collect();
    assert_eq!(
        got,
        vec![
            &OpId::new(1, &a),
            &OpId::new(1, &a),
            &OpId::new(1, &b),
            &OpId::new(3, &a),
            &OpId::new(5, &a),
            &OpId::new(5, &b),
        ]
    );
    assert_eq!(v.get(3), Some(&OpId::new(3, &a)));
    assert_eq!(v.get(6), None);
    let empty = SortedVec::from_unsorted(Vec::new());
    assert!(empty.is_empty());
}

#[test]
fn sorted_vec_get_mut_writes_through() {
    let a = ActorId(vec![1]);
    let mut v = SortedVec::from_unsorted(vec![OpId::new(2, &a), OpId::new(1, &a)]);
    *v.get_mut(1).unwrap() = OpId::new(9, &a);
    assert_eq!(v.get(1), Some(&OpId::new(9, &a)));
    assert!(v.get_mut(2).is_none());
}
