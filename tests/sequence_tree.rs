use automerge_seq::{ActorId, OpId, SequenceTree};

fn actor(name: &str) -> ActorId {
    ActorId(name.as_bytes().to_vec())
}

fn op(counter: u64, a: &ActorId) -> OpId {
    OpId::new(counter, a)
}

fn values<T: Clone>(tree: &SequenceTree<T>) -> Vec<T> {
    let mut out = Vec::new();
    for i in 0..tree.len() {
        out.push(tree.get(i).unwrap().1.clone());
    }
    out
}

#[test]
fn new_tree_is_empty() {
    let tree: SequenceTree<u32> = SequenceTree::new();
    assert_eq!(tree.len(), 0);
    assert!(tree.get(0).is_none());
}

#[test]
fn end_to_end_scenario() {
    let a = actor("A");
    let mut tree = SequenceTree::new();
    tree.push_back(op(1, &a), "a");
    tree.push_back(op(2, &a), "b");
    tree.insert(1, op(3, &a), "x");
    assert_eq!(values(&tree), vec!["a", "x", "b"]);
    assert_eq!(tree.get(1).unwrap().0, op(3, &a));
    assert_eq!(tree.remove(0), "a");
    assert_eq!(values(&tree), vec!["x", "b"]);
    assert_eq!(tree.len(), 2);
    assert!(tree.get(5).is_none());
}

#[test]
fn leaf_split_insert_at_front() {
    let a = actor("A");
    let mut tree = SequenceTree::new();
    tree.push_back(op(1, &a), 10);
    tree.insert(0, op(2, &a), 20);
    assert_eq!(tree.len(), 2);
    assert_eq!(tree.get(0).unwrap(), (op(2, &a), &20));
    assert_eq!(tree.get(1).unwrap(), (op(1, &a), &10));
}

#[test]
fn leaf_split_append() {
    let a = actor("A");
    let mut tree = SequenceTree::new();
    tree.push_back(op(1, &a), 10);
    tree.insert(1, op(2, &a), 20);
    assert_eq!(tree.len(), 2);
    assert_eq!(tree.get(0).unwrap(), (op(1, &a), &10));
    assert_eq!(tree.get(1).unwrap(), (op(2, &a), &20));
}

#[test]
fn front_inserts_reverse_order() {
    let a = actor("A");
    let n: u64 = 50;
    let mut tree = SequenceTree::new();
    for k in 0..n {
        tree.insert(0, op(k, &a), k);
    }
    assert_eq!(tree.len(), n as usize);
    for i in 0..n {
        let (id, v) = tree.get(i as usize).unwrap();
        assert_eq!(id, op(n - 1 - i, &a));
        assert_eq!(*v, n - 1 - i);
    }
}

#[test]
fn push_back_keeps_insertion_order() {
    let a = actor("A");
    let n: u64 = 50;
    let mut tree = SequenceTree::new();
    for k in 0..n {
        tree.push_back(op(k, &a), k);
    }
    for i in 0..n {
        let (id, v) = tree.get(i as usize).unwrap();
        assert_eq!(id, op(i, &a));
        assert_eq!(*v, i);
    }
    assert!(tree.get(n as usize).is_none());
}

#[test]
fn set_then_get_keeps_opid() {
    let a = actor("A");
    let mut tree = SequenceTree::new();
    for k in 0..5u64 {
        tree.push_back(op(k, &a), k * 10);
    }
    assert_eq!(tree.set(3, 99), 30);
    assert_eq!(tree.get(3).unwrap(), (op(3, &a), &99));
    assert_eq!(tree.len(), 5);
    assert_eq!(values(&tree), vec![0, 10, 20, 99, 40]);
}

#[test]
fn get_mut_writes_through() {
    let a = actor("A");
    let mut tree = SequenceTree::new();
    tree.push_back(op(1, &a), 1);
    tree.push_back(op(2, &a), 2);
    tree.insert(0, op(3, &a), 3);
    {
        let (id, v) = tree.get_mut(2).unwrap();
        assert_eq!(id, op(2, &a));
        *v = 7;
    }
    assert!(tree.get_mut(3).is_none());
    assert_eq!(values(&tree), vec![3, 1, 7]);
}

#[test]
fn remove_matches_get_and_shifts() {
    let a = actor("A");
    let mut tree = SequenceTree::new();
    let mut reference = Vec::new();
    for k in 0..10u64 {
        tree.push_back(op(k, &a), k);
        reference.push(k);
    }
    for &i in &[4usize, 0, 7, 3, 5, 0, 2, 1, 1, 0] {
        let expected = *tree.get(i).unwrap().1;
        let before = tree.len();
        assert_eq!(tree.remove(i), expected);
        assert_eq!(reference.remove(i), expected);
        assert_eq!(tree.len(), before - 1);
        assert_eq!(values(&tree), reference);
    }
    assert_eq!(tree.len(), 0);
    tree.push_back(op(20, &a), 20);
    tree.insert(0, op(21, &a), 21);
    assert_eq!(values(&tree), vec![21, 20]);
}

#[test]
fn length_tracks_inserts_and_removes() {
    let a = actor("A");
    let mut tree = SequenceTree::new();
    let mut inserts = 0usize;
    let mut removes = 0usize;
    for k in 0..30u64 {
        tree.insert((k as usize * 7) % (tree.len() + 1), op(k, &a), k);
        inserts += 1;
        assert_eq!(tree.len(), inserts - removes);
        if k % 3 == 2 {
            tree.remove((k as usize * 5) % tree.len());
            removes += 1;
            assert_eq!(tree.len(), inserts - removes);
        }
    }
}

#[test]
fn random_interleaving_matches_reference_list() {
    let a = actor("A");
    let mut tree = SequenceTree::new();
    let mut reference: Vec<(u64, u64)> = Vec::new();
    let mut state: u64 = 0x2545_f491_4f6c_dd1d;
    for step in 0..3000u64 {
        state = state.wrapping_mul(6364136223846793005).wrapping_add(1442695040888963407);
        let r = state >> 33;
        let choice = r % 10;
        if reference.is_empty() || choice < 5 {
            let pos = (r as usize / 10) % (reference.len() + 1);
            tree.insert(pos, op(step, &a), step);
            reference.insert(pos, (step, step));
        } else if choice < 8 {
            let pos = (r as usize / 10) % reference.len();
            assert_eq!(tree.remove(pos), reference.remove(pos).1);
        } else {
            let pos = (r as usize / 10) % reference.len();
            let old = tree.set(pos, step + 100_000);
            assert_eq!(old, reference[pos].1);
            reference[pos].1 = step + 100_000;
        }
        assert_eq!(tree.len(), reference.len());
        for (i, (counter, value)) in reference.iter().enumerate() {
            let (id, v) = tree.get(i).unwrap();
            assert_eq!(id.counter(), *counter);
            assert_eq!(v, value);
        }
    }
}
