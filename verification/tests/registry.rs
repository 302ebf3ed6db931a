use avm2_domain::domain::{Domain, Heap};

#[test]
fn reclaimed_child_leaves_the_registry() {
    let mut heap = Heap::new();
    let parent = Domain::uninitialized_domain(&mut heap, None);
    parent.init_default_domain_memory(&mut heap).unwrap();
    let child = Domain::movie_domain(&mut heap, parent);
    assert_eq!(parent.children(&mut heap), vec![child]);
    assert_eq!(heap.domains[parent.index].children.len(), 1);
    assert!(heap.release(child));
    // Enumeration is what prunes: until then the entry stays.
    assert_eq!(heap.domains[parent.index].children.len(), 1);
    assert_eq!(parent.children(&mut heap), Vec::<Domain>::new());
    assert_eq!(heap.domains[parent.index].children.len(), 0);
}

#[test]
fn live_children_keep_their_order() {
    let mut heap = Heap::new();
    let parent = Domain::uninitialized_domain(&mut heap, None);
    parent.init_default_domain_memory(&mut heap).unwrap();
    let a = Domain::movie_domain(&mut heap, parent);
    let b = Domain::uninitialized_domain(&mut heap, Some(parent));
    let c = Domain::movie_domain(&mut heap, parent);
    assert_eq!(parent.children(&mut heap), vec![a, b, c]);
    assert!(heap.release(b));
    assert_eq!(parent.children(&mut heap), vec![a, c]);
    assert_eq!(heap.domains[parent.index].children.len(), 2);
    assert_eq!(a.children(&mut heap), Vec::<Domain>::new());
}

#[test]
fn a_parent_outlives_its_children() {
    let mut heap = Heap::new();
    let parent = Domain::uninitialized_domain(&mut heap, None);
    parent.init_default_domain_memory(&mut heap).unwrap();
    let child = Domain::movie_domain(&mut heap, parent);
    assert!(!heap.release(parent));
    assert_eq!(child.parent_domain(&heap), Some(parent));
    assert!(heap.release(child));
    assert!(heap.release(parent));
}

#[test]
fn uninitialized_domain_has_no_memory() {
    let mut heap = Heap::new();
    let root = Domain::uninitialized_domain(&mut heap, None);
    assert_eq!(heap.domains[root.index].domain_memory, None);
    assert_eq!(heap.domains[root.index].default_domain_memory, None);
    assert_eq!(heap.domains[root.index].parent, None);
    let child = Domain::uninitialized_domain(&mut heap, Some(root));
    assert_eq!(child.parent_domain(&heap), Some(root));
    assert_eq!(heap.domains[child.index].domain_memory, None);
    assert_eq!(root.children(&mut heap), vec![child]);
}

#[test]
fn weak_handle_resolves_while_the_domain_lives() {
    let mut heap = Heap::new();
    let parent = Domain::uninitialized_domain(&mut heap, None);
    parent.init_default_domain_memory(&mut heap).unwrap();
    let child = Domain::movie_domain(&mut heap, parent);
    let weak = child.downgrade();
    assert_eq!(weak.upgrade(&heap), Some(child));
    assert_eq!(heap.domains[parent.index].children, vec![weak]);
    assert!(heap.release(child));
    assert_eq!(weak.upgrade(&heap), None);
    assert_eq!(parent.downgrade().upgrade(&heap), Some(parent));
}
