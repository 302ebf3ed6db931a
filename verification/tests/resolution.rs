use avm2_domain::class::{Class, Error, Script};
use avm2_domain::domain::{Domain, Heap};
use avm2_domain::names::{Multiname, QName};
use avm2_domain::property_map::PropertyMap;

fn qn(ns: &str, local: &str) -> QName {
    QName::new(ns.as_bytes().to_vec(), local.as_bytes().to_vec())
}

fn mn(namespaces: &[&str], local: &str) -> Multiname {
    Multiname {
        namespace_set: namespaces.iter().map(|n| n.as_bytes().to_vec()).collect(),
        local_name: Some(local.as_bytes().to_vec()),
        param: None,
    }
}

fn root_with_child(heap: &mut Heap) -> (Domain, Domain) {
    let root = Domain::uninitialized_domain(heap, None);
    root.init_default_domain_memory(heap).unwrap();
    let child = Domain::movie_domain(heap, root);
    (root, child)
}

#[test]
fn own_export_shadows_the_parent() {
    let mut heap = Heap::new();
    let (root, child) = root_with_child(&mut heap);
    child.export_definition(&mut heap, qn("pkg", "N"), Script { index: 1 });
    root.export_definition(&mut heap, qn("pkg", "N"), Script { index: 2 });
    let name = mn(&["pkg"], "N");
    assert_eq!(
        child.get_defining_script(&heap, &name),
        Some((qn("pkg", "N"), Script { index: 1 }))
    );
    assert_eq!(
        root.get_defining_script(&heap, &name),
        Some((qn("pkg", "N"), Script { index: 2 }))
    );
}

#[test]
fn parent_export_is_seen_from_the_child() {
    let mut heap = Heap::new();
    let (root, child) = root_with_child(&mut heap);
    root.export_definition(&mut heap, qn("pkg", "N"), Script { index: 7 });
    assert!(child.has_definition(&heap, &qn("pkg", "N")));
    assert!(root.has_definition(&heap, &qn("pkg", "N")));
    assert!(!child.has_definition(&heap, &qn("pkg", "M")));
    assert!(!child.has_definition(&heap, &qn("other", "N")));
    assert_eq!(
        child.get_defining_script(&heap, &mn(&["pkg"], "N")),
        Some((qn("pkg", "N"), Script { index: 7 }))
    );
    assert_eq!(child.defs(&heap).len(), 0);
    assert_eq!(root.defs(&heap).len(), 1);
}

#[test]
fn grandparent_export_is_seen_two_levels_down() {
    let mut heap = Heap::new();
    let (root, child) = root_with_child(&mut heap);
    let grandchild = Domain::movie_domain(&mut heap, child);
    root.export_definition(&mut heap, qn("", "g"), Script { index: 3 });
    assert!(grandchild.has_definition(&heap, &qn("", "g")));
    assert_eq!(
        grandchild.get_defining_script(&heap, &mn(&[""], "g")),
        Some((qn("", "g"), Script { index: 3 }))
    );
}

#[test]
fn second_export_changes_nothing() {
    let mut heap = Heap::new();
    let (_root, child) = root_with_child(&mut heap);
    child.export_definition(&mut heap, qn("pkg", "N"), Script { index: 1 });
    child.export_definition(&mut heap, qn("pkg", "N"), Script { index: 2 });
    child.export_definition(&mut heap, qn("pkg", "N"), Script { index: 1 });
    assert_eq!(
        child.get_defining_script(&heap, &mn(&["pkg"], "N")),
        Some((qn("pkg", "N"), Script { index: 1 }))
    );
    assert_eq!(child.get_defined_names(&heap), vec![qn("pkg", "N")]);
}

#[test]
fn export_below_a_defining_ancestor_is_ignored() {
    let mut heap = Heap::new();
    let (root, child) = root_with_child(&mut heap);
    root.export_definition(&mut heap, qn("pkg", "N"), Script { index: 1 });
    child.export_definition(&mut heap, qn("pkg", "N"), Script { index: 2 });
    assert_eq!(child.defs(&heap).len(), 0);
    assert_eq!(
        child.get_defining_script(&heap, &mn(&["pkg"], "N")),
        Some((qn("pkg", "N"), Script { index: 1 }))
    );
}

#[test]
fn undefined_name_in_a_root_is_not_found() {
    let mut heap = Heap::new();
    let root = Domain::uninitialized_domain(&mut heap, None);
    assert_eq!(root.get_defining_script(&heap, &mn(&["pkg"], "N")), None);
    assert!(!root.has_definition(&heap, &qn("pkg", "N")));
    assert_eq!(root.parent_domain(&heap), None);
}

#[test]
fn find_defining_script_reports_the_local_name() {
    let mut heap = Heap::new();
    let (root, child) = root_with_child(&mut heap);
    root.export_definition(&mut heap, qn("pkg", "N"), Script { index: 4 });
    assert_eq!(
        child.find_defining_script(&heap, &mn(&["pkg"], "N")),
        Ok((qn("pkg", "N"), Script { index: 4 }))
    );
    let r = child.find_defining_script(&heap, &mn(&["pkg"], "Missing"));
    assert_eq!(r, Err(Error::UndefinedVariable { name: b"Missing".to_vec() }));
    assert_eq!(r.unwrap_err().code(), 1065);
    let nameless = Multiname { namespace_set: vec![b"pkg".to_vec()], local_name: None, param: None };
    assert_eq!(
        child.find_defining_script(&heap, &nameless),
        Err(Error::UndefinedVariable { name: b"*".to_vec() })
    );
}

#[test]
fn multiname_takes_the_earliest_binding_of_its_namespaces() {
    let mut heap = Heap::new();
    let root = Domain::uninitialized_domain(&mut heap, None);
    root.export_definition(&mut heap, qn("a", "N"), Script { index: 1 });
    root.export_definition(&mut heap, qn("b", "N"), Script { index: 2 });
    root.export_definition(&mut heap, qn("c", "N"), Script { index: 3 });
    assert_eq!(
        root.get_defining_script(&heap, &mn(&["c", "b"], "N")),
        Some((qn("b", "N"), Script { index: 2 }))
    );
    assert_eq!(root.get_defining_script(&heap, &mn(&["d"], "N")), None);
    assert_eq!(root.get_defining_script(&heap, &mn(&[], "N")), None);
    assert_eq!(
        root.get_defined_names(&heap),
        vec![qn("a", "N"), qn("b", "N"), qn("c", "N")]
    );
}

#[test]
fn class_export_stays_in_its_own_domain() {
    let mut heap = Heap::new();
    let root = Domain::uninitialized_domain(&mut heap, None);
    root.init_default_domain_memory(&mut heap).unwrap();
    let root_memory = root.domain_memory(&heap);
    assert_eq!(heap.byte_array_len(root_memory), 1024);
    assert!(heap.byte_arrays[root_memory.index].iter().all(|b| *b == 0));
    let movie = Domain::movie_domain(&mut heap, root);
    assert_eq!(movie.parent_domain(&heap), Some(root));
    let memory = movie.domain_memory(&heap);
    assert_eq!(heap.byte_array_len(memory), 1024);
    assert!(movie.is_default_domain_memory(&heap));
    let foo = QName::from_qualified_name(b"pkg::Foo");
    movie.export_class(&mut heap, foo.duplicate(), Class::Defined { id: 1, generic: false });
    assert!(movie.has_class(&heap, &foo));
    assert!(!root.has_class(&heap, &foo));
    assert_eq!(movie.classes(&heap).len(), 1);
    assert_eq!(root.classes(&heap).len(), 0);
}

#[test]
fn class_export_twice_keeps_the_first_class() {
    let mut heap = Heap::new();
    let (root, child) = root_with_child(&mut heap);
    root.export_class(&mut heap, qn("pkg", "C"), Class::Defined { id: 1, generic: false });
    child.export_class(&mut heap, qn("pkg", "C"), Class::Defined { id: 2, generic: false });
    root.export_class(&mut heap, qn("pkg", "C"), Class::Defined { id: 3, generic: false });
    assert!(child.has_class(&heap, &qn("pkg", "C")));
    assert_eq!(
        child.get_class(&heap, &mn(&["pkg"], "C")),
        Some(Class::Defined { id: 1, generic: false })
    );
}

#[test]
fn class_parameter_states() {
    let mut heap = Heap::new();
    let (root, child) = root_with_child(&mut heap);
    let vector_class = || Class::Defined { id: 10, generic: true };
    let int_class = || Class::Defined { id: 11, generic: false };
    root.export_class(&mut heap, qn("__AS3__.vec", "Vector"), vector_class());
    child.export_class(&mut heap, qn("", "int"), int_class());

    let plain = mn(&["__AS3__.vec"], "Vector");
    assert_eq!(child.get_class(&heap, &plain), Some(vector_class()));

    let mut any = mn(&["__AS3__.vec"], "Vector");
    any.param = Some(None);
    assert_eq!(child.get_class(&heap, &any), Some(Class::with_type_param(vector_class(), None)));

    let mut of_int = mn(&["__AS3__.vec"], "Vector");
    of_int.param = Some(Some(Box::new(mn(&[""], "int"))));
    assert_eq!(
        child.get_class(&heap, &of_int),
        Some(Class::with_type_param(vector_class(), Some(int_class())))
    );

    let mut inner = mn(&["__AS3__.vec"], "Vector");
    inner.param = Some(Some(Box::new(mn(&[""], "int"))));
    let mut nested = mn(&["__AS3__.vec"], "Vector");
    nested.param = Some(Some(Box::new(inner)));
    assert_eq!(
        child.get_class(&heap, &nested),
        Some(Class::with_type_param(
            vector_class(),
            Some(Class::with_type_param(vector_class(), Some(int_class())))
        ))
    );

    // The class int is defined in the child only: from the root the
    // parameter resolves to nothing, and so does the whole name.
    assert_eq!(root.get_class(&heap, &of_int), None);

    let mut missing_base = mn(&["pkg"], "Nothing");
    missing_base.param = Some(None);
    assert_eq!(child.get_class(&heap, &missing_base), None);
}

#[test]
fn property_map_binds_each_name_once() {
    let mut map: PropertyMap<u32> = PropertyMap::new();
    assert_eq!(map.len(), 0);
    map.insert(qn("a", "x"), 1);
    map.insert(qn("b", "x"), 2);
    map.insert(qn("a", "x"), 3);
    assert_eq!(map.len(), 2);
    assert_eq!(map.get(&qn("a", "x")), Some(&3));
    assert_eq!(map.get(&qn("b", "x")), Some(&2));
    assert_eq!(map.get(&qn("c", "x")), None);
    assert!(map.contains_key(&qn("b", "x")));
    assert!(!map.contains_key(&qn("b", "y")));
    assert_eq!(map.get_for_multiname(&mn(&["b", "a"], "x")), Some(&3));
    let q = qn("b", "x");
    assert_eq!(map.get_with_ns_for_multiname(&mn(&["b"], "x")), Some((&q, &2)));
    assert_eq!(map.names(), vec![qn("a", "x"), qn("b", "x")]);
}

#[test]
fn multiname_of_a_qualified_name_accepts_only_it() {
    let m = Multiname::from_qname(&qn("pkg", "N"));
    assert!(m.matches_name(&qn("pkg", "N")));
    assert!(!m.matches_name(&qn("pkg", "M")));
    assert!(!m.matches_name(&qn("other", "N")));
    assert!(m.has_namespace(b"pkg"));
    assert!(!m.has_namespace(b"pk"));
    assert!(qn("pkg", "N").same(&qn("pkg", "N")));
    assert!(!qn("pkg", "N").same(&qn("pkg", "n")));
}

#[test]
fn handles_are_compared_by_slot() {
    let mut heap = Heap::new();
    let (root, child) = root_with_child(&mut heap);
    assert!(root.is_playerglobals_domain(root));
    assert!(!child.is_playerglobals_domain(root));
    assert_eq!(root.as_ptr(), Domain { index: root.index }.as_ptr());
    assert_ne!(root.as_ptr(), child.as_ptr());
    assert_ne!(root, child);
}
