use validated_struct::model::{AttrRef, FieldSpec, FieldType, StructSpec};

fn attr(id: usize) -> AttrRef {
    AttrRef { id, is_doc: false }
}

fn ids(v: &[AttrRef]) -> Vec<usize> {
    v.iter().map(|a| a.id).collect()
}

fn field(name: &str, ty: FieldType, constraint: Option<usize>, attributes: Vec<AttrRef>) -> FieldSpec {
    FieldSpec { attributes, ident: name.to_string(), ty, constraint }
}

fn decl(name: &str, attrs: Vec<AttrRef>, recursive: Vec<AttrRef>, fields: Vec<FieldSpec>) -> StructSpec {
    StructSpec { attrs, recursive_attrs: recursive, ident: name.to_string(), fields }
}

/// Hello { a: String where (0), b: Hi { c: Vec<f64>, d: usize } where (1) },
/// with attribute 0 before the marker and 1, 2, 3 after it.
fn hello() -> StructSpec {
    let hi = decl(
        "Hi",
        vec![],
        vec![],
        vec![
            field("c", FieldType::Concrete(1), None, vec![]),
            field("d", FieldType::Concrete(2), None, vec![]),
        ],
    );
    decl(
        "Hello",
        vec![attr(0)],
        vec![attr(1), attr(2), attr(3)],
        vec![
            field("a", FieldType::Concrete(0), Some(0), vec![attr(10)]),
            field("b", FieldType::Structure(hi), Some(1), vec![attr(11)]),
        ],
    )
}

#[test]
fn flatten_lists_nested_first() {
    let list = hello().flatten();
    let names: Vec<&str> = list.iter().map(|s| s.ident.as_str()).collect();
    assert_eq!(names, vec!["Hi", "Hello"]);
}

#[test]
fn flatten_hands_recursive_attrs_down() {
    let list = hello().flatten();
    assert_eq!(ids(&list[0].attrs), vec![1, 2, 3]);
    assert_eq!(ids(&list[1].attrs), vec![0, 1, 2, 3]);
    assert!(list.iter().all(|s| s.recursive_attrs.is_empty()));
}

#[test]
fn flatten_keeps_fields() {
    let list = hello().flatten();
    let root = &list[1];
    assert_eq!(root.fields.len(), 2);
    assert_eq!(root.fields[0].ident, "a");
    assert_eq!(root.fields[0].constraint, Some(0));
    assert_eq!(ids(&root.fields[0].attributes), vec![10]);
    assert_eq!(root.fields[1].ident, "b");
    assert_eq!(root.fields[1].constraint, Some(1));
    match &root.fields[1].ty {
        FieldType::Structure(s) => {
            assert_eq!(s.ident, "Hi");
            assert_eq!(ids(&s.attrs), vec![1, 2, 3]);
        }
        FieldType::Concrete(_) => panic!("b should hold a structure"),
    }
    assert!(matches!(root.fields[0].ty, FieldType::Concrete(0)));
}

#[test]
fn flatten_go_returns_root_and_keeps_stack() {
    let mut list = Vec::new();
    let mut stack = vec![vec![attr(7)]];
    let root = hello().flatten_go(&mut list, &mut stack);
    assert_eq!(stack.len(), 1);
    assert_eq!(ids(&stack[0]), vec![7]);
    assert_eq!(ids(&root.attrs), vec![0, 7, 1, 2, 3]);
    assert_eq!(ids(&list[0].attrs), vec![7, 1, 2, 3]);
    assert_eq!(list.len(), 2);
    assert_eq!(list[1].ident, "Hello");
}

#[test]
fn flatten_deep_nesting_order_and_attrs() {
    // A { x: B { y: C { z: u8 } }, w: D { } } with A handing 1 down and B handing 2 down
    let c = decl("C", vec![attr(30)], vec![], vec![field("z", FieldType::Concrete(0), None, vec![])]);
    let b = decl("B", vec![attr(20)], vec![attr(2)], vec![field("y", FieldType::Structure(c), None, vec![])]);
    let d = decl("D", vec![], vec![], vec![]);
    let a = decl(
        "A",
        vec![attr(10)],
        vec![attr(1)],
        vec![
            field("x", FieldType::Structure(b), None, vec![]),
            field("w", FieldType::Structure(d), None, vec![]),
        ],
    );
    let list = a.flatten();
    let names: Vec<&str> = list.iter().map(|s| s.ident.as_str()).collect();
    assert_eq!(names, vec!["C", "B", "D", "A"]);
    assert_eq!(ids(&list[0].attrs), vec![30, 1, 2]);
    assert_eq!(ids(&list[1].attrs), vec![20, 1, 2]);
    assert_eq!(ids(&list[2].attrs), vec![1]);
    assert_eq!(ids(&list[3].attrs), vec![10, 1]);
}

#[test]
fn flatten_without_nesting_yields_itself() {
    let s = decl("Plain", vec![attr(5)], vec![], vec![field("n", FieldType::Concrete(3), None, vec![])]);
    let list = s.flatten();
    assert_eq!(list.len(), 1);
    assert_eq!(list[0].ident, "Plain");
    assert_eq!(ids(&list[0].attrs), vec![5]);
}

#[test]
fn flatten_again_changes_nothing() {
    let first = hello().flatten();
    let root = first[1].clone();
    let second = root.flatten();
    assert_eq!(second.len(), first.len());
    for (x, y) in first.iter().zip(second.iter()) {
        assert_eq!(x.ident, y.ident);
        assert_eq!(ids(&x.attrs), ids(&y.attrs));
        assert_eq!(x.fields.len(), y.fields.len());
    }
}

#[test]
fn flatten_defines_every_nested_structure_before_use() {
    let list = hello().flatten();
    for (i, s) in list.iter().enumerate() {
        for f in &s.fields {
            if let FieldType::Structure(inner) = &f.ty {
                assert!(list[..i].iter().any(|e| e.ident == inner.ident));
            }
        }
    }
}

#[test]
fn clone_copies_everything() {
    let s = hello();
    let d = s.clone();
    assert_eq!(d.ident, s.ident);
    assert_eq!(ids(&d.attrs), ids(&s.attrs));
    assert_eq!(ids(&d.recursive_attrs), ids(&s.recursive_attrs));
    assert_eq!(d.fields.len(), s.fields.len());
    assert_eq!(d.fields[1].ident, "b");
}

#[test]
fn field_clone_copies_nested_structure() {
    let f = hello().fields.remove(1);
    let g = f.clone();
    assert_eq!(g.ident, "b");
    assert_eq!(g.constraint, Some(1));
    assert_eq!(ids(&g.attributes), vec![11]);
    match g.ty {
        FieldType::Structure(s) => assert_eq!(s.fields.len(), 2),
        FieldType::Concrete(_) => panic!("b holds a structure"),
    }
}
