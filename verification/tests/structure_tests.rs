use validated_struct::model::{AttrRef, FieldSpec, FieldType, StructSpec};
use validated_struct::structure::{doc_attrs, TypeRef, SEPARATOR};

fn attr(id: usize, is_doc: bool) -> AttrRef {
    AttrRef { id, is_doc }
}

fn hi() -> StructSpec {
    StructSpec {
        attrs: vec![],
        recursive_attrs: vec![],
        ident: "Hi".to_string(),
        fields: vec![],
    }
}

fn hello() -> StructSpec {
    StructSpec {
        attrs: vec![attr(0, true)],
        recursive_attrs: vec![],
        ident: "Hello".to_string(),
        fields: vec![
            FieldSpec {
                attributes: vec![attr(1, true), attr(2, false), attr(3, true)],
                ident: "a".to_string(),
                ty: FieldType::Concrete(4),
                constraint: Some(0),
            },
            FieldSpec {
                attributes: vec![],
                ident: "b".to_string(),
                ty: FieldType::Structure(hi()),
                constraint: None,
            },
        ],
    }
}

#[test]
fn structure_names_accessors() {
    let plan = hello().structure();
    assert_eq!(plan.ident, "Hello");
    assert_eq!(plan.separator, '/');
    assert_eq!(plan.fields.len(), 2);
    let a = &plan.fields[0];
    assert_eq!(a.ident, "a");
    assert_eq!(a.validate, "validate_a");
    assert_eq!(a.validate_rec, "validate_a_rec");
    assert_eq!(a.setter, "set_a");
    assert_eq!(a.rejection, "Predicate rejected value for a");
    assert_eq!(a.predicate, Some(0));
    assert!(!a.nested);
    assert!(matches!(a.ty, TypeRef::Written(4)));
}

#[test]
fn structure_nested_field() {
    let plan = hello().structure();
    let b = &plan.fields[1];
    assert!(b.nested);
    assert_eq!(b.predicate, None);
    assert_eq!(b.setter, "set_b");
    match &b.ty {
        TypeRef::Named(n) => assert_eq!(n, "Hi"),
        TypeRef::Written(_) => panic!("b names a declared structure"),
    }
}

#[test]
fn structure_gives_docs_to_accessors() {
    let plan = hello().structure();
    let a = &plan.fields[0];
    let all: Vec<usize> = a.attributes.iter().map(|x| x.id).collect();
    let docs: Vec<usize> = a.docs.iter().map(|x| x.id).collect();
    assert_eq!(all, vec![1, 2, 3]);
    assert_eq!(docs, vec![1, 3]);
    assert_eq!(plan.attrs[0].id, 0);
}

#[test]
fn doc_attrs_filters_in_order() {
    let v = vec![attr(5, false), attr(6, true), attr(7, true), attr(8, false)];
    let d: Vec<usize> = doc_attrs(&v).iter().map(|x| x.id).collect();
    assert_eq!(d, vec![6, 7]);
    assert!(doc_attrs(&vec![]).is_empty());
}

#[test]
fn field_type_ty() {
    assert!(matches!(FieldType::Concrete(9).ty(), TypeRef::Written(9)));
    match FieldType::Structure(hi()).ty() {
        TypeRef::Named(n) => assert_eq!(n, "Hi"),
        TypeRef::Written(_) => panic!("declared structure expected"),
    }
}

#[test]
fn separator_is_slash() {
    assert_eq!(SEPARATOR, '/');
}

#[test]
fn structure_with_dot_separator() {
    let plan = hello().structure_with_separator('.');
    assert_eq!(plan.separator, '.');
    assert_eq!(plan.fields[1].setter, "set_b");
}

#[test]
fn plans_follow_flatten_order() {
    let plans = hello().plans('/');
    let names: Vec<&str> = plans.iter().map(|p| p.ident.as_str()).collect();
    assert_eq!(names, vec!["Hi", "Hello"]);
    assert!(plans.iter().all(|p| p.separator == '/'));
    assert_eq!(plans[1].fields[0].validate_rec, "validate_a_rec");
    assert!(plans[1].fields[1].nested);
    assert!(plans[0].fields.is_empty());
}

#[test]
fn raw_identifier_names_drop_prefix() {
    let f = FieldSpec {
        attributes: vec![],
        ident: "r#type".to_string(),
        ty: FieldType::Concrete(0),
        constraint: None,
    };
    let p = f.plan();
    assert_eq!(p.ident, "r#type");
    assert_eq!(p.setter, "set_type");
    assert_eq!(p.validate, "validate_type");
    assert_eq!(p.validate_rec, "validate_type_rec");
    assert_eq!(p.rejection, "Predicate rejected value for r#type");
}

#[test]
fn unraw_ident_keeps_plain_names() {
    assert_eq!(validated_struct::structure::unraw_ident(&"rate".to_string()), "rate");
    assert_eq!(validated_struct::structure::unraw_ident(&"r#fn".to_string()), "fn");
    assert_eq!(validated_struct::structure::unraw_ident(&"r".to_string()), "r");
}
