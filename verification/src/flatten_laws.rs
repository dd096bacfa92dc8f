use vstd::prelude::*;
use crate::model::{AttrRef, FieldModel, StructModel, TypeModel};
use crate::flatten::{flat, flat_fields};

verus! {

/// The number of declarations in `s`, nested ones included.
pub open spec fn count(s: StructModel) -> nat
    decreases s, 1nat,
{
    1 + count_fields(s.fields)
}

/// The number of declarations nested in `fields`.
pub open spec fn count_fields(fields: Seq<FieldModel>) -> nat
    decreases fields, 0nat,
{
    if fields.len() == 0 {
        0
    } else {
        count_fields(fields.subrange(0, fields.len() - 1)) + match fields[fields.len() - 1].ty {
            TypeModel::Concrete(_) => 0,
            TypeModel::Structure(sub) => count(sub),
        }
    }
}

/// Flattening yields one declaration for each declaration of `s`, nested
/// ones included, and the last of them is `s` flattened. None of them hands
/// attributes down any more, and each carries every attribute that was
/// handed down to `s` or that `s` hands down. The flattened `s` keeps its
/// name and its fields: their names, attributes and predicates, and their
/// written types; a declared type becomes that declaration flattened.
pub proof fn law_flatten_shape(s: StructModel, inherited: Seq<AttrRef>)
    ensures
        flat(s, inherited).1.len() == count(s),
        flat(s, inherited).1.last() == flat(s, inherited).0,
        flat(s, inherited).0.ident == s.ident,
        flat(s, inherited).0.attrs == s.attrs + inherited + s.recursive_attrs,
        forall|i: int| 0 <= i < flat(s, inherited).1.len() ==>
            (#[trigger] flat(s, inherited).1[i]).recursive_attrs.len() == 0,
        forall|i: int, a: AttrRef| 0 <= i < flat(s, inherited).1.len()
            && (inherited + s.recursive_attrs).contains(a)
            ==> #[trigger] flat(s, inherited).1[i].attrs.contains(a),
        flat(s, inherited).0.fields.len() == s.fields.len(),
        forall|i: int| 0 <= i < s.fields.len() ==> {
            let f = #[trigger] s.fields[i];
            let g = flat(s, inherited).0.fields[i];
            &&& g.ident == f.ident
            &&& g.attributes == f.attributes
            &&& g.constraint == f.constraint
            &&& g.ty == match f.ty {
                TypeModel::Concrete(t) => TypeModel::Concrete(t),
                TypeModel::Structure(sub) => TypeModel::Structure(flat(sub, inherited + s.recursive_attrs).0),
            }
        },
    decreases s, 1nat,
{
    let handed = inherited + s.recursive_attrs;
    law_flatten_fields_shape(s.fields, handed);
    let r = flat(s, inherited);
    let (fields, emitted) = flat_fields(s.fields, handed);
    assert forall|i: int, a: AttrRef| 0 <= i < r.1.len() && handed.contains(a)
        implies #[trigger] r.1[i].attrs.contains(a) by {
        if i == r.1.len() - 1 {
            let k = choose|k: int| 0 <= k < handed.len() && handed[k] == a;
            assert(r.0.attrs[s.attrs.len() + k] == a);
        } else {
            assert(r.1[i] == emitted[i]);
        }
    }
    assert forall|i: int| 0 <= i < r.1.len() implies (#[trigger] r.1[i]).recursive_attrs.len() == 0 by {
        if i < r.1.len() - 1 {
            assert(r.1[i] == emitted[i]);
        }
    }
}

/// [`law_flatten_shape`] for the declarations nested in `fields`.
pub proof fn law_flatten_fields_shape(fields: Seq<FieldModel>, inherited: Seq<AttrRef>)
    ensures
        flat_fields(fields, inherited).1.len() == count_fields(fields),
        flat_fields(fields, inherited).0.len() == fields.len(),
        forall|i: int| 0 <= i < flat_fields(fields, inherited).1.len() ==>
            (#[trigger] flat_fields(fields, inherited).1[i]).recursive_attrs.len() == 0,
        forall|i: int, a: AttrRef| 0 <= i < flat_fields(fields, inherited).1.len()
            && inherited.contains(a)
            ==> #[trigger] flat_fields(fields, inherited).1[i].attrs.contains(a),
        forall|i: int| 0 <= i < fields.len() ==> {
            let f = #[trigger] fields[i];
            let g = flat_fields(fields, inherited).0[i];
            &&& g.ident == f.ident
            &&& g.attributes == f.attributes
            &&& g.constraint == f.constraint
            &&& g.ty == match f.ty {
                TypeModel::Concrete(t) => TypeModel::Concrete(t),
                TypeModel::Structure(sub) => TypeModel::Structure(flat(sub, inherited).0),
            }
        },
    decreases fields, 0nat,
{
    if fields.len() > 0 {
        let init = fields.subrange(0, fields.len() - 1);
        let f = fields[fields.len() - 1];
        law_flatten_fields_shape(init, inherited);
        let (done, emitted) = flat_fields(init, inherited);
        let r = flat_fields(fields, inherited);
        match f.ty {
            TypeModel::Concrete(_) => {
                assert forall|i: int| 0 <= i < fields.len() - 1 implies r.0[i] == done[i] by {}
                assert forall|i: int| 0 <= i < fields.len() - 1 implies #[trigger] fields[i] == init[i] by {}
            },
            TypeModel::Structure(sub) => {
                assert(decreases_to!(fields => f.ty->Structure_0)) by {
                    assert(decreases_to!(fields => f));
                    assert(decreases_to!(f => f.ty));
                }
                law_flatten_shape(sub, inherited);
                let e = flat(sub, inherited).1;
                assert forall|i: int| 0 <= i < fields.len() - 1 implies #[trigger] fields[i] == init[i] by {}
                assert forall|i: int| 0 <= i < r.1.len() implies
                    (#[trigger] r.1[i]).recursive_attrs.len() == 0 by {
                    if i < emitted.len() {
                        assert(r.1[i] == emitted[i]);
                    } else {
                        assert(r.1[i] == e[i - emitted.len()]);
                    }
                }
                assert forall|i: int, a: AttrRef| 0 <= i < r.1.len() && inherited.contains(a)
                    implies #[trigger] r.1[i].attrs.contains(a) by {
                    if i < emitted.len() {
                        assert(r.1[i] == emitted[i]);
                    } else {
                        assert(r.1[i] == e[i - emitted.len()]);
                        let k = choose|k: int| 0 <= k < inherited.len() && inherited[k] == a;
                        assert((inherited + sub.recursive_attrs)[k] == a);
                    }
                }
            },
        }
    }
}

/// Flattening again changes nothing: a flattened declaration, flattened
/// with nothing handed down, is itself, and yields the same declarations.
pub proof fn law_flatten_idempotent(s: StructModel, inherited: Seq<AttrRef>)
    ensures
        flat(flat(s, inherited).0, Seq::empty()) == flat(s, inherited),
    decreases s, 1nat,
{
    let handed = inherited + s.recursive_attrs;
    law_flatten_fields_idempotent(s.fields, handed);
    let o = flat(s, inherited).0;
    assert(Seq::<AttrRef>::empty() + o.recursive_attrs =~= Seq::<AttrRef>::empty());
    assert(o.attrs + Seq::<AttrRef>::empty() =~= o.attrs);
}

/// [`law_flatten_idempotent`] for the declarations nested in `fields`.
pub proof fn law_flatten_fields_idempotent(fields: Seq<FieldModel>, inherited: Seq<AttrRef>)
    ensures
        flat_fields(flat_fields(fields, inherited).0, Seq::empty()) == flat_fields(fields, inherited),
    decreases fields, 0nat,
{
    if fields.len() > 0 {
        let init = fields.subrange(0, fields.len() - 1);
        let f = fields[fields.len() - 1];
        law_flatten_fields_idempotent(init, inherited);
        let (done, emitted) = flat_fields(init, inherited);
        let r = flat_fields(fields, inherited);
        assert(r.0.subrange(0, r.0.len() - 1) =~= done);
        match f.ty {
            TypeModel::Concrete(_) => {},
            TypeModel::Structure(sub) => {
                assert(decreases_to!(fields => f.ty->Structure_0)) by {
                    assert(decreases_to!(fields => f));
                    assert(decreases_to!(f => f.ty));
                }
                law_flatten_idempotent(sub, inherited);
            },
        }
    }
}

/// Whether every declaration that a field of a member of `list` holds is
/// itself a member of `list`, before the one that holds it.
pub open spec fn defined_before_use(list: Seq<StructModel>) -> bool {
    forall|i: int, k: int|
        #![trigger list[i].fields[k]]
        0 <= i < list.len() && 0 <= k < list[i].fields.len() && list[i].fields[k].ty is Structure
        ==> exists|j: int| 0 <= j < i && list[j] == list[i].fields[k].ty->Structure_0
}

proof fn lemma_defined_before_use_concat(a: Seq<StructModel>, b: Seq<StructModel>)
    requires
        defined_before_use(a),
        defined_before_use(b),
    ensures
        defined_before_use(a + b),
{
    let ab = a + b;
    assert forall|i: int, k: int|
        0 <= i < ab.len() && 0 <= k < ab[i].fields.len() && (#[trigger] ab[i].fields[k]).ty is Structure
        implies exists|j: int| 0 <= j < i && ab[j] == ab[i].fields[k].ty->Structure_0 by {
        if i < a.len() {
            assert(ab[i] == a[i]);
            assert(a[i].fields[k].ty is Structure);
            let j = choose|j: int| 0 <= j < i && a[j] == a[i].fields[k].ty->Structure_0;
            assert(ab[j] == a[j]);
        } else {
            let ib = i - a.len();
            assert(ab[i] == b[ib]);
            assert(b[ib].fields[k].ty is Structure);
            let j = choose|j: int| 0 <= j < ib && b[j] == b[ib].fields[k].ty->Structure_0;
            assert(ab[j + a.len()] == b[j]);
        }
    }
}

/// Every declaration that a field of a flattened declaration holds is
/// flattened too, and comes before the declaration that holds it, so the
/// generated code defines every structure that it names.
pub proof fn law_flatten_defines_nested(s: StructModel, inherited: Seq<AttrRef>)
    ensures
        defined_before_use(flat(s, inherited).1),
    decreases s, 1nat,
{
    let handed = inherited + s.recursive_attrs;
    law_flatten_fields_defines_nested(s.fields, handed);
    let (fields, emitted) = flat_fields(s.fields, handed);
    let r = flat(s, inherited);
    let out = r.0;
    assert forall|i: int, k: int|
        0 <= i < r.1.len() && 0 <= k < r.1[i].fields.len() && (#[trigger] r.1[i].fields[k]).ty is Structure
        implies exists|j: int| 0 <= j < i && r.1[j] == r.1[i].fields[k].ty->Structure_0 by {
        if i < emitted.len() {
            assert(r.1[i] == emitted[i]);
            assert(emitted[i].fields[k].ty is Structure);
            let j = choose|j: int| 0 <= j < i && emitted[j] == emitted[i].fields[k].ty->Structure_0;
            assert(r.1[j] == emitted[j]);
        } else {
            assert(r.1[i] == out);
            assert(out.fields[k] == fields[k]);
            let j = choose|j: int| 0 <= j < emitted.len() && emitted[j] == fields[k].ty->Structure_0;
            assert(r.1[j] == emitted[j]);
        }
    }
}

/// [`law_flatten_defines_nested`] for the declarations nested in `fields`:
/// besides, each declaration that a flattened field holds is among them.
pub proof fn law_flatten_fields_defines_nested(fields: Seq<FieldModel>, inherited: Seq<AttrRef>)
    ensures
        defined_before_use(flat_fields(fields, inherited).1),
        forall|k: int| #![trigger flat_fields(fields, inherited).0[k]]
            0 <= k < flat_fields(fields, inherited).0.len()
            && flat_fields(fields, inherited).0[k].ty is Structure
            ==> exists|j: int| 0 <= j < flat_fields(fields, inherited).1.len()
                && flat_fields(fields, inherited).1[j] == flat_fields(fields, inherited).0[k].ty->Structure_0,
    decreases fields, 0nat,
{
    if fields.len() > 0 {
        let init = fields.subrange(0, fields.len() - 1);
        let f = fields[fields.len() - 1];
        law_flatten_fields_defines_nested(init, inherited);
        law_flatten_fields_shape(init, inherited);
        let (done, emitted) = flat_fields(init, inherited);
        let r = flat_fields(fields, inherited);
        match f.ty {
            TypeModel::Concrete(_) => {
                assert forall|k: int| #![trigger r.0[k]]
                    0 <= k < r.0.len() && r.0[k].ty is Structure
                    implies exists|j: int| 0 <= j < r.1.len() && r.1[j] == r.0[k].ty->Structure_0 by {
                    assert(k < done.len());
                    assert(r.0[k] == done[k]);
                    let j = choose|j: int| 0 <= j < emitted.len() && emitted[j] == done[k].ty->Structure_0;
                    assert(r.1 == emitted);
                    assert(r.1[j] == emitted[j]);
                }
            },
            TypeModel::Structure(sub) => {
                assert(decreases_to!(fields => f.ty->Structure_0)) by {
                    assert(decreases_to!(fields => f));
                    assert(decreases_to!(f => f.ty));
                }
                law_flatten_defines_nested(sub, inherited);
                law_flatten_shape(sub, inherited);
                let e = flat(sub, inherited).1;
                lemma_defined_before_use_concat(emitted, e);
                assert forall|k: int| #![trigger r.0[k]]
                    0 <= k < r.0.len() && r.0[k].ty is Structure
                    implies exists|j: int| 0 <= j < r.1.len() && r.1[j] == r.0[k].ty->Structure_0 by {
                    if k < done.len() {
                        assert(r.0[k] == done[k]);
                        let j = choose|j: int| 0 <= j < emitted.len() && emitted[j] == done[k].ty->Structure_0;
                        assert(r.1[j] == emitted[j]);
                    } else {
                        let j = emitted.len() + e.len() - 1;
                        assert(r.1[j] == e[e.len() - 1]);
                    }
                }
            },
        }
    }
}

} // verus!
