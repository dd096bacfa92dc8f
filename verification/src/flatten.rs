use vstd::prelude::*;
use crate::model::{AttrRef, FieldModel, FieldSpec, FieldType, StructModel, StructSpec, TypeModel, field_model, fields_model, lemma_fields_model};

verus! {

/// The attributes of a stack of attribute lists, bottom first.
pub open spec fn stacked_attrs(stack: Seq<Seq<AttrRef>>) -> Seq<AttrRef>
    decreases stack.len(),
{
    if stack.len() == 0 {
        Seq::empty()
    } else {
        stacked_attrs(stack.drop_last()) + stack.last()
    }
}

/// The models of a list of declarations.
pub open spec fn models(list: Seq<StructSpec>) -> Seq<StructModel> {
    list.map_values(|s: StructSpec| s@)
}

/// The views of a stack of attribute lists.
pub open spec fn stack_view(stack: Seq<Vec<AttrRef>>) -> Seq<Seq<AttrRef>> {
    stack.map_values(|v: Vec<AttrRef>| v@)
}

/// Flattening a declaration under the attributes `inherited` from the
/// declarations around it: every declaration nested in a field is flattened
/// first, in field order, under `inherited` and this declaration's
/// recursive attributes; this declaration then gets those attributes after
/// its own, hands down none of its own, and comes last.
/// The result is the flattened declaration and all the flattened
/// declarations in that order, the innermost first.
pub open spec fn flat(s: StructModel, inherited: Seq<AttrRef>) -> (StructModel, Seq<StructModel>)
    decreases s, 1nat,
{
    let handed = inherited + s.recursive_attrs;
    let (fields, emitted) = flat_fields(s.fields, handed);
    let out = StructModel {
        attrs: s.attrs + handed,
        recursive_attrs: Seq::empty(),
        ident: s.ident,
        fields,
    };
    (out, emitted.push(out))
}

/// Flattening the declarations nested in `fields`, in order.
pub open spec fn flat_fields(fields: Seq<FieldModel>, inherited: Seq<AttrRef>) -> (Seq<FieldModel>, Seq<StructModel>)
    decreases fields, 0nat,
{
    if fields.len() == 0 {
        (Seq::empty(), Seq::empty())
    } else {
        let (done, emitted) = flat_fields(fields.subrange(0, fields.len() - 1), inherited);
        let f = fields[fields.len() - 1];
        match f.ty {
            TypeModel::Concrete(t) => (done.push(f), emitted),
            TypeModel::Structure(sub) => {
                let (o, e) = flat(sub, inherited);
                (done.push(FieldModel { ty: TypeModel::Structure(o), ..f }), emitted + e)
            },
        }
    }
}

/// Appends to `attrs` every attribute of `stack`, bottom first.
fn append_stacked(attrs: &mut Vec<AttrRef>, stack: &Vec<Vec<AttrRef>>)
    ensures
        final(attrs)@ == old(attrs)@ + stacked_attrs(stack_view(stack@)),
{
    let ghost base = attrs@;
    let mut i: usize = 0;
    while i < stack.len()
        invariant
            i <= stack@.len(),
            attrs@ == base + stacked_attrs(stack_view(stack@.subrange(0, i as int))),
        decreases stack.len() - i,
    {
        let ghost before = attrs@;
        let inner = &stack[i];
        let mut j: usize = 0;
        while j < inner.len()
            invariant
                j <= inner@.len(),
                attrs@ == before + inner@.subrange(0, j as int),
            decreases inner.len() - j,
        {
            attrs.push(inner[j]);
            j = j + 1;
            assert(attrs@ =~= before + inner@.subrange(0, j as int));
        }
        proof {
            let sv = stack_view(stack@.subrange(0, i + 1));
            assert(sv.drop_last() =~= stack_view(stack@.subrange(0, i as int)));
            assert(sv.last() == inner@);
            assert(inner@.subrange(0, j as int) =~= inner@);
            assert(attrs@ =~= base + stacked_attrs(sv));
        }
        i = i + 1;
    }
    assert(stack@.subrange(0, stack.len() as int) =~= stack@);
}

impl StructSpec {
    /// Flattens this declaration under the attributes on `recursive_attrs`,
    /// the lists that the declarations around it hand down, outermost first:
    /// appends the flattened declarations to `list`, the innermost first and
    /// this one last, and returns this one flattened.
    pub fn flatten_go(self, list: &mut Vec<StructSpec>, recursive_attrs: &mut Vec<Vec<AttrRef>>) -> (r: StructSpec)
        ensures
            final(recursive_attrs)@ == old(recursive_attrs)@,
            r@ == flat(self@, stacked_attrs(stack_view(old(recursive_attrs)@))).0,
            models(final(list)@) == models(old(list)@) + flat(self@, stacked_attrs(stack_view(old(recursive_attrs)@))).1,
        decreases self@,
    {
        let ghost model = self@;
        let ghost old_stack = recursive_attrs@;
        let ghost old_list = models(list@);
        let ghost inherited = stacked_attrs(stack_view(old_stack));
        let ghost handed = inherited + model.recursive_attrs;
        let ghost fm = model.fields;
        proof {
            lemma_fields_model(self.fields@);
        }
        let StructSpec { attrs, recursive_attrs: own, ident, fields } = self;
        let mut attrs = attrs;
        recursive_attrs.push(own);
        proof {
            assert(stack_view(recursive_attrs@).drop_last() =~= stack_view(old_stack));
            assert(stacked_attrs(stack_view(recursive_attrs@)) == handed);
        }
        append_stacked(&mut attrs, recursive_attrs);
        let ghost stack_now = recursive_attrs@;
        let ghost fields_seq = fields@;
        assert(fields_seq.len() == fields.len());
        let mut done: Vec<FieldSpec> = Vec::new();
        let mut k: usize = 0;
        let mut rest = fields;
        // take the fields from the back, then process them from the front
        let mut pending: Vec<FieldSpec> = Vec::new();
        while rest.len() > 0
            invariant
                rest@.len() + pending@.len() == fields_seq.len(),
                forall|j: int| 0 <= j < rest@.len() ==> rest@[j] == fields_seq[j],
                forall|j: int| 0 <= j < pending@.len() ==> pending@[j] == fields_seq[fields_seq.len() - 1 - j],
            decreases rest.len(),
        {
            let f = rest.pop().unwrap();
            pending.push(f);
        }
        while pending.len() > 0
            invariant
                k + pending@.len() == fields_seq.len(),
                forall|j: int| 0 <= j < pending@.len() ==> pending@[j] == fields_seq[fields_seq.len() - 1 - j],
                recursive_attrs@ == stack_now,
                stacked_attrs(stack_view(stack_now)) == handed,
                fm.len() == fields_seq.len(),
                forall|j: int| 0 <= j < fields_seq.len() ==> #[trigger] fm[j] == field_model(fields_seq[j]),
                fields_model(done@) == flat_fields(fm.subrange(0, k as int), handed).0,
                models(list@) == old_list + flat_fields(fm.subrange(0, k as int), handed).1,
                decreases_to!(model => fm),
                model == self@,
                fields_seq.len() <= usize::MAX,
            decreases pending.len(),
        {
            let f = pending.pop().unwrap();
            proof {
                assert(f == fields_seq[k as int]);
            }
            let FieldSpec { attributes, ident: fident, ty, constraint } = f;
            let ghost done_before = done@;
            let ghost list_before = models(list@);
            let ty = match ty {
                FieldType::Concrete(t) => FieldType::Concrete(t),
                FieldType::Structure(sub) => {
                    assert(decreases_to!(model => sub@)) by {
                        let fk = fm[k as int];
                        assert(fk.ty == TypeModel::Structure(sub@));
                        assert(decreases_to!(fm => fk));
                        assert(decreases_to!(fk => fk.ty));
                        assert(decreases_to!(fk.ty => fk.ty->Structure_0));
                        assert(decreases_to!(model => fk));
                        assert(decreases_to!(model => fk.ty));
                    }
                    let o = sub.flatten_go(list, recursive_attrs);
                    FieldType::Structure(o)
                },
            };
            let nf = FieldSpec { attributes, ident: fident, ty, constraint };
            done.push(nf);
            proof {
                let pre = fm.subrange(0, k as int);
                let post = fm.subrange(0, k + 1);
                assert(post.subrange(0, post.len() - 1) =~= pre);
                assert(post[post.len() - 1] == fm[k as int]);
                assert(done@.subrange(0, done@.len() - 1) =~= done_before);
                assert(fields_model(done@) == fields_model(done_before).push(field_model(nf)));
            }
            k = k + 1;
        }
        proof {
            assert(fm.subrange(0, fm.len() as int) =~= fm);
        }
        let out = StructSpec { attrs, recursive_attrs: Vec::new(), ident, fields: done };
        recursive_attrs.pop();
        proof {
            assert(recursive_attrs@ =~= old_stack);
        }
        let ghost list_mid = list@;
        list.push(out.clone());
        proof {
            assert(models(list@) =~= models(list_mid).push(out@));
        }
        out
    }

    /// All the declarations of this one, nested ones included, each on its
    /// own: every declaration nested in a field comes before the one that
    /// holds it, and this one comes last.
    pub fn flatten(self) -> (r: Vec<StructSpec>)
        ensures
            models(r@) == flat(self@, Seq::empty()).1,
    {
        let mut list: Vec<StructSpec> = Vec::with_capacity(1);
        let mut rec_attrs: Vec<Vec<AttrRef>> = Vec::with_capacity(1);
        proof {
            assert(stack_view(rec_attrs@) =~= Seq::<Seq<AttrRef>>::empty());
            assert(models(list@) =~= Seq::<StructModel>::empty());
        }
        let _root = self.flatten_go(&mut list, &mut rec_attrs);
        proof {
            assert(models(list@) =~= flat(self@, Seq::empty()).1);
        }
        list
    }
}

} // verus!
