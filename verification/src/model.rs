use vstd::prelude::*;

verus! {

/// An attribute of the macro's input. The caller keeps the attributes
/// themselves; `id` finds one again, and `is_doc` marks documentation.
#[derive(Clone, Copy, Debug, PartialEq, Eq)]
pub struct AttrRef {
    pub id: usize,
    pub is_doc: bool,
}

/// The type of a field: a type written out (found again by its index in
/// the caller's table of types), or a structure declared in place.
pub enum FieldType {
    Concrete(usize),
    Structure(StructSpec),
}

/// One field of a structure declaration: its attributes, its name, its type
/// and the index of its validating predicate, if it has one.
pub struct FieldSpec {
    pub attributes: Vec<AttrRef>,
    pub ident: String,
    pub ty: FieldType,
    pub constraint: Option<usize>,
}

/// A structure declaration: its own attributes, the attributes that it
/// hands down to every structure declared inside it, its name and fields.
pub struct StructSpec {
    pub attrs: Vec<AttrRef>,
    pub recursive_attrs: Vec<AttrRef>,
    pub ident: String,
    pub fields: Vec<FieldSpec>,
}

/// What a [`FieldType`] stands for.
pub enum TypeModel {
    Concrete(usize),
    Structure(StructModel),
}

/// What a [`FieldSpec`] stands for.
pub struct FieldModel {
    pub attributes: Seq<AttrRef>,
    pub ident: Seq<char>,
    pub ty: TypeModel,
    pub constraint: Option<usize>,
}

/// What a [`StructSpec`] stands for.
pub struct StructModel {
    pub attrs: Seq<AttrRef>,
    pub recursive_attrs: Seq<AttrRef>,
    pub ident: Seq<char>,
    pub fields: Seq<FieldModel>,
}

/// The model of a declaration.
pub open spec fn struct_model(s: StructSpec) -> StructModel
    decreases s, 2nat,
{
    StructModel {
        attrs: s.attrs@,
        recursive_attrs: s.recursive_attrs@,
        ident: s.ident@,
        fields: fields_model(s.fields@),
    }
}

/// The models of a sequence of fields, in order.
pub open spec fn fields_model(fs: Seq<FieldSpec>) -> Seq<FieldModel>
    decreases fs, 1nat,
{
    if fs.len() == 0 {
        Seq::empty()
    } else {
        fields_model(fs.subrange(0, fs.len() - 1)).push(field_model(fs[fs.len() - 1]))
    }
}

/// The model of a field.
pub open spec fn field_model(f: FieldSpec) -> FieldModel
    decreases f, 0nat,
{
    FieldModel {
        attributes: f.attributes@,
        ident: f.ident@,
        ty: match f.ty {
            FieldType::Concrete(t) => TypeModel::Concrete(t),
            FieldType::Structure(s) => TypeModel::Structure(struct_model(s)),
        },
        constraint: f.constraint,
    }
}

/// The model of a sequence of fields is the sequence of their models.
pub proof fn lemma_fields_model(fs: Seq<FieldSpec>)
    ensures
        fields_model(fs).len() == fs.len(),
        forall|i: int| 0 <= i < fs.len() ==> #[trigger] fields_model(fs)[i] == field_model(fs[i]),
    decreases fs.len(),
{
    if fs.len() > 0 {
        lemma_fields_model(fs.subrange(0, fs.len() - 1));
    }
}

/// A copy of a list of attributes.
pub fn copy_attrs(v: &Vec<AttrRef>) -> (r: Vec<AttrRef>)
    ensures
        r@ == v@,
{
    let mut r: Vec<AttrRef> = Vec::new();
    let mut i: usize = 0;
    while i < v.len()
        invariant
            i <= v.len(),
            r@ == v@.subrange(0, i as int),
        decreases v.len() - i,
    {
        r.push(v[i]);
        i = i + 1;
        assert(r@ =~= v@.subrange(0, i as int));
    }
    assert(v@.subrange(0, v.len() as int) =~= v@);
    r
}

impl Clone for FieldSpec {
    fn clone(&self) -> (r: Self)
        ensures
            r@ == self@,
        decreases self@, 0nat,
    {
        let ty = match &self.ty {
            FieldType::Concrete(t) => FieldType::Concrete(*t),
            FieldType::Structure(s) => {
                assert(decreases_to!(self@ => s@)) by {
                    assert(self@.ty == TypeModel::Structure(s@));
                    assert(decreases_to!(self@ => self@.ty));
                    assert(decreases_to!(self@.ty => self@.ty->Structure_0));
                }
                FieldType::Structure(s.clone())
            },
        };
        FieldSpec {
            attributes: copy_attrs(&self.attributes),
            ident: self.ident.clone(),
            ty,
            constraint: self.constraint,
        }
    }
}

impl Clone for StructSpec {
    /// A deep copy of this declaration.
    fn clone(&self) -> (r: Self)
        ensures
            r@ == self@,
        decreases self@, 1nat,
    {
        let mut fields: Vec<FieldSpec> = Vec::new();
        let mut i: usize = 0;
        proof {
            lemma_fields_model(self.fields@);
        }
        while i < self.fields.len()
            invariant
                i <= self.fields.len(),
                fields_model(self.fields@).len() == self.fields@.len(),
                forall|j: int| 0 <= j < self.fields@.len() ==> #[trigger] fields_model(self.fields@)[j] == field_model(self.fields@[j]),
                fields@.len() == i,
                forall|j: int| 0 <= j < i ==> #[trigger] field_model(fields@[j]) == field_model(self.fields@[j]),
            decreases self.fields.len() - i,
        {
            let f = &self.fields[i];
            assert(decreases_to!(self@ => f@)) by {
                assert(self@.fields[i as int] == f@);
                assert(decreases_to!(self@ => self@.fields));
            }
            fields.push(f.clone());
            i = i + 1;
        }
        proof {
            lemma_fields_model(fields@);
            assert(fields_model(fields@) =~= fields_model(self.fields@));
        }
        StructSpec {
            attrs: copy_attrs(&self.attrs),
            recursive_attrs: copy_attrs(&self.recursive_attrs),
            ident: self.ident.clone(),
            fields,
        }
    }
}

impl View for StructSpec {
    type V = StructModel;

    open spec fn view(&self) -> StructModel {
        struct_model(*self)
    }
}

impl View for FieldSpec {
    type V = FieldModel;

    open spec fn view(&self) -> FieldModel {
        field_model(*self)
    }
}

} // verus!
