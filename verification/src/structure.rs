use vstd::prelude::*;
use vstd::string::{StrSliceExecFns, StringExecFns};
use crate::flatten::{flat, models};
use crate::model::{AttrRef, FieldModel, StructModel, FieldSpec, FieldType, StructSpec, TypeModel, copy_attrs, field_model, lemma_fields_model};

verus! {

/// The character that separates the name of a field from the key inside
/// the structure that the field holds, as in `b/c`.
pub const SEPARATOR: char = '/';

/// The type of a field as the generated code names it: a type written out
/// (by its index in the caller's table of types), or a declared structure
/// named by its identifier.
pub enum TypeRef {
    Written(usize),
    Named(String),
}

/// What the generated code holds for one field.
pub struct FieldPlan {
    /// The attributes of the field itself.
    pub attributes: Vec<AttrRef>,
    /// The documentation of the field, given to its getter and its setter.
    pub docs: Vec<AttrRef>,
    /// The field's name: that of its getter, and its key.
    pub ident: String,
    /// The field's type.
    pub ty: TypeRef,
    /// The index of the predicate that validates a value; none accepts all.
    pub predicate: Option<usize>,
    /// The name of the function that validates a value for the field.
    pub validate: String,
    /// The name of the function that validates a value and what it holds.
    pub validate_rec: String,
    /// The name of the setter.
    pub setter: String,
    /// The message of an insertion whose value the predicate rejects.
    pub rejection: String,
    /// The field holds a declared structure: validating it validates what it
    /// holds, and keys under the field's name reach inside it.
    pub nested: bool,
}

/// What the generated code holds for one declaration.
pub struct StructPlan {
    pub attrs: Vec<AttrRef>,
    pub ident: String,
    pub fields: Vec<FieldPlan>,
    pub separator: char,
}

/// The documentation attributes among `attrs`, in order.
pub open spec fn docs_of(attrs: Seq<AttrRef>) -> Seq<AttrRef>
    decreases attrs.len(),
{
    if attrs.len() == 0 {
        Seq::empty()
    } else {
        let rest = docs_of(attrs.drop_last());
        if attrs.last().is_doc {
            rest.push(attrs.last())
        } else {
            rest
        }
    }
}

/// Whether an attribute is documentation.
pub open spec fn doc_pred() -> spec_fn(AttrRef) -> bool {
    |a: AttrRef| a.is_doc
}

/// The documentation given to a field's accessors is exactly the field's
/// documentation attributes, in order: nothing else, and none left out.
/// It is taken piece by piece, so the documentation of two runs of
/// attributes is that of the first followed by that of the second.
pub proof fn law_docs(attrs: Seq<AttrRef>, more: Seq<AttrRef>)
    ensures
        docs_of(attrs) == attrs.filter(doc_pred()),
        forall|i: int| 0 <= i < docs_of(attrs).len() ==> (#[trigger] docs_of(attrs)[i]).is_doc,
        forall|i: int| 0 <= i < attrs.len() && attrs[i].is_doc ==> #[trigger] docs_of(attrs).contains(attrs[i]),
        docs_of(attrs + more) == docs_of(attrs) + docs_of(more),
{
    lemma_docs_filter(attrs);
    lemma_docs_filter(more);
    lemma_docs_filter(attrs + more);
    #[allow(deprecated)]
    attrs.filter_lemma(doc_pred());
    Seq::filter_distributes_over_add(attrs, more, doc_pred());
}

proof fn lemma_docs_filter(attrs: Seq<AttrRef>)
    ensures
        docs_of(attrs) == attrs.filter(doc_pred()),
    decreases attrs.len(),
{
    reveal(Seq::filter);
    if attrs.len() > 0 {
        lemma_docs_filter(attrs.drop_last());
    }
}

/// Whether `r` names the type `t`.
pub open spec fn names_type(r: TypeRef, t: TypeModel) -> bool {
    match t {
        TypeModel::Concrete(i) => r == TypeRef::Written(i),
        TypeModel::Structure(s) => r is Named && r->Named_0@ == s.ident,
    }
}

/// An identifier's text without the `r#` that marks a raw identifier, as
/// names built from it take it.
pub open spec fn unraw(ident: Seq<char>) -> Seq<char> {
    if ident.len() >= 2 && ident[0] == 'r' && ident[1] == '#' {
        ident.skip(2)
    } else {
        ident
    }
}

/// Whether `ident` is written as a raw identifier, beginning with `r#`.
pub open spec fn is_raw(ident: Seq<char>) -> bool {
    ident.len() >= 2 && ident[0] == 'r' && ident[1] == '#'
}

/// Names built from an identifier use all of it, but for the `r#` that marks
/// a raw identifier: a plain identifier is kept whole, and a raw one loses
/// exactly those two characters.
pub proof fn law_unraw(ident: Seq<char>, rest: Seq<char>)
    ensures
        !is_raw(ident) ==> unraw(ident) == ident,
        unraw(seq!['r', '#'] + rest) == rest,
{
    assert((seq!['r', '#'] + rest).skip(2) =~= rest);
}

/// A field's setter and validators are named after the whole of the field's
/// name, less the `r#` of a raw identifier; its name and its rejection
/// message keep the name as written.
pub proof fn law_plan_names(f: FieldModel, p: FieldPlan, rest: Seq<char>)
    requires
        field_plan_of(f, p),
    ensures
        !is_raw(f.ident) ==> {
            &&& p.setter@ == "set_"@ + f.ident
            &&& p.validate@ == "validate_"@ + f.ident
            &&& p.validate_rec@ == "validate_"@ + f.ident + "_rec"@
        },
        f.ident == seq!['r', '#'] + rest ==> {
            &&& p.setter@ == "set_"@ + rest
            &&& p.validate@ == "validate_"@ + rest
            &&& p.validate_rec@ == "validate_"@ + rest + "_rec"@
        },
        p.ident@ == f.ident,
        p.rejection@ == "Predicate rejected value for "@ + f.ident,
{
    law_unraw(f.ident, rest);
}

/// Whether `p` is what the generated code holds for the field `f`.
pub open spec fn field_plan_of(f: FieldModel, p: FieldPlan) -> bool {
    &&& p.attributes@ == f.attributes
    &&& p.docs@ == docs_of(f.attributes)
    &&& p.ident@ == f.ident
    &&& names_type(p.ty, f.ty)
    &&& p.predicate == f.constraint
    &&& p.validate@ == "validate_"@ + unraw(f.ident)
    &&& p.validate_rec@ == "validate_"@ + unraw(f.ident) + "_rec"@
    &&& p.setter@ == "set_"@ + unraw(f.ident)
    &&& p.rejection@ == "Predicate rejected value for "@ + f.ident
    &&& p.nested == (f.ty is Structure)
}

/// The documentation attributes among `attrs`, in order.
pub fn doc_attrs(attrs: &Vec<AttrRef>) -> (r: Vec<AttrRef>)
    ensures
        r@ == docs_of(attrs@),
        r@ == attrs@.filter(doc_pred()),
{
    proof {
        lemma_docs_filter(attrs@);
    }
    let mut r: Vec<AttrRef> = Vec::new();
    let mut i: usize = 0;
    while i < attrs.len()
        invariant
            i <= attrs@.len(),
            r@ == docs_of(attrs@.subrange(0, i as int)),
        decreases attrs.len() - i,
    {
        proof {
            assert(attrs@.subrange(0, i + 1).drop_last() =~= attrs@.subrange(0, i as int));
        }
        if attrs[i].is_doc {
            r.push(attrs[i]);
        }
        i = i + 1;
    }
    assert(attrs@.subrange(0, attrs.len() as int) =~= attrs@);
    r
}

/// `prefix` followed by `name`.
fn prefixed(prefix: &str, name: &str) -> (r: String)
    ensures
        r@ == prefix@ + name@,
{
    let mut r = String::from_str(prefix);
    r.append(name);
    r
}

/// The text of the identifier `ident` without the `r#` of a raw identifier.
pub fn unraw_ident(ident: &String) -> (r: &str)
    ensures
        r@ == unraw(ident@),
        !is_raw(ident@) ==> r@ == ident@,
        is_raw(ident@) ==> seq!['r', '#'] + r@ == ident@,
{
    let s = ident.as_str();
    let n = s.unicode_len();
    if n >= 2 && s.get_char(0) == 'r' && s.get_char(1) == '#' {
        s.substring_char(2, n)
    } else {
        s
    }
}

impl FieldType {
    /// The type that the generated code gives a field of this type.
    pub fn ty(&self) -> (r: TypeRef)
        ensures
            match self {
                FieldType::Concrete(t) => r == TypeRef::Written(*t),
                FieldType::Structure(s) => r is Named && r->Named_0@ == s.ident@,
            },
    {
        match self {
            FieldType::Concrete(t) => TypeRef::Written(*t),
            FieldType::Structure(s) => TypeRef::Named(s.ident.clone()),
        }
    }
}

impl FieldSpec {
    /// What the generated code holds for this field.
    pub fn plan(&self) -> (r: FieldPlan)
        ensures
            field_plan_of(self@, r),
    {
        let bare = unraw_ident(&self.ident);
        let mut validate_rec = prefixed("validate_", bare);
        validate_rec.append("_rec");
        FieldPlan {
            attributes: copy_attrs(&self.attributes),
            docs: doc_attrs(&self.attributes),
            ident: self.ident.clone(),
            ty: self.ty.ty(),
            predicate: self.constraint,
            validate: prefixed("validate_", bare),
            validate_rec,
            setter: prefixed("set_", bare),
            rejection: prefixed("Predicate rejected value for ", self.ident.as_str()),
            nested: match &self.ty {
                FieldType::Concrete(_) => false,
                FieldType::Structure(_) => true,
            },
        }
    }
}

/// Whether `p` is what the generated code holds for the declaration `m`,
/// with keys separated by `separator`.
pub open spec fn struct_plan_of(m: StructModel, p: StructPlan, separator: char) -> bool {
    &&& p.attrs@ == m.attrs
    &&& p.ident@ == m.ident
    &&& p.separator == separator
    &&& p.fields@.len() == m.fields.len()
    &&& forall|i: int| 0 <= i < m.fields.len() ==> field_plan_of(#[trigger] m.fields[i], p.fields@[i])
}

impl StructSpec {
    /// What the generated code holds for this declaration, with keys
    /// separated by `separator` (`'/'`, or `'.'` where dots separate keys).
    pub fn structure_with_separator(&self, separator: char) -> (r: StructPlan)
        ensures
            struct_plan_of(self@, r, separator),
    {
        proof {
            lemma_fields_model(self.fields@);
        }
        let mut fields: Vec<FieldPlan> = Vec::new();
        let mut i: usize = 0;
        while i < self.fields.len()
            invariant
                i <= self.fields@.len(),
                fields@.len() == i,
                self@.fields.len() == self.fields@.len(),
                forall|j: int| 0 <= j < self.fields@.len() ==> #[trigger] self@.fields[j] == field_model(self.fields@[j]),
                forall|j: int| 0 <= j < i ==> field_plan_of(#[trigger] self@.fields[j], fields@[j]),
            decreases self.fields.len() - i,
        {
            let p = self.fields[i].plan();
            fields.push(p);
            i = i + 1;
        }
        StructPlan {
            attrs: copy_attrs(&self.attrs),
            ident: self.ident.clone(),
            fields,
            separator,
        }
    }

    /// What the generated code holds for this declaration: its attributes,
    /// its name, one plan for each field in order, and [`SEPARATOR`].
    pub fn structure(&self) -> (r: StructPlan)
        ensures
            struct_plan_of(self@, r, SEPARATOR),
    {
        self.structure_with_separator(SEPARATOR)
    }

    /// What the generated code holds for this declaration and every one
    /// nested in it, with keys separated by `separator`: plan `i` is that of
    /// the `i`-th declaration that [`StructSpec::flatten`] yields.
    pub fn plans(self, separator: char) -> (r: Vec<StructPlan>)
        ensures
            r@.len() == flat(self@, Seq::empty()).1.len(),
            forall|i: int| 0 <= i < r@.len() ==> struct_plan_of(flat(self@, Seq::empty()).1[i], #[trigger] r@[i], separator),
    {
        let ghost emitted = flat(self@, Seq::empty()).1;
        let list = self.flatten();
        assert(models(list@).len() == list@.len());
        let mut r: Vec<StructPlan> = Vec::new();
        let mut i: usize = 0;
        while i < list.len()
            invariant
                i <= list@.len(),
                r@.len() == i,
                models(list@) == emitted,
                forall|j: int| 0 <= j < i ==> struct_plan_of(emitted[j], #[trigger] r@[j], separator),
            decreases list.len() - i,
        {
            assert(emitted[i as int] == list@[i as int]@);
            r.push(list[i].structure_with_separator(separator));
            i = i + 1;
        }
        r
    }
}

} // verus!
