use vstd::prelude::*;
use vstd::string::StrSliceExecFns;
use crate::split::{lemma_split_spec, split_once, split_spec, splittable};

verus! {

/// Where a key leads in a validated structure.
#[derive(Debug, PartialEq, Eq)]
pub enum KeyRoute<'a> {
    /// The whole of the field at this index.
    Whole(usize),
    /// The key that follows, inside the structure that the field at this
    /// index holds.
    Inner(usize, &'a str),
    /// No field answers to the key.
    Unknown,
}

/// Whether the field `field` (its name, and whether it holds a structure)
/// answers to a key whose name part is `head` and whose inner part is
/// `rest`: the names agree, and the key asks for the whole field or the
/// field holds a structure.
pub open spec fn answers(field: (&str, bool), head: Seq<char>, rest: Seq<char>) -> bool {
    field.0@ == head && (rest.len() == 0 || field.1)
}

/// A field answers to a key only under its exact name: the key is that name,
/// alone or followed by the separator and an inner key, which may be
/// non-empty only for a field that holds a structure.
pub proof fn law_answers_exact(field: (&str, bool), key: Seq<char>, separator: char)
    ensures
        ({
            let (head, rest) = split_spec(key, separator);
            answers(field, head, rest) ==> {
                &&& field.0@ == head
                &&& !field.0@.contains(separator)
                &&& (key == field.0@ || key == field.0@ + seq![separator] + rest)
                &&& (rest.len() > 0 ==> field.1)
            }
        }),
        ({
            let (head, rest) = split_spec(key, separator);
            field.0@ == head && (rest.len() == 0 || field.1) ==> answers(field, head, rest)
        }),
{
    lemma_split_spec(key, separator, Seq::empty(), Seq::empty());
}

/// Whether `a` and `b` hold the same text.
pub fn same_text(a: &str, b: &str) -> (r: bool)
    ensures
        r == (a@ == b@),
{
    let n = a.unicode_len();
    if n != b.unicode_len() {
        return false;
    }
    let mut i: usize = 0;
    while i < n
        invariant
            n == a@.len(),
            n == b@.len(),
            i <= n,
            forall|j: int| 0 <= j < i ==> a@[j] == b@[j],
        decreases n - i,
    {
        if a.get_char(i) != b.get_char(i) {
            return false;
        }
        i = i + 1;
    }
    assert(a@ =~= b@);
    true
}

/// Where `key` leads among `fields`, listed in order by name and by whether
/// each holds a structure: the key is split at its first `separator` into a
/// name part and an inner part; the first field that answers to them takes
/// the key, whole where the inner part is empty and inside itself where it
/// is not; where none answers, the key is unknown.
pub fn route_key<'a>(key: &'a str, separator: char, fields: &[(&str, bool)]) -> (r: KeyRoute<'a>)
    requires
        splittable(key@, separator),
    ensures
        ({
            let (head, rest) = split_spec(key@, separator);
            match r {
                KeyRoute::Whole(i) => {
                    &&& i < fields@.len()
                    &&& rest.len() == 0
                    &&& answers(fields@[i as int], head, rest)
                    &&& forall|j: int| 0 <= j < i ==> !answers(#[trigger] fields@[j], head, rest)
                },
                KeyRoute::Inner(i, inner) => {
                    &&& i < fields@.len()
                    &&& rest.len() > 0
                    &&& inner@ == rest
                    &&& answers(fields@[i as int], head, rest)
                    &&& forall|j: int| 0 <= j < i ==> !answers(#[trigger] fields@[j], head, rest)
                },
                KeyRoute::Unknown => forall|j: int| 0 <= j < fields@.len() ==> !answers(#[trigger] fields@[j], head, rest),
            }
        }),
        r matches KeyRoute::Whole(i) ==> {
            &&& i < fields@.len()
            &&& fields@[i as int].0@ == split_spec(key@, separator).0
            &&& (key@ == fields@[i as int].0@ || key@ == fields@[i as int].0@ + seq![separator])
        },
        r matches KeyRoute::Inner(i, inner) ==> {
            &&& i < fields@.len()
            &&& fields@[i as int].1
            &&& fields@[i as int].0@ == split_spec(key@, separator).0
            &&& !fields@[i as int].0@.contains(separator)
            &&& key@ == fields@[i as int].0@ + seq![separator] + inner@
            &&& inner@.len() > 0
        },
        (forall|j: int| 0 <= j < fields@.len() ==> (#[trigger] fields@[j]).0@ != split_spec(key@, separator).0)
            ==> r is Unknown,
{
    let (head, rest) = split_once(key, separator);
    proof {
        lemma_split_spec(key@, separator, Seq::empty(), Seq::empty());
        if rest@.len() == 0 && key@.contains(separator) {
            assert(head@ + seq![separator] + rest@ =~= head@ + seq![separator]);
        }
        if rest@.len() > 0 {
            assert(key@.contains(separator));
        }
    }
    let whole = rest.unicode_len() == 0;
    let mut i: usize = 0;
    while i < fields.len()
        invariant
            i <= fields@.len(),
            (head@, rest@) == split_spec(key@, separator),
            whole == (rest@.len() == 0),
            rest@.len() == 0 ==> (key@ == head@ || key@ == head@ + seq![separator]),
            rest@.len() > 0 ==> key@ == head@ + seq![separator] + rest@ && !head@.contains(separator),
            forall|j: int| 0 <= j < i ==> !answers(#[trigger] fields@[j], head@, rest@),
        decreases fields.len() - i,
    {
        let (name, nested) = fields[i];
        if same_text(name, head) && (whole || nested) {
            if whole {
                return KeyRoute::Whole(i);
            } else {
                return KeyRoute::Inner(i, rest);
            }
        }
        i = i + 1;
    }
    KeyRoute::Unknown
}

} // verus!
