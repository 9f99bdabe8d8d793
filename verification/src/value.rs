//! The GraphQL value model: a tagged union of null, scalars, lists and
//! ordered keyed structures, as produced by field resolution and carried
//! in upstream response bodies.

use vstd::prelude::*;

verus! {

/// A GraphQL-compatible value.
#[derive(Debug, PartialEq, Eq)]
pub enum Value {
    Null,
    Bool(bool),
    Number(i64),
    Str(String),
    List(Vec<Value>),
    Object(Vec<(String, Value)>),
}

/// The first entry of `fields` whose key reads as `name`, where one
/// exists. An object's fields are ordered; a lookup takes the first match.
pub open spec fn object_lookup(fields: Seq<(String, Value)>, name: Seq<char>) -> Option<Value>
    decreases fields.len(),
{
    if fields.len() == 0 {
        None
    } else if fields[0].0@ == name {
        Some(fields[0].1)
    } else {
        object_lookup(fields.drop_first(), name)
    }
}

/// What projecting a field named `name` out of a parent value yields: the
/// stored value when the parent is a keyed structure that has the key, and
/// nothing otherwise. A missing key or a non-keyed parent is not an error.
pub open spec fn spec_project(parent: Value, name: Seq<char>) -> Option<Value> {
    match parent {
        Value::Object(fields) => object_lookup(fields@, name),
        _ => None,
    }
}

proof fn lemma_object_lookup_step(fields: Seq<(String, Value)>, name: Seq<char>, i: int)
    requires
        0 <= i < fields.len(),
        forall|k: int| 0 <= k < i ==> #[trigger] fields[k].0@ != name,
    ensures
        fields[i].0@ == name ==> object_lookup(fields, name) == Some(fields[i].1),
        (forall|k: int| 0 <= k <= i ==> #[trigger] fields[k].0@ != name) ==> object_lookup(
            fields,
            name,
        ) == object_lookup(fields.skip(i + 1), name),
    decreases i,
{
    if i == 0 {
        assert(fields.drop_first() =~= fields.skip(1));
    } else {
        lemma_object_lookup_step(fields.drop_first(), name, i - 1);
        assert(fields.drop_first()[i - 1] == fields[i]);
        assert(forall|k: int|
            0 <= k < i - 1 ==> #[trigger] fields.drop_first()[k].0@ == fields[k + 1].0@);
        assert(fields.drop_first().skip(i) =~= fields.skip(i + 1));
    }
}

impl Value {
    /// Look a key up in a keyed-structure value; `None` stands for a
    /// missing key or a parent that is not a keyed structure.
    #[verifier::loop_isolation(false)]
    pub fn get_key<'a>(&'a self, name: &String) -> (r: Option<&'a Value>)
        ensures
            match r {
                Some(v) => spec_project(*self, name@) == Some(*v),
                None => spec_project(*self, name@) is None,
            },
    {
        match self {
            Value::Object(fields) => {
                let n = fields.len();
                let mut i: usize = 0;
                while i < n
                    invariant
                        n == fields.len(),
                        i <= n,
                        forall|k: int| 0 <= k < i ==> #[trigger] fields@[k].0@ != name@,
                    decreases n - i,
                {
                    if fields[i].0.eq(name) {
                        proof {
                            lemma_object_lookup_step(fields@, name@, i as int);
                            assert(object_lookup(fields@, name@) == Some(fields@[i as int].1));
                        }
                        return Some(&fields[i].1);
                    }
                    i += 1;
                }
                proof {
                    if n > 0 {
                        lemma_object_lookup_step(fields@, name@, n - 1);
                        assert(fields@.skip(n as int) =~= Seq::<(String, Value)>::empty());
                    }
                }
                None
            },
            _ => None,
        }
    }
}

} // verus!
