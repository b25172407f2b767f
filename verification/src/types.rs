//! Tagged type and value model for rule conditions.
//!
//! Conditions are typed over booleans, integers, floats and strings, plus
//! structural types that describe the fields an imported module exposes.
//! Boolean results follow a three-valued logic (true / false / undefined);
//! a value that cannot be determined at scan time is "undefined".

use vstd::prelude::*;

verus! {

/// Static type of an expression or of a structure field.
#[derive(Clone, Copy, PartialEq, Eq, Structural, Debug)]
pub enum Type {
    Bool,
    Integer,
    Float,
    String,
    Struct,
}

/// A type together with a value that may be known at compile time.
/// The value of a float is never tracked at compile time.
#[derive(Debug)]
pub enum TypeValue {
    Bool(Option<bool>),
    Integer(Option<i64>),
    Float,
    String,
    Struct(Box<StructType>),
}

impl TypeValue {
    /// The static type of this value.
    pub open spec fn spec_ty(&self) -> Type {
        match self {
            TypeValue::Bool(_) => Type::Bool,
            TypeValue::Integer(_) => Type::Integer,
            TypeValue::Float => Type::Float,
            TypeValue::String => Type::String,
            TypeValue::Struct(_) => Type::Struct,
        }
    }

    /// The static type of this value.
    #[verifier::when_used_as_spec(spec_ty)]
    pub fn ty(&self) -> (t: Type)
        ensures
            t == self.spec_ty(),
    {
        match self {
            TypeValue::Bool(_) => Type::Bool,
            TypeValue::Integer(_) => Type::Integer,
            TypeValue::Float => Type::Float,
            TypeValue::String => Type::String,
            TypeValue::Struct(_) => Type::Struct,
        }
    }
}

/// One named field of a structural type. `index` is the field's offset in
/// declaration order.
#[derive(Debug)]
pub struct StructField {
    pub name: String,
    pub value: TypeValue,
    pub index: u32,
}

/// Structural type describing the named fields of an imported module or of
/// a structured value.
#[derive(Debug)]
pub struct StructType {
    pub fields: Vec<StructField>,
}

/// First field position in `fields` whose name is `name`, or -1.
pub open spec fn field_pos(fields: Seq<StructField>, name: Seq<char>) -> int
    decreases fields.len(),
{
    if fields.len() == 0 {
        -1
    } else if fields[0].name@ == name {
        0
    } else {
        let r = field_pos(fields.drop_first(), name);
        if r == -1 {
            -1
        } else {
            r + 1
        }
    }
}

/// `field_pos` returns -1 exactly when no field carries the name, and
/// otherwise the first position carrying it.
pub proof fn lemma_field_pos(fields: Seq<StructField>, name: Seq<char>)
    ensures
        field_pos(fields, name) == -1 ==> forall|i: int|
            0 <= i < fields.len() ==> fields[i].name@ != name,
        field_pos(fields, name) != -1 ==> {
            let p = field_pos(fields, name);
            &&& 0 <= p < fields.len()
            &&& fields[p].name@ == name
            &&& forall|i: int| 0 <= i < p ==> fields[i].name@ != name
        },
    decreases fields.len(),
{
    if fields.len() != 0 {
        if fields[0].name@ != name {
            let t = fields.drop_first();
            lemma_field_pos(t, name);
            assert(forall|i: int| 0 <= i < t.len() ==> t[i] == fields[i + 1]);
            let r = field_pos(t, name);
            if r == -1 {
                assert forall|i: int| 0 <= i < fields.len() implies fields[i].name@
                    != name by {
                    if i > 0 {
                        assert(fields[i] == t[i - 1]);
                    }
                }
            } else {
                assert(fields[r + 1] == t[r]);
                assert forall|i: int| 0 <= i < r + 1 implies fields[i].name@ != name by {
                    if i > 0 {
                        assert(fields[i] == t[i - 1]);
                    }
                }
            }
        }
    }
}

impl StructType {
    /// Field names are unique and each field's `index` is its position.
    pub open spec fn wf(&self) -> bool {
        &&& forall|i: int, j: int|
            0 <= i < j < self.fields@.len() ==> self.fields@[i].name@ != self.fields@[j].name@
        &&& forall|i: int|
            0 <= i < self.fields@.len() ==> self.fields@[i].index == i
        &&& self.fields@.len() < 0x8000_0000
    }

    /// Creates an empty structural type.
    pub fn new() -> (r: Self)
        ensures
            r.fields@.len() == 0,
            r.wf(),
    {
        StructType { fields: Vec::new() }
    }

    /// Binds `name` to `value`: overwrites the value of an existing field of
    /// that name, else appends a new field at the next index.
    pub fn insert(&mut self, name: &String, value: TypeValue)
        requires
            old(self).wf(),
            old(self).fields@.len() < 0x7fff_ffff,
        ensures
            final(self).wf(),
            ({
                let p = field_pos(old(self).fields@, name@);
                if p == -1 {
                    final(self).fields@ == old(self).fields@.push(
                        StructField {
                            name: *name,
                            value: value,
                            index: old(self).fields@.len() as u32,
                        },
                    )
                } else {
                    final(self).fields@ == old(self).fields@.update(
                        p,
                        StructField { name: *name, value: value, index: p as u32 },
                    )
                }
            }),
            field_pos(final(self).fields@, name@) != -1,
            old(self).fields@.len() <= final(self).fields@.len() <= old(self).fields@.len() + 1,
    {
        let ghost fs0 = self.fields@;
        proof {
            lemma_field_pos(fs0, name@);
        }
        let n = self.fields.len();
        for i in 0..n
            invariant
                n == self.fields@.len(),
                self.fields@ == fs0,
                fs0 == old(self).fields@,
                old(self).wf(),
                forall|j: int| 0 <= j < i ==> fs0[j].name@ != name@,
        {
            if self.fields[i].name == *name {
                proof {
                    lemma_field_pos(fs0, name@);
                    assert(field_pos(fs0, name@) == i as int);
                }
                let fld = StructField { name: name.clone(), value, index: i as u32 };
                self.fields.set(i, fld);
                proof {
                    assert(self.fields@ =~= fs0.update(
                        i as int,
                        StructField { name: *name, value: value, index: i as u32 },
                    ));
                    assert(forall|k: int|
                        0 <= k < self.fields@.len() ==> self.fields@[k].name@ == fs0[k].name@);
                    assert(self.fields@[i as int].name@ == name@);
                    lemma_field_pos(self.fields@, name@);
                    if field_pos(self.fields@, name@) == -1 {
                        assert(false);
                    }
                }
                return ;
            }
        }
        proof {
            lemma_field_pos(fs0, name@);
            if field_pos(fs0, name@) != -1 {
                assert(false);
            }
        }
        let idx = self.fields.len() as u32;
        let fld = StructField { name: name.clone(), value, index: idx };
        self.fields.push(fld);
        proof {
            assert(self.fields@ =~= fs0.push(
                StructField { name: *name, value: value, index: fs0.len() as u32 },
            ));
            assert(self.fields@[fs0.len() as int].name@ == name@);
            lemma_field_pos(self.fields@, name@);
            if field_pos(self.fields@, name@) == -1 {
                assert(false);
            }
        }
    }

    /// Looks a field up by name; `None` when no field carries the name.
    pub fn field_by_name(&self, name: &String) -> (r: Option<&StructField>)
        ensures
            match r {
                Some(f) => {
                    let p = field_pos(self.fields@, name@);
                    &&& p != -1
                    &&& *f == self.fields@[p]
                },
                None => field_pos(self.fields@, name@) == -1,
            },
    {
        let ghost fs0 = self.fields@;
        let n = self.fields.len();
        for i in 0..n
            invariant
                n == self.fields@.len(),
                self.fields@ == fs0,
                forall|j: int| 0 <= j < i ==> fs0[j].name@ != name@,
        {
            if self.fields[i].name == *name {
                proof {
                    lemma_field_pos(fs0, name@);
                    assert(field_pos(fs0, name@) == i as int);
                }
                return Some(&self.fields[i]);
            }
        }
        proof {
            lemma_field_pos(fs0, name@);
            if field_pos(fs0, name@) != -1 {
                assert(false);
            }
        }
        None
    }
}

} // verus!
