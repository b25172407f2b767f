//! Fixed registry of built-in importable modules.
//!
//! Each built-in module exposes a structural type describing its fields.
//! Importing a name absent from this registry is the sole input-validation
//! failure of import processing.

use vstd::prelude::*;
use vstd::string::StringExecFns;
use crate::types::{StructType, TypeValue};

verus! {

/// The value-free shape of a registry field.
#[derive(Clone, Copy, PartialEq, Eq, Structural, Debug)]
pub enum BuiltinType {
    Bool,
    Integer,
}

/// Field layout of the built-in `time` module.
pub open spec fn time_fields() -> Seq<(Seq<char>, BuiltinType)> {
    seq![("now"@, BuiltinType::Integer)]
}

/// Field layout of the built-in `pe` module.
pub open spec fn pe_fields() -> Seq<(Seq<char>, BuiltinType)> {
    seq![("entry_point"@, BuiltinType::Integer), ("is_signed"@, BuiltinType::Bool)]
}

/// The field layout of the built-in module called `name`, or `None` when no
/// built-in module carries the name.
pub open spec fn builtin_fields(name: Seq<char>) -> Option<Seq<(Seq<char>, BuiltinType)>> {
    if name == "time"@ {
        Some(time_fields())
    } else if name == "pe"@ {
        Some(pe_fields())
    } else {
        None
    }
}

/// Whether a structural type matches a registry layout: same names in the
/// same order, unknown values of the layout's types.
pub open spec fn matches_layout(st: StructType, layout: Seq<(Seq<char>, BuiltinType)>) -> bool {
    &&& st.fields@.len() == layout.len()
    &&& forall|i: int|
        0 <= i < layout.len() ==> (#[trigger] st.fields@[i]).name@ == layout[i].0
    &&& forall|i: int|
        0 <= i < layout.len() ==> (#[trigger] st.fields@[i]).value == (match layout[i].1 {
            BuiltinType::Bool => TypeValue::Bool(None::<bool>),
            BuiltinType::Integer => TypeValue::Integer(None::<i64>),
        })
}

/// Looks `name` up in the registry of built-in modules and, when present,
/// builds the structural type describing the module's exposed fields.
pub fn builtin_module(name: &String) -> (r: Option<StructType>)
    ensures
        match r {
            Some(st) => {
                &&& builtin_fields(name@) is Some
                &&& st.wf()
                &&& matches_layout(st, builtin_fields(name@).unwrap())
            },
            None => builtin_fields(name@) is None,
        },
{
    let time_name: String = String::from_str("time");
    let pe_name: String = String::from_str("pe");
    if *name == time_name {
        let mut st = StructType::new();
        st.insert(&String::from_str("now"), TypeValue::Integer(None));
        proof {
            assert(matches_layout(st, time_fields()));
        }
        Some(st)
    } else if *name == pe_name {
        let mut st = StructType::new();
        st.insert(&String::from_str("entry_point"), TypeValue::Integer(None));
        proof {
            reveal_strlit("entry_point");
            reveal_strlit("is_signed");
            assert(st.fields@.len() == 1);
            assert(st.fields@[0].name@ == "entry_point"@);
            crate::types::lemma_field_pos(st.fields@, "is_signed"@);
            if crate::types::field_pos(st.fields@, "is_signed"@) != -1 {
                assert(st.fields@[crate::types::field_pos(st.fields@, "is_signed"@)].name@
                    == "is_signed"@);
                assert(false);
            }
        }
        st.insert(&String::from_str("is_signed"), TypeValue::Bool(None));
        proof {
            assert(st.fields@.len() == 2);
            assert(st.fields@[0].name@ == "entry_point"@);
            assert(st.fields@[1].name@ == "is_signed"@);
            assert(st.fields@[0].value == TypeValue::Integer(None::<i64>));
            assert(st.fields@[1].value == TypeValue::Bool(None::<bool>));
            assert(matches_layout(st, pe_fields()));
        }
        Some(st)
    } else {
        None
    }
}

} // verus!
