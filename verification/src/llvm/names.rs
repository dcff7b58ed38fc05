//! The names under which the runtime offers its functions for each type.
use vstd::prelude::*;
use super::ir::{CompileError, Ty};

verus! {

/// The function that makes an empty map of a type.
pub open spec fn spec_alloc_name(ty: Ty) -> Result<&'static str, CompileError> {
    match ty {
        Ty::MapIntInt => Ok("alloc_intint"),
        Ty::MapIntFloat => Ok("alloc_intfloat"),
        Ty::MapIntStr => Ok("alloc_intstr"),
        Ty::MapStrInt => Ok("alloc_strint"),
        Ty::MapStrFloat => Ok("alloc_strfloat"),
        Ty::MapStrStr => Ok("alloc_strstr"),
        _ => Err(CompileError::NotAMap(ty)),
    }
}

#[verifier::when_used_as_spec(spec_alloc_name)]
pub fn alloc_name(ty: Ty) -> (r: Result<&'static str, CompileError>)
    ensures
        r == spec_alloc_name(ty),
{
    match ty {
        Ty::MapIntInt => Ok("alloc_intint"),
        Ty::MapIntFloat => Ok("alloc_intfloat"),
        Ty::MapIntStr => Ok("alloc_intstr"),
        Ty::MapStrInt => Ok("alloc_strint"),
        Ty::MapStrFloat => Ok("alloc_strfloat"),
        Ty::MapStrStr => Ok("alloc_strstr"),
        _ => Err(CompileError::NotAMap(ty)),
    }
}

/// The function that drops a map of a type.
pub open spec fn spec_drop_name(ty: Ty) -> Result<&'static str, CompileError> {
    match ty {
        Ty::MapIntInt => Ok("drop_intint"),
        Ty::MapIntFloat => Ok("drop_intfloat"),
        Ty::MapIntStr => Ok("drop_intstr"),
        Ty::MapStrInt => Ok("drop_strint"),
        Ty::MapStrFloat => Ok("drop_strfloat"),
        Ty::MapStrStr => Ok("drop_strstr"),
        _ => Err(CompileError::NotAMap(ty)),
    }
}

#[verifier::when_used_as_spec(spec_drop_name)]
pub fn drop_name(ty: Ty) -> (r: Result<&'static str, CompileError>)
    ensures
        r == spec_drop_name(ty),
{
    match ty {
        Ty::MapIntInt => Ok("drop_intint"),
        Ty::MapIntFloat => Ok("drop_intfloat"),
        Ty::MapIntStr => Ok("drop_intstr"),
        Ty::MapStrInt => Ok("drop_strint"),
        Ty::MapStrFloat => Ok("drop_strfloat"),
        Ty::MapStrStr => Ok("drop_strstr"),
        _ => Err(CompileError::NotAMap(ty)),
    }
}

/// The function that counts the keys of a map of a type.
pub open spec fn spec_len_name(ty: Ty) -> Result<&'static str, CompileError> {
    match ty {
        Ty::MapIntInt => Ok("len_intint"),
        Ty::MapIntFloat => Ok("len_intfloat"),
        Ty::MapIntStr => Ok("len_intstr"),
        Ty::MapStrInt => Ok("len_strint"),
        Ty::MapStrFloat => Ok("len_strfloat"),
        Ty::MapStrStr => Ok("len_strstr"),
        _ => Err(CompileError::NotAMap(ty)),
    }
}

#[verifier::when_used_as_spec(spec_len_name)]
pub fn len_name(ty: Ty) -> (r: Result<&'static str, CompileError>)
    ensures
        r == spec_len_name(ty),
{
    match ty {
        Ty::MapIntInt => Ok("len_intint"),
        Ty::MapIntFloat => Ok("len_intfloat"),
        Ty::MapIntStr => Ok("len_intstr"),
        Ty::MapStrInt => Ok("len_strint"),
        Ty::MapStrFloat => Ok("len_strfloat"),
        Ty::MapStrStr => Ok("len_strstr"),
        _ => Err(CompileError::NotAMap(ty)),
    }
}

/// The function that lists the keys of a map of a type.
pub open spec fn spec_iter_name(ty: Ty) -> Result<&'static str, CompileError> {
    match ty {
        Ty::MapIntInt => Ok("iter_intint"),
        Ty::MapIntFloat => Ok("iter_intfloat"),
        Ty::MapIntStr => Ok("iter_intstr"),
        Ty::MapStrInt => Ok("iter_strint"),
        Ty::MapStrFloat => Ok("iter_strfloat"),
        Ty::MapStrStr => Ok("iter_strstr"),
        _ => Err(CompileError::NotAMap(ty)),
    }
}

#[verifier::when_used_as_spec(spec_iter_name)]
pub fn iter_name(ty: Ty) -> (r: Result<&'static str, CompileError>)
    ensures
        r == spec_iter_name(ty),
{
    match ty {
        Ty::MapIntInt => Ok("iter_intint"),
        Ty::MapIntFloat => Ok("iter_intfloat"),
        Ty::MapIntStr => Ok("iter_intstr"),
        Ty::MapStrInt => Ok("iter_strint"),
        Ty::MapStrFloat => Ok("iter_strfloat"),
        Ty::MapStrStr => Ok("iter_strstr"),
        _ => Err(CompileError::NotAMap(ty)),
    }
}

/// The function that looks a key up in a map of a type.
pub open spec fn spec_lookup_name(ty: Ty) -> Result<&'static str, CompileError> {
    match ty {
        Ty::MapIntInt => Ok("lookup_intint"),
        Ty::MapIntFloat => Ok("lookup_intfloat"),
        Ty::MapIntStr => Ok("lookup_intstr"),
        Ty::MapStrInt => Ok("lookup_strint"),
        Ty::MapStrFloat => Ok("lookup_strfloat"),
        Ty::MapStrStr => Ok("lookup_strstr"),
        _ => Err(CompileError::NotAMap(ty)),
    }
}

#[verifier::when_used_as_spec(spec_lookup_name)]
pub fn lookup_name(ty: Ty) -> (r: Result<&'static str, CompileError>)
    ensures
        r == spec_lookup_name(ty),
{
    match ty {
        Ty::MapIntInt => Ok("lookup_intint"),
        Ty::MapIntFloat => Ok("lookup_intfloat"),
        Ty::MapIntStr => Ok("lookup_intstr"),
        Ty::MapStrInt => Ok("lookup_strint"),
        Ty::MapStrFloat => Ok("lookup_strfloat"),
        Ty::MapStrStr => Ok("lookup_strstr"),
        _ => Err(CompileError::NotAMap(ty)),
    }
}

/// The function that stores a value in a map of a type.
pub open spec fn spec_insert_name(ty: Ty) -> Result<&'static str, CompileError> {
    match ty {
        Ty::MapIntInt => Ok("insert_intint"),
        Ty::MapIntFloat => Ok("insert_intfloat"),
        Ty::MapIntStr => Ok("insert_intstr"),
        Ty::MapStrInt => Ok("insert_strint"),
        Ty::MapStrFloat => Ok("insert_strfloat"),
        Ty::MapStrStr => Ok("insert_strstr"),
        _ => Err(CompileError::NotAMap(ty)),
    }
}

#[verifier::when_used_as_spec(spec_insert_name)]
pub fn insert_name(ty: Ty) -> (r: Result<&'static str, CompileError>)
    ensures
        r == spec_insert_name(ty),
{
    match ty {
        Ty::MapIntInt => Ok("insert_intint"),
        Ty::MapIntFloat => Ok("insert_intfloat"),
        Ty::MapIntStr => Ok("insert_intstr"),
        Ty::MapStrInt => Ok("insert_strint"),
        Ty::MapStrFloat => Ok("insert_strfloat"),
        Ty::MapStrStr => Ok("insert_strstr"),
        _ => Err(CompileError::NotAMap(ty)),
    }
}

/// The function that deletes a key of a map of a type.
pub open spec fn spec_delete_name(ty: Ty) -> Result<&'static str, CompileError> {
    match ty {
        Ty::MapIntInt => Ok("delete_intint"),
        Ty::MapIntFloat => Ok("delete_intfloat"),
        Ty::MapIntStr => Ok("delete_intstr"),
        Ty::MapStrInt => Ok("delete_strint"),
        Ty::MapStrFloat => Ok("delete_strfloat"),
        Ty::MapStrStr => Ok("delete_strstr"),
        _ => Err(CompileError::NotAMap(ty)),
    }
}

#[verifier::when_used_as_spec(spec_delete_name)]
pub fn delete_name(ty: Ty) -> (r: Result<&'static str, CompileError>)
    ensures
        r == spec_delete_name(ty),
{
    match ty {
        Ty::MapIntInt => Ok("delete_intint"),
        Ty::MapIntFloat => Ok("delete_intfloat"),
        Ty::MapIntStr => Ok("delete_intstr"),
        Ty::MapStrInt => Ok("delete_strint"),
        Ty::MapStrFloat => Ok("delete_strfloat"),
        Ty::MapStrStr => Ok("delete_strstr"),
        _ => Err(CompileError::NotAMap(ty)),
    }
}

/// The function that tells whether a map of a type has a key.
pub open spec fn spec_contains_name(ty: Ty) -> Result<&'static str, CompileError> {
    match ty {
        Ty::MapIntInt => Ok("contains_intint"),
        Ty::MapIntFloat => Ok("contains_intfloat"),
        Ty::MapIntStr => Ok("contains_intstr"),
        Ty::MapStrInt => Ok("contains_strint"),
        Ty::MapStrFloat => Ok("contains_strfloat"),
        Ty::MapStrStr => Ok("contains_strstr"),
        _ => Err(CompileError::NotAMap(ty)),
    }
}

#[verifier::when_used_as_spec(spec_contains_name)]
pub fn contains_name(ty: Ty) -> (r: Result<&'static str, CompileError>)
    ensures
        r == spec_contains_name(ty),
{
    match ty {
        Ty::MapIntInt => Ok("contains_intint"),
        Ty::MapIntFloat => Ok("contains_intfloat"),
        Ty::MapIntStr => Ok("contains_intstr"),
        Ty::MapStrInt => Ok("contains_strint"),
        Ty::MapStrFloat => Ok("contains_strfloat"),
        Ty::MapStrStr => Ok("contains_strstr"),
        _ => Err(CompileError::NotAMap(ty)),
    }
}

/// The function that loads a value of a type from a slot.
pub open spec fn spec_load_slot_name(ty: Ty) -> Result<&'static str, CompileError> {
    match ty {
        Ty::Int => Ok("load_slot_int"),
        Ty::Float => Ok("load_slot_float"),
        Ty::Str => Ok("load_slot_str"),
        Ty::MapIntInt => Ok("load_slot_intint"),
        Ty::MapIntFloat => Ok("load_slot_intfloat"),
        Ty::MapIntStr => Ok("load_slot_intstr"),
        Ty::MapStrInt => Ok("load_slot_strint"),
        Ty::MapStrFloat => Ok("load_slot_strfloat"),
        Ty::MapStrStr => Ok("load_slot_strstr"),
        _ => Err(CompileError::NoSlot(ty)),
    }
}

#[verifier::when_used_as_spec(spec_load_slot_name)]
pub fn load_slot_name(ty: Ty) -> (r: Result<&'static str, CompileError>)
    ensures
        r == spec_load_slot_name(ty),
{
    match ty {
        Ty::Int => Ok("load_slot_int"),
        Ty::Float => Ok("load_slot_float"),
        Ty::Str => Ok("load_slot_str"),
        Ty::MapIntInt => Ok("load_slot_intint"),
        Ty::MapIntFloat => Ok("load_slot_intfloat"),
        Ty::MapIntStr => Ok("load_slot_intstr"),
        Ty::MapStrInt => Ok("load_slot_strint"),
        Ty::MapStrFloat => Ok("load_slot_strfloat"),
        Ty::MapStrStr => Ok("load_slot_strstr"),
        _ => Err(CompileError::NoSlot(ty)),
    }
}

/// The function that stores a value of a type into a slot.
pub open spec fn spec_store_slot_name(ty: Ty) -> Result<&'static str, CompileError> {
    match ty {
        Ty::Int => Ok("store_slot_int"),
        Ty::Float => Ok("store_slot_float"),
        Ty::Str => Ok("store_slot_str"),
        Ty::MapIntInt => Ok("store_slot_intint"),
        Ty::MapIntFloat => Ok("store_slot_intfloat"),
        Ty::MapIntStr => Ok("store_slot_intstr"),
        Ty::MapStrInt => Ok("store_slot_strint"),
        Ty::MapStrFloat => Ok("store_slot_strfloat"),
        Ty::MapStrStr => Ok("store_slot_strstr"),
        _ => Err(CompileError::NoSlot(ty)),
    }
}

#[verifier::when_used_as_spec(spec_store_slot_name)]
pub fn store_slot_name(ty: Ty) -> (r: Result<&'static str, CompileError>)
    ensures
        r == spec_store_slot_name(ty),
{
    match ty {
        Ty::Int => Ok("store_slot_int"),
        Ty::Float => Ok("store_slot_float"),
        Ty::Str => Ok("store_slot_str"),
        Ty::MapIntInt => Ok("store_slot_intint"),
        Ty::MapIntFloat => Ok("store_slot_intfloat"),
        Ty::MapIntStr => Ok("store_slot_intstr"),
        Ty::MapStrInt => Ok("store_slot_strint"),
        Ty::MapStrFloat => Ok("store_slot_strfloat"),
        Ty::MapStrStr => Ok("store_slot_strstr"),
        _ => Err(CompileError::NoSlot(ty)),
    }
}

/// The function that drops an iterator of a type.
pub open spec fn spec_drop_iter_name(ty: Ty) -> Result<&'static str, CompileError> {
    match ty {
        Ty::IterInt => Ok("drop_iter_int"),
        Ty::IterStr => Ok("drop_iter_str"),
        _ => Err(CompileError::NotAnIterator(ty)),
    }
}

#[verifier::when_used_as_spec(spec_drop_iter_name)]
pub fn drop_iter_name(ty: Ty) -> (r: Result<&'static str, CompileError>)
    ensures
        r == spec_drop_iter_name(ty),
{
    match ty {
        Ty::IterInt => Ok("drop_iter_int"),
        Ty::IterStr => Ok("drop_iter_str"),
        _ => Err(CompileError::NotAnIterator(ty)),
    }
}

} // verus!
