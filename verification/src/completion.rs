//! Data carried by completion items: how a call should be displayed and
//! the payload a completion item round-trips to identify what it completes.
//! Serialization of the payload for a client protocol belongs to the
//! surrounding presentation layer, not to this crate.
use vstd::prelude::*;
use crate::semantic::LuaPropertyOwnerId;

verus! {

/// How a callable completion renders its parameter list: unchanged, with a
/// receiver parameter added, or with the first parameter removed.
#[derive(Debug, Clone, Copy, PartialEq, Eq, Structural)]
pub enum CallDisplay {
    NoneDisplay,
    AddSelf,
    RemoveFirst,
}

/// The payload attached to a completion item: the owner identity it
/// completes, or the module it imports.
#[derive(Debug, Clone, PartialEq)]
pub enum CompletionData {
    PropertyOwnerId(LuaPropertyOwnerId),
    Module(String),
}

impl CompletionData {
    pub fn from_property_owner_id(id: LuaPropertyOwnerId) -> (r: Option<CompletionData>)
        ensures
            r == Some(CompletionData::PropertyOwnerId(id)),
    {
        Some(CompletionData::PropertyOwnerId(id))
    }

    pub fn from_module(module: String) -> (r: Option<CompletionData>)
        ensures
            r matches Some(d) && d matches CompletionData::Module(m) && m@ == module@,
    {
        Some(CompletionData::Module(module))
    }
}

} // verus!
