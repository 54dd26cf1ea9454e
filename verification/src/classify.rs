//! How a dotted reference is read: as a call into a module, as an array
//! method on a variable, or as a method call on a variable. The decision
//! rests on the names alone, and statements and expressions share it.

use vstd::prelude::*;
use vstd::string::StringSliceAdditionalSpecFns;
use crate::bytes::{byte_is_lowercase, bytes_eq, is_lowercase};

verus! {

/// The names that are namespaces and never variables.
pub open spec fn is_known_module(name: Seq<u8>) -> bool {
    ||| name == "crystal".spec_bytes()
    ||| name == "math".spec_bytes()
    ||| name == "quantum".spec_bytes()
    ||| name == "symbolic".spec_bytes()
    ||| name == "networking".spec_bytes()
    ||| name == "system".spec_bytes()
    ||| name == "image".spec_bytes()
    ||| name == "graphics".spec_bytes()
    ||| name == "physics".spec_bytes()
    ||| name == "datetime".spec_bytes()
    ||| name == "lowlevel".spec_bytes()
    ||| name == "ml".spec_bytes()
    ||| name == "gui".spec_bytes()
}

/// The method names that stand for operations on an array.
pub open spec fn is_array_method(name: Seq<u8>) -> bool {
    ||| name == "append".spec_bytes()
    ||| name == "length".spec_bytes()
    ||| name == "size".spec_bytes()
    ||| name == "get".spec_bytes()
    ||| name == "at".spec_bytes()
    ||| name == "set".spec_bytes()
}

/// Whether a name begins with a lowercase letter, as the names of variables do.
pub open spec fn starts_lowercase(name: Seq<u8>) -> bool {
    name.len() > 0 && is_lowercase(name[0])
}

/// What a dotted reference stands for.
#[derive(Clone, Copy, Debug, PartialEq, Eq, Structural)]
pub enum ReferenceKind {
    /// `module.sub.function`: a call into a namespace within a known module.
    NestedModuleCall,
    /// `module.function`: a call into a known module.
    ModuleCall,
    /// `variable.method` with one of the array methods.
    ArraySugar,
    /// `variable.method` with any other method.
    GenericMethod,
    /// A name with no member behind it.
    Variable,
}

/// Reads the segments of a dotted reference. The rules apply in this order:
/// a lone name is a variable; three or more segments behind a known module
/// are a nested call; a lowercase name that is no module, with an array
/// method behind it, is an array operation; a known module is called;
/// anything else is a method call on a variable.
pub open spec fn classify(segments: Seq<Seq<u8>>) -> ReferenceKind {
    if segments.len() < 2 {
        ReferenceKind::Variable
    } else if segments.len() >= 3 && is_known_module(segments[0]) {
        ReferenceKind::NestedModuleCall
    } else if starts_lowercase(segments[0]) && !is_known_module(segments[0]) && is_array_method(
        segments[1],
    ) {
        ReferenceKind::ArraySugar
    } else if is_known_module(segments[0]) {
        ReferenceKind::ModuleCall
    } else {
        ReferenceKind::GenericMethod
    }
}

pub fn known_module(name: &[u8]) -> (r: bool)
    ensures
        r == is_known_module(name@),
{
    bytes_eq(name, "crystal".as_bytes()) || bytes_eq(name, "math".as_bytes()) || bytes_eq(
        name,
        "quantum".as_bytes(),
    ) || bytes_eq(name, "symbolic".as_bytes()) || bytes_eq(name, "networking".as_bytes())
        || bytes_eq(name, "system".as_bytes()) || bytes_eq(name, "image".as_bytes()) || bytes_eq(
        name,
        "graphics".as_bytes(),
    ) || bytes_eq(name, "physics".as_bytes()) || bytes_eq(name, "datetime".as_bytes())
        || bytes_eq(name, "lowlevel".as_bytes()) || bytes_eq(name, "ml".as_bytes()) || bytes_eq(
        name,
        "gui".as_bytes(),
    )
}

pub fn array_method(name: &[u8]) -> (r: bool)
    ensures
        r == is_array_method(name@),
{
    bytes_eq(name, "append".as_bytes()) || bytes_eq(name, "length".as_bytes()) || bytes_eq(
        name,
        "size".as_bytes(),
    ) || bytes_eq(name, "get".as_bytes()) || bytes_eq(name, "at".as_bytes()) || bytes_eq(
        name,
        "set".as_bytes(),
    )
}

pub fn name_starts_lowercase(name: &[u8]) -> (r: bool)
    ensures
        r == starts_lowercase(name@),
{
    name.len() > 0 && byte_is_lowercase(name[0])
}

/// Classifies a dotted reference by its segments.
pub fn classify_reference(segments: &[&[u8]]) -> (kind: ReferenceKind)
    ensures
        kind == classify(segments.deep_view()),
{
    if segments.len() < 2 {
        return ReferenceKind::Variable;
    }
    let first: &[u8] = segments[0];
    let second: &[u8] = segments[1];
    assert(segments.deep_view()[0] == first@);
    assert(segments.deep_view()[1] == second@);
    let module = known_module(first);
    if segments.len() >= 3 && module {
        ReferenceKind::NestedModuleCall
    } else if name_starts_lowercase(first) && !module && array_method(second) {
        ReferenceKind::ArraySugar
    } else if module {
        ReferenceKind::ModuleCall
    } else {
        ReferenceKind::GenericMethod
    }
}

} // verus!
