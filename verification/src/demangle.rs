use vstd::prelude::*;

verus! {

/// The display form the demangler produces for a raw symbol name; it depends
/// on the characters of the name alone.
pub uninterp spec fn demangled_of(name: Seq<char>) -> Seq<char>;

/// A name that no mangling scheme can claim: nonempty, without a '.'
/// anywhere, and whose first character starts none of the recognized
/// manglings. The demangler writes such a name back unchanged.
pub open spec fn plainly_unmangled(name: Seq<char>) -> bool {
    &&& name.len() > 0
    &&& (forall|i: int| 0 <= i < name.len() ==> name[i] != '.')
    &&& name[0] != '_'
    &&& name[0] != 'Z'
    &&& name[0] != 'R'
}

/// Relies on rustc_demangle::demangle: the display form is a function of the
/// name's characters alone, and a name without a '.' that starts with none
/// of '_', 'Z', 'R' is recognized by no scheme and is written back
/// unchanged.
#[verifier::external_body]
pub(crate) fn demangle_name(name: &str) -> (r: String)
    ensures
        r@ == demangled_of(name@),
        plainly_unmangled(name@) ==> r@ == name@,
{
    rustc_demangle::demangle(name).to_string()
}

} // verus!
