//! Chemical elements, looked up by atomic number in mendeleev's table.

use vstd::prelude::*;

verus! {

#[verifier::external_type_specification]
#[verifier::external_body]
pub struct ExElement(mendeleev::Element);

/// Number of elements in mendeleev's table (`mendeleev::N_ELEMENTS`).
pub const N_ELEMENTS: usize = 118;

/// The element at position `i` of mendeleev's element list, if there is one.
pub uninterp spec fn listed(i: usize) -> Option<mendeleev::Element>;

/// The element with the given atomic number, if there is one.
pub open spec fn element_for(atomic_number: i32) -> Option<mendeleev::Element> {
    if 1 <= atomic_number {
        listed((atomic_number - 1) as usize)
    } else {
        None
    }
}

/// Relies on mendeleev::Element::list: a slice of the 118 known elements
/// ordered by atomic number, so position `i` holds the element whose atomic
/// number is `i + 1`.
#[verifier::external_body]
fn listed_element(i: usize) -> (r: Option<mendeleev::Element>)
    ensures
        r == listed(i),
        r.is_some() <==> i < N_ELEMENTS,
{
    mendeleev::Element::list().get(i).copied()
}

/// Identify the element with the given atomic number.
/// Returns `None` if the atomic number corresponds to no known element.
pub fn from_atom_number(atomic_number: i32) -> (r: Option<mendeleev::Element>)
    ensures
        r == element_for(atomic_number),
        r.is_some() <==> 1 <= atomic_number <= N_ELEMENTS,
{
    if atomic_number < 1 {
        None
    } else {
        listed_element((atomic_number - 1) as usize)
    }
}

} // verus!
