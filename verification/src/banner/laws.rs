//! What the greeting promises.
use super::centred;
use vstd::prelude::*;

verus! {

/// A text beneath the emblem has nothing but spaces before it, and as many as are left of the
/// emblem's width after it, or one less.
pub proof fn law_centred_is_in_the_middle(s: Seq<char>)
    ensures
        ({
            let pad = centred(s).len() - s.len();
            &&& 0 <= pad
            &&& s.len() >= 40 ==> pad == 0
            &&& s.len() < 40 ==> pad <= 40 - (pad + s.len()) <= pad + 1
            &&& forall|i: int| 0 <= i < pad ==> #[trigger] centred(s)[i] == ' '
            &&& forall|i: int| 0 <= i < s.len() ==> centred(s)[pad + i] == #[trigger] s[i]
        }),
{
}

} // verus!
