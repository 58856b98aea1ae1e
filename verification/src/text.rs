//! Text that can travel as an OSC string: text without a NUL character.

use vstd::prelude::*;

verus! {

/// `text` holds no NUL character.
pub open spec fn nul_free(text: Seq<char>) -> bool {
    forall|i: int| 0 <= i < text.len() ==> text[i] != '\0'
}

/// Two texts without a NUL character join into one without.
pub proof fn lemma_nul_free_concat(first: Seq<char>, second: Seq<char>)
    requires
        nul_free(first),
        nul_free(second),
    ensures
        nul_free(first + second),
{
    assert forall|i: int| 0 <= i < (first + second).len() implies (first + second)[i] != '\0' by {
        if i < first.len() {
            assert((first + second)[i] == first[i]);
        } else {
            assert((first + second)[i] == second[i - first.len()]);
        }
    }
}

} // verus!
