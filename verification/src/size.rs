//! Amounts of data as people read them.
use vstd::prelude::*;

verus! {

/// What `oma_utils::human_bytes::HumanBytes` prints of a number of bytes.
pub uninterp spec fn human_bytes_text(bytes: u64) -> Seq<char>;

/// `HumanBytes::to_string` of `oma_utils`: a number of bytes with a binary unit. What it prints
/// is a function of the number, named by [`human_bytes_text`].
#[verifier::external_body]
pub(crate) fn human_bytes(bytes: u64) -> (text: String)
    ensures
        text@ == human_bytes_text(bytes),
{
    oma_utils::human_bytes::HumanBytes(bytes).to_string()
}

} // verus!
