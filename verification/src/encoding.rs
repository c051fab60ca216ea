use base64::Engine;
use vstd::prelude::*;
use vstd::utf8::encode_utf8;

verus! {

/// Whether a standard (padded) Base64 encoding of `n` bytes has a length
/// that fits in a `usize`: `4 * ceil(n / 3) <= usize::MAX`.
pub open spec fn base64_len_fits(n: nat) -> bool {
    (n + 2) / 3 * 4 <= usize::MAX
}

/// The text that the standard Base64 engine (alphabet `A-Z a-z 0-9 + /`,
/// with `=` padding) makes of the UTF-8 encoding of `input`.
pub uninterp spec fn spec_base64_standard(input: Seq<char>) -> Seq<char>;

/// Calls `base64::Engine::encode` on `base64::prelude::BASE64_STANDARD` with the
/// UTF-8 bytes of `input`. The contract claims only that the result is the
/// named function `spec_base64_standard` of the characters of `input`; the
/// crate computes its buffer size with a checked multiplication and panics
/// where `4 * ceil(n / 3)` overflows a `usize`, which `requires` rules out.
#[verifier::external_body]
pub(crate) fn base64_standard_encode(input: &str) -> (encoded: String)
    requires
        base64_len_fits(encode_utf8(input@).len()),
    ensures
        encoded@ == spec_base64_standard(input@),
{
    base64::prelude::BASE64_STANDARD.encode(input)
}

} // verus!
