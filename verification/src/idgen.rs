//! Short, URL-safe link identifiers: a uniformly random value below
//! `u32::MAX`, written in decimal, then base64url-encoded without padding.
//! No uniqueness is guaranteed and no collision retry is made; a collision
//! surfaces at insertion time as the store's unique-key failure.

use vstd::prelude::*;

verus! {

/// The base64url-without-padding encoding of a byte sequence.
pub uninterp spec fn b64url_of(bytes: Seq<u8>) -> Seq<char>;

/// Relies on `rand::random_range` over `0..u32::MAX`: the draw lies in that
/// half-open range. Nothing else can be promised of a random value.
#[verifier::external_body]
fn random_below_u32_max() -> (r: u32)
    ensures
        r < u32::MAX,
{
    rand::random_range(0..u32::MAX)
}

/// Relies on base64's `Engine::encode` with the URL-safe alphabet and no
/// padding: the output is a function of the input bytes alone, and its
/// length is the one `base64::encoded_len` computes for unpadded output,
/// `4*(n/3)` plus 2 or 3 characters for a final partial chunk.
#[verifier::external_body]
fn b64url_no_pad(bytes: &[u8]) -> (r: String)
    ensures
        r@ == b64url_of(bytes@),
        r@.len() == (bytes@.len() * 4 + 2) / 3,
{
    base64::Engine::encode(&base64::engine::general_purpose::URL_SAFE_NO_PAD, bytes)
}

/// The decimal digit characters of `n`, as ASCII bytes, most significant
/// digit first.
pub open spec fn dec_seq(n: nat) -> Seq<u8>
    decreases n,
{
    if n < 10 {
        seq![(48 + n) as u8]
    } else {
        dec_seq(n / 10).push((48 + n % 10) as u8)
    }
}

/// Appends the decimal representation of `n` to `out`.
fn push_decimal(n: u32, out: &mut Vec<u8>)
    ensures
        final(out)@ == old(out)@ + dec_seq(n as nat),
    decreases n,
{
    if n < 10 {
        out.push((48 + n) as u8);
        assert(out@ =~= old(out)@ + dec_seq(n as nat));
    } else {
        assert(n / 10 < n) by (nonlinear_arith)
            requires
                n >= 10,
        ;
        push_decimal(n / 10, out);
        out.push((48 + (n % 10)) as u8);
        assert(out@ =~= old(out)@ + dec_seq(n as nat));
    }
}

/// Produces a fresh link identifier. The result is the encoding of the
/// decimal text of some random value below `u32::MAX`; a decimal text has 1
/// to 10 digits, so the identifier has 2 to 14 characters.
pub fn generate_id() -> (r: String)
    ensures
        exists|n: u32| n < u32::MAX && r@ == b64url_of(dec_seq(n as nat)),
        2 <= r@.len() <= 14,
{
    let n = random_below_u32_max();
    let mut digits: Vec<u8> = Vec::new();
    push_decimal(n, &mut digits);
    proof {
        assert(digits@ =~= dec_seq(n as nat));
        lemma_dec_seq_len(n as nat);
    }
    let r = b64url_no_pad(digits.as_slice());
    proof {
        assert(n < u32::MAX && r@ == b64url_of(dec_seq(n as nat)));
    }
    r
}

/// A value below `u32::MAX` has 1 to 10 decimal digits.
proof fn lemma_dec_seq_len(n: nat)
    requires
        n < 0x1_0000_0000,
    ensures
        1 <= dec_seq(n).len() <= 10,
{
    reveal_with_fuel(pow10, 12);
    assert(pow10(10) == 10000000000);
    lemma_dec_seq_len_bound(n, 10);
}

/// A value below `10^k` has at most `k` decimal digits (for `k >= 1`).
proof fn lemma_dec_seq_len_bound(n: nat, k: nat)
    requires
        1 <= k,
        n < pow10(k),
    ensures
        1 <= dec_seq(n).len() <= k,
    decreases k,
{
    if n < 10 {
    } else {
        reveal_with_fuel(pow10, 3);
        if k == 1 {
            assert(pow10(1) == 10);
            assert(false);
        }
        assert(pow10(k) == 10 * pow10((k - 1) as nat));
        assert(n / 10 < pow10((k - 1) as nat)) by (nonlinear_arith)
            requires
                n < pow10(k),
                pow10(k) == 10 * pow10((k - 1) as nat),
                n >= 10,
        ;
        lemma_dec_seq_len_bound(n / 10, (k - 1) as nat);
    }
}

/// Ten to the `k`-th power.
spec fn pow10(k: nat) -> nat
    decreases k,
{
    if k == 0 {
        1
    } else {
        10 * pow10((k - 1) as nat)
    }
}

} // verus!
