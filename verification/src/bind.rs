//! Computing the address the server binds.
//!
//! The runtime binds the transport's listener; the address it binds — the
//! host, a colon separator, and the port written in decimal — is computed
//! and pinned down here.

use vstd::prelude::*;
use vstd::slice::slice_to_vec;
use vstd::string::StringSliceAdditionalSpecFns;

verus! {

/// The decimal digits of `n` as bytes, most significant first, with no
/// leading zero except for `n == 0` itself.
pub open spec fn dec_digits(n: nat) -> Seq<u8>
    decreases n,
{
    if n < 10 {
        seq![(48 + n) as u8]
    } else {
        dec_digits(n / 10).push((48 + (n % 10)) as u8)
    }
}

/// Append the decimal digits of `n` to `out`.
fn push_decimal(out: &mut Vec<u8>, n: u32)
    ensures
        final(out)@ == old(out)@ + dec_digits(n as nat),
    decreases n,
{
    if n < 10 {
        out.push(48 + n as u8);
        proof {
            assert(out@ =~= old(out)@ + dec_digits(n as nat));
        }
    } else {
        proof {
            assert(n / 10 < n) by (nonlinear_arith)
                requires
                    n >= 10,
            ;
        }
        push_decimal(out, n / 10);
        out.push(48 + (n % 10) as u8);
        proof {
            assert(out@ =~= old(out)@ + dec_digits(n as nat));
        }
    }
}

/// The address the server binds: the host bytes, a colon, and the port in
/// decimal.  The runtime hands these bytes, as text, to the transport's
/// bind.
pub fn build_server(address: &str, port: u32) -> (r: Vec<u8>)
    ensures
        r@ == address.spec_bytes() + seq![58u8] + dec_digits(port as nat),
{
    let b = address.as_bytes();
    let mut r = slice_to_vec(b);
    r.push(58);
    push_decimal(&mut r, port);
    proof {
        assert(r@ =~= address.spec_bytes() + seq![58u8] + dec_digits(port as nat));
    }
    r
}

} // verus!
