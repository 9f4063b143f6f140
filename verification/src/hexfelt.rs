//! Parsing of the hex-encoded credential scalars.
//!
//! The signer address and private key arrive as hex strings: an optional
//! `0x` prefix and one to sixty-four hex digits.  Parsing yields the 32-byte
//! big-endian value; an invalid string is a startup-fatal configuration
//! error, surfaced before any request is processed.

use vstd::prelude::*;
use vstd::string::StrSliceExecFns;

verus! {

/// Why the credentials were rejected at startup.
#[derive(Clone, Copy, Debug, PartialEq, Eq, Structural)]
pub enum CredentialError {
    /// A scalar is not an optional `0x` prefix plus 1 to 64 hex digits.
    InvalidHex,
}

/// `c` is an ASCII hex digit.
pub open spec fn is_hex_digit(c: char) -> bool {
    ('0' as u32 <= c as u32 && c as u32 <= '9' as u32) || ('a' as u32 <= c as u32 && c as u32
        <= 'f' as u32) || ('A' as u32 <= c as u32 && c as u32 <= 'F' as u32)
}

/// The value of a hex digit.
pub open spec fn hex_val(c: char) -> int {
    if '0' as u32 <= c as u32 && c as u32 <= '9' as u32 {
        c as int - '0' as int
    } else if 'a' as u32 <= c as u32 && c as u32 <= 'f' as u32 {
        c as int - 'a' as int + 10
    } else {
        c as int - 'A' as int + 10
    }
}

/// The digits of the scalar: everything after an optional `0x` prefix.
pub open spec fn hex_digits(s: Seq<char>) -> Seq<char> {
    if s.len() >= 2 && s[0] == '0' && s[1] == 'x' {
        s.skip(2)
    } else {
        s
    }
}

/// A scalar is valid when it has 1 to 64 digits, all hex.
pub open spec fn valid_hex_scalar(s: Seq<char>) -> bool {
    let d = hex_digits(s);
    1 <= d.len() <= 64 && forall|i: int| 0 <= i < d.len() ==> is_hex_digit(#[trigger] d[i])
}

/// The digits left-padded with `'0'` to 64 places.
pub open spec fn padded64(d: Seq<char>) -> Seq<char>
    recommends
        d.len() <= 64,
{
    Seq::new((64 - d.len()) as nat, |i: int| '0') + d
}

/// The 32-byte big-endian value of a valid scalar: each byte is one pair of
/// padded digits.
pub open spec fn hex_bytes(s: Seq<char>) -> Seq<u8> {
    let p = padded64(hex_digits(s));
    Seq::new(32, |j: int| (16 * hex_val(p[2 * j]) + hex_val(p[2 * j + 1])) as u8)
}

/// `c` is an ASCII hex digit.
fn is_hex_digit_exec(c: char) -> (r: bool)
    ensures
        r == is_hex_digit(c),
{
    let u = c as u32;
    ('0' as u32 <= u && u <= '9' as u32) || ('a' as u32 <= u && u <= 'f' as u32) || ('A' as u32 <= u
        && u <= 'F' as u32)
}

/// The value of a hex digit.
fn hex_val_exec(c: char) -> (r: u8)
    requires
        is_hex_digit(c),
    ensures
        r as int == hex_val(c),
        r < 16,
{
    let u = c as u32;
    if '0' as u32 <= u && u <= '9' as u32 {
        (u - '0' as u32) as u8
    } else if 'a' as u32 <= u && u <= 'f' as u32 {
        (u - 'a' as u32 + 10) as u8
    } else {
        (u - 'A' as u32 + 10) as u8
    }
}

/// Parses one hex-encoded scalar into its 32-byte big-endian value.
/// Succeeds exactly on the valid scalars; everything else is `InvalidHex`.
pub fn parse_hex_scalar(s: &str) -> (r: Result<Vec<u8>, CredentialError>)
    ensures
        match r {
            Ok(b) => valid_hex_scalar(s@) && b@ == hex_bytes(s@) && b@.len() == 32,
            Err(e) => !valid_hex_scalar(s@) && e == CredentialError::InvalidHex,
        },
{
    let len = s.unicode_len();
    let start: usize = if len >= 2 && s.get_char(0) == '0' && s.get_char(1) == 'x' {
        2
    } else {
        0
    };
    proof {
        assert(hex_digits(s@) =~= s@.skip(start as int));
    }
    let dlen = len - start;
    if dlen < 1 || dlen > 64 {
        return Err(CredentialError::InvalidHex);
    }
    let mut nib: Vec<u8> = Vec::new();
    let mut i: usize = 0;
    while i < dlen
        invariant
            i <= dlen,
            start + dlen == len,
            len == s@.len(),
            nib@.len() == i,
            hex_digits(s@) == s@.skip(start as int),
            forall|j: int|
                0 <= j < i ==> is_hex_digit(#[trigger] hex_digits(s@)[j]) && nib@[j] as int
                    == hex_val(hex_digits(s@)[j]) && nib@[j] < 16,
        decreases dlen - i,
    {
        let c = s.get_char(start + i);
        if !is_hex_digit_exec(c) {
            proof {
                assert(hex_digits(s@)[i as int] == s@[start + i]);
            }
            return Err(CredentialError::InvalidHex);
        }
        nib.push(hex_val_exec(c));
        i = i + 1;
    }
    let pad = 64 - dlen;
    let mut out: Vec<u8> = Vec::new();
    let mut j: usize = 0;
    while j < 32
        invariant
            j <= 32,
            out@.len() == j,
            pad == 64 - dlen,
            1 <= dlen <= 64,
            nib@.len() == dlen,
            hex_digits(s@).len() == dlen,
            forall|t: int|
                0 <= t < dlen ==> is_hex_digit(#[trigger] hex_digits(s@)[t]) && nib@[t] as int
                    == hex_val(hex_digits(s@)[t]) && nib@[t] < 16,
            forall|t: int|
                0 <= t < j ==> out@[t] as int == 16 * hex_val(padded64(hex_digits(s@))[2 * t])
                    + hex_val(padded64(hex_digits(s@))[2 * t + 1]),
        decreases 32 - j,
    {
        let p0 = 2 * j;
        let p1 = 2 * j + 1;
        let n0: u8 = if p0 < pad {
            0
        } else {
            nib[p0 - pad]
        };
        let n1: u8 = if p1 < pad {
            0
        } else {
            nib[p1 - pad]
        };
        proof {
            let p = padded64(hex_digits(s@));
            assert(p.len() == 64);
            if p0 < pad {
                assert(p[2 * j] == '0');
                assert(hex_val('0') == 0);
            } else {
                assert(p[2 * j] == hex_digits(s@)[p0 - pad]);
            }
            if p1 < pad {
                assert(p[2 * j + 1] == '0');
                assert(hex_val('0') == 0);
            } else {
                assert(p[2 * j + 1] == hex_digits(s@)[p1 - pad]);
            }
        }
        out.push(16 * n0 + n1);
        j = j + 1;
    }
    proof {
        assert(out@ =~= hex_bytes(s@));
    }
    Ok(out)
}

/// The two credential scalars, parsed once at startup and held read-only:
/// each is a 32-byte big-endian value.
pub struct Credentials {
    pub signer_address: Vec<u8>,
    pub signer_private_key: Vec<u8>,
}

impl Credentials {
    /// Both fields hold 32-byte values.
    pub open spec fn wf(&self) -> bool {
        self.signer_address@.len() == 32 && self.signer_private_key@.len() == 32
    }
}

/// Parses both configured scalars.  Fails, before any request is processed,
/// exactly when one of them is not valid hex.
pub fn parse_credentials(address_hex: &str, private_key_hex: &str) -> (r: Result<
    Credentials,
    CredentialError,
>)
    ensures
        match r {
            Ok(c) => valid_hex_scalar(address_hex@) && valid_hex_scalar(private_key_hex@)
                && c.signer_address@ == hex_bytes(address_hex@) && c.signer_private_key@
                == hex_bytes(private_key_hex@) && c.wf(),
            Err(e) => (!valid_hex_scalar(address_hex@) || !valid_hex_scalar(private_key_hex@)) && e
                == CredentialError::InvalidHex,
        },
{
    let signer_address = match parse_hex_scalar(address_hex) {
        Ok(b) => b,
        Err(e) => {
            return Err(e);
        },
    };
    let signer_private_key = match parse_hex_scalar(private_key_hex) {
        Ok(b) => b,
        Err(e) => {
            return Err(e);
        },
    };
    Ok(Credentials { signer_address, signer_private_key })
}

} // verus!
