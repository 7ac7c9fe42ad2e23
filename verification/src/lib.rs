//! A password-protected file archive ("chest").
//!
//! The library packages byte payloads into a single encrypted container and
//! restores them given the correct password. A chest is either *unlocked* —
//! it holds a derived key in memory and plaintext metadata — or *locked* —
//! it holds only ciphertext and public parameters, and is the only form that
//! is ever serialized. The two states are distinct types; `lock` and
//! `unlock` consume their input and produce the other state.
//!
//! All I/O (reading source files, writing archives, prompting for
//! passwords) lives outside this crate; the library works on plain bytes.

pub mod archive;
pub mod chest;
pub mod compression;
pub mod crypto;
pub mod error;
pub mod key;
pub mod random;

use vstd::prelude::*;

verus! {

/// What a relative path looks like when shown to a user: absolute paths are
/// kept as they are, anything else gains a leading `./`.
pub open spec fn spec_format_path(path: Seq<char>) -> Seq<char> {
    if path.len() > 0 && path[0] == '/' {
        path
    } else {
        seq!['.', '/'] + path
    }
}

/// Renders a path for display, prefixing `./` unless it is absolute.
pub fn format_path(path: &str) -> (r: String)
    ensures
        r@ == spec_format_path(path@),
{
    let n = path.unicode_len();
    if n > 0 && path.get_char(0) == '/' {
        let r = String::from_str(path);
        proof {
            assert(r@ =~= spec_format_path(path@));
        }
        r
    } else {
        let r = String::from_str("./").concat(path);
        proof {
            reveal_strlit("./");
            assert("./"@ =~= seq!['.', '/']);
            assert(r@ =~= spec_format_path(path@));
        }
        r
    }
}

} // verus!
