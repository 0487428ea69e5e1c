//! The greeting command: input checking for the one purely cosmetic call.

use vstd::prelude::*;
use vstd::string::*;

use crate::strutil::{str_trim, trimmed};

verus! {

/// Greets a caller by name: the name is trimmed, must be non-empty, and
/// must not exceed 100 bytes.
pub fn greet(name: &str) -> (r: Result<String, String>)
    ensures
        ({
            let t = trimmed(name@);
            &&& (t.len() == 0 <==> (r matches Err(m) && m@ == "Name cannot be empty"@))
            &&& ((t.len() != 0 && vstd::utf8::encode_utf8(t).len() > 100) <==> (r matches Err(m)
                && m@ == "Name is too long"@))
            &&& (r is Ok ==> r->Ok_0@ == "Hello, "@ + t + "! You've been greeted from Rust!"@)
            &&& (r is Ok <==> t.len() != 0 && vstd::utf8::encode_utf8(t).len() <= 100)
        }),
{
    proof {
        reveal_strlit("Name cannot be empty");
        reveal_strlit("Name is too long");
        assert("Name cannot be empty"@.len() == 20);
        assert("Name is too long"@.len() == 16);
    }
    let trimmed_name = str_trim(name);
    if trimmed_name.unicode_len() == 0 {
        return Err(String::from_str("Name cannot be empty"));
    }
    if trimmed_name.as_bytes_vec().len() > 100 {
        return Err(String::from_str("Name is too long"));
    }
    let mut out = String::from_str("Hello, ");
    out.append(trimmed_name);
    out.append("! You've been greeted from Rust!");
    proof {
        assert(out@ =~= "Hello, "@ + trimmed(name@) + "! You've been greeted from Rust!"@);
    }
    Ok(out)
}

} // verus!
