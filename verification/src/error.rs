//! The error type for menu construction, and the reserved command keys.

use vstd::prelude::*;
use crate::chars::fold_case;

verus! {

use vstd::string::StringExecFns;

/// Raised only while a menu tree is validated; a session whose tree fails
/// validation is never constructed.
#[derive(Debug)]
pub enum IstariError {
    /// A key occurs twice in one menu (case-insensitively): key, menu title.
    DuplicateCommand(String, String),
    /// A key is one of the reserved command keys: key, menu title.
    ReservedCommand(String, String),
}

/// The reserved command keys, after case folding: `q` quits, `b` goes back.
pub open spec fn reserved_key(k: Seq<char>) -> bool {
    k == "q"@ || k == "b"@
}

/// Whether a folded key is reserved.
pub fn is_reserved_key(k: &Vec<char>) -> (r: bool)
    ensures
        r == reserved_key(k@),
{
    proof {
        reveal_strlit("q");
        reveal_strlit("b");
    }
    if k.len() == 1 {
        let c = k[0];
        proof {
            assert(k@ =~= seq![k@[0]]);
            assert(c == 'q' ==> k@ =~= "q"@);
            assert(c == 'b' ==> k@ =~= "b"@);
        }
        c == 'q' || c == 'b'
    } else {
        false
    }
}

impl IstariError {
    /// The user-facing description of this error.
    pub fn message(&self) -> (r: String)
        ensures
            self matches IstariError::DuplicateCommand(k, t) ==> r@ == "Duplicate command key '"@
                + k@ + "' in menu '"@ + t@ + "'"@,
            self matches IstariError::ReservedCommand(k, t) ==> r@ == "Reserved command key '"@
                + k@ + "' in menu '"@ + t@ + "'"@,
    {
        match self {
            IstariError::DuplicateCommand(k, t) => {
                let mut r = String::from_str("Duplicate command key '");
                r.append(k.as_str());
                r.append("' in menu '");
                r.append(t.as_str());
                r.append("'");
                r
            },
            IstariError::ReservedCommand(k, t) => {
                let mut r = String::from_str("Reserved command key '");
                r.append(k.as_str());
                r.append("' in menu '");
                r.append(t.as_str());
                r.append("'");
                r
            },
        }
    }
}

} // verus!
