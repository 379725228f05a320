//! Command-line option parsing of the services.
use vstd::prelude::*;
use crate::text::chars_of;

verus! {

/// Whether an argument is exactly the given option.
pub fn is_arg(arg: &String, option: &str) -> (r: bool)
    ensures
        r == (arg@ == option@),
{
    let a = chars_of(arg.as_str());
    let b = chars_of(option);
    if a.len() != b.len() {
        return false;
    }
    let mut i: usize = 0;
    while i < a.len()
        invariant
            i <= a@.len(),
            a@.len() == b@.len(),
            a@ == arg@,
            b@ == option@,
            forall|k: int| 0 <= k < i ==> a@[k] == b@[k],
        decreases a@.len() - i,
    {
        if a[i] != b[i] {
            assert(a@[i as int] != b@[i as int]);
            return false;
        }
        i += 1;
    }
    assert(a@ =~= b@);
    true
}

/// What parsing a command line gave: a configuration to run with, or a
/// request for the usage text.
#[derive(Debug)]
pub enum ParsedArgs<C> {
    Run(C),
    Help,
}

} // verus!
