//! The persisted choice of backend, and the test for flags given on the
//! command line.

use vstd::prelude::*;
use crate::text::{begins_with, chars_of, same_chars, starts_with};

verus! {

/// The backend and its connection string, as persisted beside the user's
/// home.
#[derive(Debug)]
pub struct RuntimeConfig {
    pub backend: String,
    pub database_url: String,
}

impl Clone for RuntimeConfig {
    fn clone(&self) -> (copy: Self)
        ensures
            copy.backend@ == self.backend@,
            copy.database_url@ == self.database_url@,
    {
        RuntimeConfig { backend: self.backend.clone(), database_url: self.database_url.clone() }
    }
}

/// Whether `arg` gives `flag`: it is the flag itself, or the flag followed
/// by `=` and a value.
pub open spec fn gives_flag(arg: Seq<char>, flag: Seq<char>) -> bool {
    arg == flag || begins_with(arg, flag.push('='))
}

/// Whether one of `args` gives `flag`.
pub fn cli_flag_present(args: &Vec<String>, flag: &str) -> (present: bool)
    ensures
        present == (exists|i: int| 0 <= i < args.len() && gives_flag(#[trigger] args[i]@, flag@)),
{
    let flag_chars = chars_of(flag);
    let mut with_value = chars_of(flag);
    with_value.push('=');
    let mut i: usize = 0;
    while i < args.len()
        invariant
            i <= args.len(),
            flag_chars@ == flag@,
            with_value@ == flag@.push('='),
            forall|k: int| 0 <= k < i ==> !gives_flag(#[trigger] args[k]@, flag@),
        decreases args.len() - i,
    {
        let arg = chars_of(args[i].as_str());
        if same_chars(arg.as_slice(), flag_chars.as_slice()) || starts_with(
            arg.as_slice(),
            with_value.as_slice(),
        ) {
            return true;
        }
        i += 1;
    }
    false
}

} // verus!
