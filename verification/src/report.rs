//! What the verdict of a run means to the one who asked for it.

use vstd::prelude::*;
use crate::error::{Error, ErrorView};

verus! {

/// Whether a run accepted: `Ok` for a run that ended with the verdict
/// `true`, and the failure that names `string` for one that rejected or
/// did not end.
pub fn return_shell(string: &str, result: Result<bool, Error>) -> (r: Result<(), Error>)
    ensures
        result == Ok::<bool, Error>(true) ==> r is Ok,
        result != Ok::<bool, Error>(true) ==> r is Err && r->Err_0@ == ErrorView::Fail(string@),
{
    match result {
        Ok(true) => Ok(()),
        _ => Err(Error::Fail(string.to_owned())),
    }
}

} // verus!
