//! Choosing the signer profile of a command.
use vstd::prelude::*;

verus! {

/// A named signer profile could not be loaded: the loader's error, under
/// the context given by `context`.
#[derive(Debug)]
pub struct SignerLoadError<E> {
    pub cause: E,
}

impl<E> SignerLoadError<E> {
    /// The context under which the loader's error is reported.
    pub fn context(&self) -> (r: &'static str)
        ensures
            r@ == "failed to load signer profile"@,
    {
        "failed to load signer profile"
    }
}

/// The signer of a command: none where no profile is named, else the
/// profile that `load_profile` loads under that name.  A loader error is
/// passed on under the context "failed to load signer profile".  The
/// loader is needed, and called, only where a profile is named.
pub fn resolve_signer<P, E, L: Fn(&String) -> Result<P, E>>(name: Option<String>, load_profile: L) -> (r:
    Result<Option<P>, SignerLoadError<E>>)
    requires
        name is Some ==> forall|n: &String|
            n@ == name->0@ ==> #[trigger] call_requires(load_profile, (n,)),
    ensures
        name is None ==> r is Ok && r->Ok_0 is None,
        name is Some ==> exists|loaded: Result<P, E>|
            #[trigger] call_ensures(load_profile, (&name->0,), loaded) && r == match loaded {
                Ok(p) => Ok::<Option<P>, SignerLoadError<E>>(Some(p)),
                Err(e) => Err::<Option<P>, SignerLoadError<E>>(SignerLoadError { cause: e }),
            },
{
    let name = match name {
        Some(n) => n,
        None => return Ok(None),
    };
    match load_profile(&name) {
        Ok(profile) => Ok(Some(profile)),
        Err(e) => Err(SignerLoadError { cause: e }),
    }
}

} // verus!
