//! The default handlers of a scripted object: a script that does not define
//! `init`, `tick` or `draw` gets one that does nothing and succeeds.
use vstd::prelude::*;

verus! {

/// `ketos::Error`, the error of a script call, carried through unseen.
#[verifier::external_type_specification]
#[verifier::external_body]
pub struct ExKetosError(ketos::Error);

/// The `tick` (and `init`) handler of a script that defines none.
pub fn default_tick() -> (r: Result<(), ketos::Error>)
    ensures
        r is Ok,
{
    Ok(())
}

/// The `draw` handler of a script that defines none.
pub fn default_draw() -> (r: Result<(), ketos::Error>)
    ensures
        r is Ok,
{
    Ok(())
}

} // verus!
