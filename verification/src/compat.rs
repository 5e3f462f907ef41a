//! Distribution compatibility checks.

use vstd::prelude::*;

use crate::errors::Error;
use crate::strutil::{eq_lowered, lower_chars};

verus! {

/// Distribution metadata as read from the OS release description.
pub struct Distribution {
    pub id: String,
    pub id_like: String,
    pub release: String,
}

/// The distribution identifiers supported without an override.
pub open spec fn spec_supported_distros() -> Seq<Seq<char>> {
    seq!["arch"@, "endeavouros"@, "cachyos"@, "manjaro"@]
}

/// Check whether a distro identifier is in the supported set; the comparison
/// lowers ASCII letters first.
pub fn is_supported_distro(id: &str) -> (r: bool)
    ensures
        r == spec_supported_distros().contains(lower_chars(id@)),
{
    let hit = eq_lowered(id, "arch") || eq_lowered(id, "endeavouros") || eq_lowered(id, "cachyos")
        || eq_lowered(id, "manjaro");
    proof {
        if hit {
            assert(spec_supported_distros().contains(lower_chars(id@))) by {
                if lower_chars(id@) == "arch"@ {
                    assert(spec_supported_distros()[0] == lower_chars(id@));
                } else if lower_chars(id@) == "endeavouros"@ {
                    assert(spec_supported_distros()[1] == lower_chars(id@));
                } else if lower_chars(id@) == "cachyos"@ {
                    assert(spec_supported_distros()[2] == lower_chars(id@));
                } else {
                    assert(spec_supported_distros()[3] == lower_chars(id@));
                }
            }
        } else {
            if spec_supported_distros().contains(lower_chars(id@)) {
                let w = choose|i: int|
                    0 <= i < spec_supported_distros().len() && spec_supported_distros()[i]
                        == lower_chars(id@);
                assert(w == 0 || w == 1 || w == 2 || w == 3);
            }
        }
    }
    hit
}

/// Validate distro compatibility: with `skip_check` the answer is always
/// positive; otherwise an unsupported identifier is rejected with
/// [`Error::Incompatible`] carrying that identifier.
pub fn check_compatibility(distro: &Distribution, skip_check: bool) -> (r: Result<(), Error>)
    ensures
        r is Ok <==> (skip_check || spec_supported_distros().contains(lower_chars(distro.id@))),
        r matches Err(e) ==> e matches Error::Incompatible(m) && m@ == distro.id@,
{
    if skip_check {
        return Ok(());
    }
    if is_supported_distro(distro.id.as_str()) {
        Ok(())
    } else {
        Err(Error::Incompatible(distro.id.clone()))
    }
}

} // verus!
