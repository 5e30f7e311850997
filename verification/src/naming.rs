//! The temporary-artifact naming convention.

use vstd::prelude::*;
use vstd::string::StringExecFns;
use crate::errors::RepairError;

verus! {

/// Builds the temporary-artifact name for a file: the original name
/// wrapped in the fixed pattern `.tmp.<original-name>.<fixed-suffix>`.
/// A name that cannot be represented as text (`None`) is refused with the
/// name-encoding error, before any side effect.
pub fn tmp_file_name(name: Option<&str>) -> (r: Result<String, RepairError>)
    ensures
        name matches Some(n) ==> r matches Ok(s) && s@ == ".tmp."@ + n@ + ".neo4j"@,
        name is None ==> r == Err::<String, RepairError>(RepairError::NameEncoding),
{
    match name {
        None => Err(RepairError::NameEncoding),
        Some(n) => {
            let mut s = String::new();
            s.append(".tmp.");
            s.append(n);
            s.append(".neo4j");
            proof {
                assert(s@ == ".tmp."@ + n@ + ".neo4j"@) by {
                    assert(s@ =~= ".tmp."@ + n@ + ".neo4j"@);
                }
            }
            Ok(s)
        },
    }
}

} // verus!
