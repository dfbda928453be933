use vstd::prelude::*;

use crate::error::Error;
use crate::pattern::Pattern;
use crate::resolve::{disp_value, le32_at, resolve_target, resolved_target};
use crate::scan::{matches_at, scan};

verus! {

/// Locates the pattern in the module snapshot and resolves the absolute
/// address its displacement field targets: the list head's address. Fails
/// with `PatternNotFound` when no offset matches, and with `TruncatedMatch`
/// when the first match leaves no room for the displacement field.
pub fn locate_target_address(
    buf: &Vec<u8>,
    pat: &Pattern,
    base: u64,
    disp_off: usize,
    ilen: usize,
) -> (r: Result<u64, Error>)
    ensures
        match r {
            Ok(t) => exists|off: int|
                {
                    &&& #[trigger] matches_at(buf@, pat@, off)
                    &&& forall|k: int| 0 <= k < off ==> !matches_at(buf@, pat@, k)
                    &&& off + disp_off + 4 <= buf@.len()
                    &&& t == resolved_target(
                        base,
                        off,
                        ilen as int,
                        disp_value(le32_at(buf@, off + disp_off)),
                    )
                },
            Err(e) => match e {
                Error::PatternNotFound => forall|k: int| !matches_at(buf@, pat@, k),
                Error::TruncatedMatch => exists|off: int|
                    {
                        &&& #[trigger] matches_at(buf@, pat@, off)
                        &&& forall|k: int| 0 <= k < off ==> !matches_at(buf@, pat@, k)
                        &&& off + disp_off + 4 > buf@.len()
                    },
                _ => false,
            },
        },
{
    let off = match scan(buf, pat) {
        Ok(o) => o,
        Err(e) => {
            return Err(e);
        },
    };
    match resolve_target(buf, off, disp_off, ilen, base) {
        Ok(t) => Ok(t),
        Err(e) => Err(e),
    }
}

} // verus!
