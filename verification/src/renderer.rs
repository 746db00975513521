//! The way back from drawing without the graphics card.

use vstd::prelude::*;

use crate::error;
use crate::error::AppError;

verus! {

/// Whether the next start may try the graphics card again. `can_retry_gpu` is
/// missing where it was never decided how to draw.
pub fn renderer_retry_gpu(can_retry_gpu: Option<bool>) -> (r: Result<(), AppError>)
    ensures
        match can_retry_gpu {
            None => r matches Err(e) && error::says(
                e,
                "the renderer state is not available this launch"@,
            ),
            Some(false) => r matches Err(e) && error::says(
                e,
                "nothing to undo: this launch's renderer was not chosen from the stored state"@,
            ),
            Some(true) => r is Ok,
        },
{
    match can_retry_gpu {
        None => Err(
            AppError::Other("the renderer state is not available this launch".to_owned()),
        ),
        Some(can) => {
            if !can {
                return Err(
                    AppError::Other(
                        "nothing to undo: this launch's renderer was not chosen from the stored state".to_owned(),
                    ),
                );
            }
            Ok(())
        },
    }
}

} // verus!
