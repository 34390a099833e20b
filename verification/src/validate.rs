use vstd::prelude::*;
use crate::Opt;

verus! {

/// Why the pre-flight check of the source and destination directories failed.
#[derive(PartialEq, Eq, Structural, Clone, Copy, Debug)]
pub enum ValidationError {
    /// The source directory does not exist.
    SourceNotFound,
    /// The destination directory does not exist and creating it was not asked for.
    DestNotFound,
    /// The destination directory had to be created and creating it failed.
    DestCreateError,
}

/// The pre-flight check, decided from what the filesystem reported: whether
/// the run may proceed, and whether the destination directory must first be
/// created. `Ok(true)` means proceed after creating the destination;
/// `Ok(false)` means proceed as is.
///
/// A missing source fails first, whatever the destination's state; a missing
/// destination fails unless its creation was asked for.
pub fn validate(opt: &Opt, source_exists: bool, dest_exists: bool) -> (r: Result<
    bool,
    ValidationError,
>)
    ensures
        !source_exists ==> r == Result::<bool, ValidationError>::Err(
            ValidationError::SourceNotFound,
        ),
        source_exists && dest_exists ==> r == Result::<bool, ValidationError>::Ok(false),
        source_exists && !dest_exists && opt.create_dest ==> r == Result::<
            bool,
            ValidationError,
        >::Ok(true),
        source_exists && !dest_exists && !opt.create_dest ==> r == Result::<
            bool,
            ValidationError,
        >::Err(ValidationError::DestNotFound),
{
    if !source_exists {
        return Err(ValidationError::SourceNotFound);
    }
    if !dest_exists {
        if opt.create_dest {
            return Ok(true);
        } else {
            return Err(ValidationError::DestNotFound);
        }
    }
    Ok(false)
}

/// The process exit code a failed pre-flight check maps to: a missing
/// source or destination is a validation failure, while a destination that
/// could not be created is a file-operation failure.
pub fn error_exit_code(e: &ValidationError) -> (r: i32)
    ensures
        r == (if e is DestCreateError {
            crate::engine::EXIT_FILE_OPERATION
        } else {
            crate::engine::EXIT_VALIDATION
        }),
{
    match e {
        ValidationError::SourceNotFound => crate::engine::EXIT_VALIDATION,
        ValidationError::DestNotFound => crate::engine::EXIT_VALIDATION,
        ValidationError::DestCreateError => crate::engine::EXIT_FILE_OPERATION,
    }
}

/// Decide how the run goes on once creating the destination directory has
/// been tried: it proceeds exactly when creation succeeded, and a failed
/// creation is a `DestCreateError`.
pub fn after_create_dest(created: bool) -> (r: Result<(), ValidationError>)
    ensures
        created ==> r == Result::<(), ValidationError>::Ok(()),
        !created ==> r == Result::<(), ValidationError>::Err(ValidationError::DestCreateError),
{
    if created {
        Ok(())
    } else {
        Err(ValidationError::DestCreateError)
    }
}

} // verus!
