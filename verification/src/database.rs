//! The errors of opening and reaching the database.

use vstd::prelude::*;
use crate::models::AppError;
use crate::text::concat;

verus! {

/// The steps of preparing the database.
pub enum DbSetupStage {
    /// Opening the file.
    Open,
    /// Setting the journal and foreign-key pragmas.
    Pragma,
    /// Creating the tables and the default settings.
    Init,
}

/// The code and the words before the database's message, for each step.
pub open spec fn setup_failure(stage: DbSetupStage) -> (Seq<char>, Seq<char>) {
    match stage {
        DbSetupStage::Open => ("DB_OPEN_ERROR"@, "Failed to open database: "@),
        DbSetupStage::Pragma => ("DB_PRAGMA_ERROR"@, "Failed to set pragmas: "@),
        DbSetupStage::Init => ("DB_INIT_ERROR"@, "Failed to init database: "@),
    }
}

/// The error for a failed step of preparing the database.
pub fn setup_error(stage: DbSetupStage, detail: &str) -> (e: AppError)
    ensures
        e.code@ == setup_failure(stage).0,
        e.message@ == setup_failure(stage).1 + detail@,
{
    match stage {
        DbSetupStage::Open => AppError::new(
            "DB_OPEN_ERROR",
            concat("Failed to open database: ", detail).as_str(),
        ),
        DbSetupStage::Pragma => AppError::new(
            "DB_PRAGMA_ERROR",
            concat("Failed to set pragmas: ", detail).as_str(),
        ),
        DbSetupStage::Init => AppError::new(
            "DB_INIT_ERROR",
            concat("Failed to init database: ", detail).as_str(),
        ),
    }
}

/// The error when the shared connection cannot be locked.
pub fn lock_error() -> (e: AppError)
    ensures
        e.code@ == "LOCK_ERROR"@,
        e.message@ == "Failed to lock database"@,
{
    AppError::new("LOCK_ERROR", "Failed to lock database")
}

/// The error when no connection was opened.
pub fn not_initialized() -> (e: AppError)
    ensures
        e.code@ == "DB_NOT_INIT"@,
        e.message@ == "Database not initialized"@,
{
    AppError::new("DB_NOT_INIT", "Database not initialized")
}

} // verus!
