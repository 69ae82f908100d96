pub mod error_kind;
pub mod invalid_operation_error;
