//! Idempotency keys and the record of what was answered under each of them.
pub mod key;
pub mod persistence;
pub mod response;

pub use key::IdempotencyKey;
pub use key::IdempotencyKeyError;
pub use key::MAX_KEY_CHARS;
pub use response::HeaderPairRecord;
pub use response::HttpResponse;
pub use response::ResponseError;
pub use response::SavedResponse;
pub use persistence::decide_claim;
pub use persistence::get_seved_response;
pub use persistence::insert_claim;
pub use persistence::restore_saved;
pub use persistence::saved_or_incomplete;
pub use persistence::ClaimDecision;
pub use persistence::rollback;
pub use persistence::save_response;
pub use persistence::try_processing;
pub use persistence::IdempotencyError;
pub use persistence::NextAction;
pub use persistence::Transaction;
