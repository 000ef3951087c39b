//! Who may log in, and how a password is checked and changed.
pub mod credentials;
pub mod middleware;

pub use crate::store::User;
pub use credentials::change_password;
pub use credentials::validate_credentials;
pub use credentials::validate_password;
pub use credentials::AuthError;
pub use credentials::Credentials;
pub use credentials::ValidationError;
pub use middleware::auth_middleware;
pub use middleware::get_user;
pub use middleware::Access;
