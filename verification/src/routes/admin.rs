//! The pages and actions of a logged-in user.
pub mod dashboard;
pub mod logout;
pub mod newsletter;
pub mod password;

pub use dashboard::admin_dashboard;
pub use logout::log_out;
pub use newsletter::publish_newsletter_form;
pub use password::change_passord_form;
pub use password::change_password;
