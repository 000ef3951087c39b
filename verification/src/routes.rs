//! What each request handler decides and writes.
pub mod admin;
pub mod error_handlers;
pub mod login;
pub mod newsletters;
pub mod subscriptions;
pub mod subscriptions_confirm;

pub use subscriptions::confirmation_email;
pub use subscriptions::generate_subscription_token;
pub use subscriptions::insert_subscriber;
pub use subscriptions::insert_subscriber_with_id;
pub use subscriptions::store_token;
pub use subscriptions::subscribe;
pub use subscriptions::subscribe_with;
pub use subscriptions_confirm::confirm_subscriber;
pub use subscriptions_confirm::get_subscriber_id_by_token;
pub use subscriptions_confirm::subscribtion_confirm;
pub use subscriptions_confirm::QueryParams;
pub use error_handlers::error_chain_fmt;
pub use error_handlers::LoginError;
pub use error_handlers::PublishError;
pub use admin::admin_dashboard;
pub use admin::change_passord_form;
pub use admin::change_password;
pub use admin::log_out;
pub use admin::publish_newsletter_form;
pub use error_handlers::flash_redirect;
pub use login::login;
pub use login::login_form;
