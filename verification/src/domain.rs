//! What a subscriber is known by: a name and an address, each checked when
//! it comes in.
pub mod new_subscriber;
pub mod subscriber_email;
pub mod subscriber_name;

pub use new_subscriber::NewSubscriber;
pub use subscriber_email::SubscriberEmail;
pub use subscriber_name::NameValidationError;
pub use subscriber_name::SubscriberName;
pub use subscriber_name::FORBIDDEN_CHARS;
