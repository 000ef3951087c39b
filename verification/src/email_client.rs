//! What is handed to the email sender.
use crate::domain::subscriber_email::SubscriberEmail;
use vstd::prelude::*;

verus! {

/// One email, ready to be handed to the sender.
#[derive(Debug)]
pub struct OutgoingEmail {
    pub recipient: SubscriberEmail,
    pub subject: String,
    pub html_body: String,
    pub text_body: String,
}

/// An email as a mathematical value.
pub struct Email {
    pub recipient: Seq<char>,
    pub subject: Seq<char>,
    pub html_body: Seq<char>,
    pub text_body: Seq<char>,
}

impl View for OutgoingEmail {
    type V = Email;

    open spec fn view(&self) -> Email {
        Email {
            recipient: self.recipient@,
            subject: self.subject@,
            html_body: self.html_body@,
            text_body: self.text_body@,
        }
    }
}

/// The emails of a list, each as a mathematical value, in the list's order.
pub open spec fn emails_view(emails: Seq<OutgoingEmail>) -> Seq<Email> {
    emails.map_values(|e: OutgoingEmail| e@)
}

} // verus!
