//! Notification e-mail composition.  Building the message is verified;
//! handing it to an SMTP transport is the I/O layer's job.

use vstd::prelude::*;

verus! {

/// Sender credentials for the notification channel.
pub struct RqEmail {
    pub sender_email: String,
    pub sender_password: String,
}

/// A composed message, ready for an SMTP transport.
pub struct EmailMessage {
    pub to: String,
    pub subject: String,
    pub body: String,
    pub is_body_html: bool,
}

impl RqEmail {
    /// Sender credentials as given.
    pub fn init(sender_email: &str, sender_password: &str) -> (r: RqEmail)
        ensures
            r.sender_email@ == sender_email@,
            r.sender_password@ == sender_password@,
    {
        RqEmail {
            sender_email: sender_email.to_owned(),
            sender_password: sender_password.to_owned(),
        }
    }

    /// Compose a plain-text message.
    pub fn send_text(to: &str, subject: &str, body: &str) -> (r: EmailMessage)
        ensures
            r.to@ == to@,
            r.subject@ == subject@,
            r.body@ == body@,
            !r.is_body_html,
    {
        EmailMessage {
            to: to.to_owned(),
            subject: subject.to_owned(),
            body: body.to_owned(),
            is_body_html: false,
        }
    }

    /// Compose an HTML message.
    pub fn send_html(to: &str, subject: &str, body: &str) -> (r: EmailMessage)
        ensures
            r.to@ == to@,
            r.subject@ == subject@,
            r.body@ == body@,
            r.is_body_html,
    {
        EmailMessage {
            to: to.to_owned(),
            subject: subject.to_owned(),
            body: body.to_owned(),
            is_body_html: true,
        }
    }
}

} // verus!
