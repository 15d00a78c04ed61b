//! The message that carries a one-time code to a user's address.
use vstd::prelude::*;

use lettre::message::header::ContentType;
use lettre::message::Mailbox;
use lettre::Message;

use crate::code::{generate_human_readable_code, is_code};
use crate::config::EmailConfig;
use vstd::string::*;

verus! {

/// Subject line of a code message.
pub const CODE_SUBJECT: &'static str = "Verification Code";

/// Why a one-time code could not be delivered.
#[derive(Debug, Clone, Copy, PartialEq, Eq)]
pub enum DeliveryError {
    /// The sender's or the recipient's address is not a mailbox.
    InvalidAddress,
    /// The mail relay could not be reached or refused the message.
    Transport,
}

/// Whether lettre reads `s` as a mailbox (an address, with or without a
/// display name).
pub uninterp spec fn mailbox_parses(s: Seq<char>) -> bool;

#[verifier::external_type_specification]
#[verifier::external_body]
pub struct ExMessage(lettre::Message);

/// Relies on lettre's `FromStr for Mailbox` for both addresses and on its
/// MessageBuilder: a plain-text message from `from` to `to` with the given
/// subject and body. Building fails only without a sender, with several
/// senders and no Sender header, or without a recipient, none of which can
/// happen with one parsed mailbox each; so the result is present exactly
/// when both addresses parse.
#[verifier::external_body]
fn plain_message(from: &str, to: &str, subject: &str, body: String) -> (r: Option<Message>)
    ensures
        r is Some <==> (mailbox_parses(from@) && mailbox_parses(to@)),
{
    let from = from.parse::<Mailbox>().ok()?;
    let to = to.parse::<Mailbox>().ok()?;
    Message::builder()
        .from(from)
        .to(to)
        .subject(subject)
        .header(ContentType::TEXT_PLAIN)
        .body(body)
        .ok()
}

/// A one-time code together with the message that carries it: `message` is
/// built from `from`, `to`, `subject` and, as its plain-text body, `code`.
pub struct CodeEmail {
    pub from: String,
    pub to: String,
    pub subject: String,
    pub code: String,
    pub message: Message,
}

/// Draws a fresh one-time code and writes the message that carries it from
/// the configured sender to `to_email`. It succeeds exactly when both
/// addresses are mailboxes, and fails with `InvalidAddress` otherwise.
pub fn compose_code_email(config: &EmailConfig, to_email: &str) -> (r: Result<
    CodeEmail,
    DeliveryError,
>)
    ensures
        r is Ok <==> (mailbox_parses(config.sender_email@) && mailbox_parses(to_email@)),
        r is Err ==> r->Err_0 == DeliveryError::InvalidAddress,
        r is Ok ==> {
            let mail = r->Ok_0;
            &&& mail.from@ == config.sender_email@
            &&& mail.to@ == to_email@
            &&& mail.subject@ == CODE_SUBJECT@
            &&& is_code(mail.code@)
        },
{
    let code = generate_human_readable_code();
    match plain_message(config.sender_email.as_str(), to_email, CODE_SUBJECT, code.clone()) {
        Some(message) => Ok(
            CodeEmail {
                from: config.sender_email.clone(),
                to: to_email.to_owned(),
                subject: String::from_str(CODE_SUBJECT),
                code,
                message,
            },
        ),
        None => Err(DeliveryError::InvalidAddress),
    }
}

} // verus!
