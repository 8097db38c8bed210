//! The life of a quote: which states it may be sent or cancelled from, and
//! the emails that send it.
use vstd::prelude::*;
use crate::errors::StoreError;
use crate::time::Date;

verus! {

/// Status of a quote.
#[derive(Debug, Clone, Copy, PartialEq, Eq, Structural)]
pub enum QuoteStatus {
    Draft,
    Pending,
    Accepted,
    Declined,
    Expired,
    Cancelled,
}

/// What sending a quote does to it.
#[derive(Debug, Clone, Copy, PartialEq, Eq, Structural)]
pub enum QuoteSendAction {
    /// A draft is published (becomes pending), then sent.
    Publish,
    /// A pending quote is sent again as it is.
    Resend,
}

/// The error text for sending a quote in `status`, where it cannot be sent.
pub open spec fn send_refusal_text(status: QuoteStatus) -> Seq<char> {
    match status {
        QuoteStatus::Cancelled => "Cannot send a cancelled quote"@,
        QuoteStatus::Accepted => "Cannot send an already accepted quote"@,
        QuoteStatus::Declined => "Cannot send a declined quote"@,
        QuoteStatus::Expired => "Cannot send an expired quote"@,
        _ => Seq::empty(),
    }
}

/// The error text for cancelling a quote in `status`, where it cannot be
/// cancelled.
pub open spec fn cancel_refusal_text(status: QuoteStatus) -> Seq<char> {
    match status {
        QuoteStatus::Cancelled => "Quote is already cancelled"@,
        QuoteStatus::Accepted => "Cannot cancel an accepted quote"@,
        QuoteStatus::Declined => "Cannot cancel a declined quote"@,
        QuoteStatus::Expired => "Cannot cancel an expired quote"@,
        _ => Seq::empty(),
    }
}

/// Only draft and pending quotes are still open.
pub open spec fn is_open(status: QuoteStatus) -> bool {
    status is Draft || status is Pending
}

/// Decides what sending a quote does: a draft is published then sent, a
/// pending quote is sent again, any other quote is refused.
pub fn quote_send_action(status: QuoteStatus) -> (r: Result<QuoteSendAction, StoreError>)
    ensures
        status is Draft ==> r == Ok::<QuoteSendAction, StoreError>(QuoteSendAction::Publish),
        status is Pending ==> r == Ok::<QuoteSendAction, StoreError>(QuoteSendAction::Resend),
        !is_open(status) ==> (r matches Err(StoreError::InvalidArgument(m)) && m@ == send_refusal_text(status)),
{
    match status {
        QuoteStatus::Draft => Ok(QuoteSendAction::Publish),
        QuoteStatus::Pending => Ok(QuoteSendAction::Resend),
        QuoteStatus::Cancelled => Err(StoreError::InvalidArgument("Cannot send a cancelled quote".to_owned())),
        QuoteStatus::Accepted => Err(StoreError::InvalidArgument("Cannot send an already accepted quote".to_owned())),
        QuoteStatus::Declined => Err(StoreError::InvalidArgument("Cannot send a declined quote".to_owned())),
        QuoteStatus::Expired => Err(StoreError::InvalidArgument("Cannot send an expired quote".to_owned())),
    }
}

/// Checks that a quote may be cancelled: only a draft or pending quote.
pub fn check_quote_cancellable(status: QuoteStatus) -> (r: Result<(), StoreError>)
    ensures
        is_open(status) ==> r is Ok,
        !is_open(status) ==> (r matches Err(StoreError::InvalidArgument(m)) && m@ == cancel_refusal_text(status)),
{
    match status {
        QuoteStatus::Draft | QuoteStatus::Pending => Ok(()),
        QuoteStatus::Cancelled => Err(StoreError::InvalidArgument("Quote is already cancelled".to_owned())),
        QuoteStatus::Accepted => Err(StoreError::InvalidArgument("Cannot cancel an accepted quote".to_owned())),
        QuoteStatus::Declined => Err(StoreError::InvalidArgument("Cannot cancel a declined quote".to_owned())),
        QuoteStatus::Expired => Err(StoreError::InvalidArgument("Cannot cancel an expired quote".to_owned())),
    }
}

/// Checks that a quote to send has recipients.
pub fn check_quote_recipients(recipient_count: usize) -> (r: Result<(), StoreError>)
    ensures
        recipient_count == 0 ==> (r matches Err(StoreError::InvalidArgument(m)) && m@ == "Quote has no recipients configured"@),
        recipient_count > 0 ==> r is Ok,
{
    if recipient_count == 0 {
        Err(StoreError::InvalidArgument("Quote has no recipients configured".to_owned()))
    } else {
        Ok(())
    }
}

/// The portal link a recipient opens a quote with.
pub open spec fn quote_portal_url_text(public_url: Seq<char>, token: Seq<char>) -> Seq<char> {
    public_url + "/portal/quote?token="@ + token
}

/// Builds `{public_url}/portal/quote?token={token}`.
pub fn quote_portal_url(public_url: &str, token: &str) -> (u: String)
    ensures
        u@ == quote_portal_url_text(public_url@, token@),
{
    let mut u = public_url.to_owned();
    u.append("/portal/quote?token=");
    u.append(token);
    u
}

/// The "quote ready" email to one recipient.
#[derive(Debug)]
pub struct QuoteReadyEmail {
    pub recipient_email: String,
    pub portal_url: String,
    pub quote_number: String,
    pub company_name: String,
    pub currency: String,
    pub expires_on: Option<Date>,
    pub custom_message: Option<String>,
}

/// `a` and `b` hold the same text, or both hold none.
pub open spec fn same_text_opt(a: Option<String>, b: Option<String>) -> bool {
    match (a, b) {
        (Some(x), Some(y)) => x@ == y@,
        (None, None) => true,
        _ => false,
    }
}

/// The email to one recipient, given the portal token issued for them.
pub open spec fn is_quote_ready_email(
    e: QuoteReadyEmail,
    recipient: Seq<char>,
    token: Seq<char>,
    public_url: Seq<char>,
    quote_number: Seq<char>,
    company_name: Seq<char>,
    currency: Seq<char>,
    expires_on: Option<Date>,
    custom_message: Option<String>,
) -> bool {
    &&& e.recipient_email@ == recipient
    &&& e.portal_url@ == quote_portal_url_text(public_url, token)
    &&& e.quote_number@ == quote_number
    &&& e.company_name@ == company_name
    &&& e.currency@ == currency
    &&& e.expires_on == expires_on
    &&& same_text_opt(e.custom_message, custom_message)
}

/// Copies an optional text.
fn copy_text_opt(m: &Option<String>) -> (r: Option<String>)
    ensures
        same_text_opt(r, *m),
{
    match m {
        Some(t) => Some(t.clone()),
        None => None,
    }
}

/// One email per recipient, in the order of the recipients, each with the
/// portal link of the token issued for that recipient (`tokens[i]` for
/// `recipients[i]`) and the quote's number, seller, currency, expiry and
/// the sender's message.
pub fn quote_ready_emails(
    recipients: &Vec<String>,
    tokens: &Vec<String>,
    public_url: &str,
    quote_number: &str,
    company_name: &str,
    currency: &str,
    expires_on: Option<Date>,
    custom_message: &Option<String>,
) -> (r: Vec<QuoteReadyEmail>)
    requires
        tokens@.len() == recipients@.len(),
    ensures
        r@.len() == recipients@.len(),
        forall|i: int| 0 <= i < r@.len() ==> is_quote_ready_email(
            #[trigger] r@[i], recipients@[i]@, tokens@[i]@, public_url@, quote_number@, company_name@,
            currency@, expires_on, *custom_message),
{
    let mut out: Vec<QuoteReadyEmail> = Vec::new();
    let mut i: usize = 0;
    while i < recipients.len()
        invariant
            tokens@.len() == recipients@.len(),
            i <= recipients@.len(),
            out@.len() == i,
            forall|k: int| 0 <= k < i ==> is_quote_ready_email(
                #[trigger] out@[k], recipients@[k]@, tokens@[k]@, public_url@, quote_number@, company_name@,
                currency@, expires_on, *custom_message),
        decreases recipients@.len() - i,
    {
        let e = QuoteReadyEmail {
            recipient_email: recipients[i].clone(),
            portal_url: quote_portal_url(public_url, tokens[i].as_str()),
            quote_number: quote_number.to_owned(),
            company_name: company_name.to_owned(),
            currency: currency.to_owned(),
            expires_on,
            custom_message: copy_text_opt(custom_message),
        };
        out.push(e);
        i = i + 1;
    }
    out
}

} // verus!
