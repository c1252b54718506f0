//! What the library reads of an account.
use vstd::prelude::*;

verus! {

/// The protocol over which an account is synchronized.
#[derive(Clone, Copy, Debug, PartialEq, Eq, Structural)]
pub enum MailerType {
    ImapSmtp,
    GmailApi,
    GraphApi,
}

/// How an account logs in to its IMAP server.
#[derive(Clone, Copy, Debug, PartialEq, Eq, Structural)]
pub enum AuthType {
    Password,
    OAuth2,
}

/// An account as the account store hands it out.
#[derive(Debug)]
pub struct AccountModel {
    pub id: u64,
    pub email: String,
    pub enabled: bool,
    /// Whether only minimal envelopes are kept for the account.
    pub minimal_sync: bool,
    pub mailer_type: MailerType,
    /// The login of the IMAP settings; every account of type `ImapSmtp` has them.
    pub imap_auth: Option<AuthType>,
}

} // verus!
