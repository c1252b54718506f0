//! What the mail stores hand over about messages.
use crate::flags::EnvelopeFlag;
use vstd::prelude::*;

verus! {

/// What the minimal envelope store keeps of a message that the flags cache needs.
#[derive(Clone, Copy, Debug, PartialEq, Eq)]
pub struct MinimalEnvelope {
    pub mailbox_id: u64,
    pub uid: u32,
    pub flags_hash: u64,
}

/// What the minimal envelope store has listed for an account.
#[derive(Debug)]
pub struct AccountListing<E> {
    pub account_id: u64,
    pub envelopes: Result<Vec<MinimalEnvelope>, E>,
}

/// A mail address with the name that goes with it.
#[derive(Debug, PartialEq, Eq)]
pub struct Addr {
    pub name: Option<String>,
    pub address: Option<String>,
}

/// What the envelope store keeps of a message that a notice of changed flags needs.
#[derive(Debug)]
pub struct EmailEnvelope {
    pub mailbox_name: String,
    pub flags: Vec<EnvelopeFlag>,
    pub from: Option<Addr>,
    pub to: Option<Vec<Addr>>,
    pub message_id: Option<String>,
    pub subject: Option<String>,
    pub internal_date: Option<i64>,
    pub date: Option<i64>,
}

/// The notice that the flags of a message have changed.
#[derive(Debug)]
pub struct EmailFlagsChanged {
    pub account_id: u64,
    pub account_email: String,
    pub mailbox_name: String,
    pub uid: Option<u32>,
    pub from: Option<Addr>,
    pub to: Option<Vec<Addr>>,
    pub message_id: Option<String>,
    pub subject: Option<String>,
    pub internal_date: Option<i64>,
    pub date: Option<i64>,
    pub flags_added: Vec<String>,
    pub flags_removed: Vec<String>,
    pub mid: Option<String>,
}

} // verus!
