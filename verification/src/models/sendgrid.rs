//! A mail as the mail service takes it.

use vstd::prelude::*;

verus! {

/// A part of the body of a mail.
#[derive(Debug)]
pub struct Content {
    pub content_type: String,
    pub value: String,
}

/// A mail address with the name to show.
#[derive(Debug)]
pub struct Address {
    pub email: String,
    pub name: String,
}

/// The receivers of a mail.
#[derive(Debug)]
pub struct Personalizations {
    pub to: Vec<Address>,
}

/// A mail.
#[derive(Debug)]
pub struct Email {
    pub personalizations: Vec<Personalizations>,
    pub from: Address,
    pub subject: String,
    pub content: Vec<Content>,
}

} // verus!
