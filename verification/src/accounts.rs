//! Account-side plain data and small pure helpers: the account record (its
//! credential lives in the platform's secure store, reached outside the
//! library), the fetched-header record a transport hands over, and the
//! master-password policy check.

use vstd::prelude::*;
use vstd::string::*;
use crate::text::{chars_to_string, dec_spec, push_dec, str_to_chars};

verus! {

/// One configured mail account.
pub struct Account {
    pub email: String,
    pub imap_host: String,
    pub imap_port: u16,
    pub password: Option<String>,
    pub is_demo: bool,
}

/// One fetched message header, as a transport hands it over.
pub struct EmailHeader {
    pub id: u32,
    pub subject: String,
    pub from: String,
    pub date: String,
}

/// Joins a mailbox name and a host into `mailbox@host`.
pub fn format_address(mailbox: &str, host: &str) -> (r: String)
    ensures
        r@ == mailbox@ + "@"@ + host@,
{
    let mut out: Vec<char> = str_to_chars(mailbox);
    let mut at = str_to_chars("@");
    out.append(&mut at);
    let mut hv = str_to_chars(host);
    out.append(&mut hv);
    chars_to_string(&out)
}

/// Whether a proposed master password meets the minimum length.
pub fn master_password_acceptable(p: &str) -> (r: bool)
    ensures
        r == (p@.len() >= 4),
{
    p.unicode_len() >= 4
}

/// The relative-age label of a mock message: whole minutes under an hour,
/// whole hours under a day, whole days beyond.
pub open spec fn age_label_spec(mins: u64) -> Seq<char> {
    if mins < 60 {
        dec_spec(mins as int) + "m ago"@
    } else if mins < 1440 {
        dec_spec(mins as int / 60) + "h ago"@
    } else {
        dec_spec(mins as int / 1440) + "d ago"@
    }
}

/// Renders the relative-age label for a message `mins` minutes old.
pub fn age_label(mins: u64) -> (r: String)
    ensures
        r@ == age_label_spec(mins),
{
    let mut out: Vec<char> = Vec::new();
    if mins < 60 {
        push_dec(mins, &mut out);
        let mut unit = str_to_chars("m ago");
        out.append(&mut unit);
    } else if mins < 1440 {
        push_dec(mins / 60, &mut out);
        let mut unit = str_to_chars("h ago");
        out.append(&mut unit);
    } else {
        push_dec(mins / 1440, &mut out);
        let mut unit = str_to_chars("d ago");
        out.append(&mut unit);
    }
    proof {
        assert(out@ =~= age_label_spec(mins));
    }
    chars_to_string(&out)
}

} // verus!
