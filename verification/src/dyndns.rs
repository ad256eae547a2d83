//! The planning step of the dynamic DNS updater: find the `home` A record
//! and decide whether to edit it or to add one.
use vstd::prelude::*;
use crate::text::same_text;

verus! {

/// What the updater reads of a DNS record: whether it is an A record, and
/// its subdomain.
#[derive(Debug, Clone)]
pub struct DnsRecordInfo {
    pub is_a: bool,
    pub subdomain: String,
}

/// The record the updater looks after: an A record for `home`.
pub open spec fn is_home(r: DnsRecordInfo) -> bool {
    r.is_a && r.subdomain@ == "home"@
}

/// The position of the first `home` A record, if any.
pub fn home_record(records: &[DnsRecordInfo]) -> (res: Option<usize>)
    ensures
        match res {
            Some(i) => i < records@.len() && is_home(records@[i as int]) && forall|j: int|
                0 <= j < i ==> !is_home(#[trigger] records@[j]),
            None => forall|j: int| 0 <= j < records@.len() ==> !is_home(#[trigger] records@[j]),
        },
{
    let mut i: usize = 0;
    while i < records.len()
        invariant
            i <= records@.len(),
            forall|j: int| 0 <= j < i ==> !is_home(#[trigger] records@[j]),
        decreases records.len() - i,
    {
        if records[i].is_a && same_text(records[i].subdomain.as_str(), "home") {
            return Some(i);
        }
        i += 1;
    }
    None
}

/// The address to publish: the one given on the command line, else the
/// one detected.
pub fn chosen_address(given: Option<String>, detected: Option<String>) -> (res: Option<String>)
    ensures
        res == (match given {
            Some(a) => Some(a),
            None => detected,
        }),
{
    match given {
        Some(a) => Some(a),
        None => detected,
    }
}

/// What to send to the DNS service.
#[derive(Debug, Clone)]
pub enum DnsPlan {
    /// Point the record at this position of the listing to `content`.
    EditRecord { index: usize, content: String },
    /// Add an A record for `subdomain` with `content`.
    AddRecord { subdomain: String, content: String },
}

/// Why no plan could be made.
#[derive(Debug, Clone, Copy, PartialEq, Eq, Structural)]
pub enum DnsPlanError {
    /// There is a record to update but no address to put in it.
    NoAddress,
}

/// Position `i` holds the first `home` A record.
pub open spec fn is_first_home(records: Seq<DnsRecordInfo>, i: int) -> bool {
    0 <= i < records.len() && is_home(records[i]) && forall|j: int|
        0 <= j < i ==> !is_home(#[trigger] records[j])
}

/// Plans the update: the first `home` A record is pointed to `address`
/// (which must then be known); without such a record, a `home` A record
/// with the placeholder content `127.0.0.1` is added.
pub fn plan_home_update(records: &[DnsRecordInfo], address: Option<String>) -> (res: Result<DnsPlan, DnsPlanError>)
    ensures
        match res {
            Ok(DnsPlan::EditRecord { index, content }) => is_first_home(records@, index as int)
                && address == Some(content),
            Ok(DnsPlan::AddRecord { subdomain, content }) => (forall|j: int|
                0 <= j < records@.len() ==> !is_home(#[trigger] records@[j])) && subdomain@ == "home"@
                && content@ == "127.0.0.1"@,
            Err(DnsPlanError::NoAddress) => (exists|i: int| is_first_home(records@, i))
                && address is None,
        },
{
    match home_record(records) {
        Some(i) => {
            assert(is_first_home(records@, i as int));
            match address {
                Some(a) => Ok(DnsPlan::EditRecord { index: i, content: a }),
                None => Err(DnsPlanError::NoAddress),
            }
        },
        None => Ok(DnsPlan::AddRecord { subdomain: "home".to_owned(), content: "127.0.0.1".to_owned() }),
    }
}

} // verus!
