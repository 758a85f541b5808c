//! The record store and the three operations that change it.
//!
//! The store is the caller's `Vec<IpInfo>`, in insertion order. Every
//! operation takes what the user typed as text, decides whether to accept
//! it, and either changes the store or leaves it exactly as it was.

use vstd::prelude::*;
use crate::numeral::{parse_u16, parse_usize, unsigned_number};
use crate::record::{IpInfo, Record};
use crate::validate::{is_ipv4_text, is_subnet_text, validate_gateway, validate_ip, validate_subnet};

verus! {

/// Why an operation left the store unchanged.
#[derive(Debug, Clone, Copy, PartialEq, Eq, Structural)]
pub enum OpError {
    /// The port is not a number from 0 to 65535.
    InvalidPort,
    /// The id is not a number.
    InvalidId,
    /// No record has this id: it is 0 or larger than the store.
    OutOfRange,
    /// The new address is not an IPv4 address.
    InvalidIp,
    /// The address, the subnet or the gateway of the record is malformed.
    InvalidFields,
}

/// Every record of the store is well formed.
pub open spec fn all_well_formed(records: Seq<Record>) -> bool {
    forall|at: int| 0 <= at < records.len() ==> (#[trigger] records[at]).is_well_formed()
}

/// Every record still stands where it was added: its id is its position,
/// counted from 1.
pub open spec fn numbered_in_order(records: Seq<Record>) -> bool {
    forall|at: int| 0 <= at < records.len() ==> (#[trigger] records[at]).id == at + 1
}

/// The port of a new record, or why the record is rejected. The port is
/// read first; address, subnet and gateway are then checked together.
pub open spec fn accepted(
    ip: Seq<char>,
    subnet: Seq<char>,
    gateway: Seq<char>,
    port: Seq<char>,
) -> Result<u16, OpError> {
    match unsigned_number(port, u16::MAX as nat) {
        None => Err(OpError::InvalidPort),
        Some(p) => if is_ipv4_text(ip) && is_subnet_text(subnet) && is_ipv4_text(gateway) {
            Ok(p as u16)
        } else {
            Err(OpError::InvalidFields)
        },
    }
}

/// The store with one more record at its end, numbered by its position:
/// the length of the store before, plus one.
pub open spec fn appended(
    records: Seq<Record>,
    ip: Seq<char>,
    subnet: Seq<char>,
    gateway: Seq<char>,
    description: Seq<char>,
    port: u16,
) -> Seq<Record> {
    records.push(
        Record { id: (records.len() + 1) as usize, ip, subnet, gateway, description, port },
    )
}

/// The position in a store of `len` records that the id names, or why it
/// names none. Ids count from 1.
pub open spec fn position(len: nat, id: Seq<char>) -> Result<int, OpError> {
    match unsigned_number(id, usize::MAX as nat) {
        None => Err(OpError::InvalidId),
        Some(n) => if n == 0 || n > len {
            Err(OpError::OutOfRange)
        } else {
            Ok(n - 1)
        },
    }
}

/// `current` if `typed` is empty, else `typed`.
pub open spec fn replaced(current: Seq<char>, typed: Seq<char>) -> Seq<char> {
    if typed.len() == 0 {
        current
    } else {
        typed
    }
}

/// The record after an edit, or why the edit is rejected. An empty text
/// keeps the field. A new address must be valid; a new port must be a port
/// number; the subnet and the gateway of the result must be valid, whether
/// they are new or not. The id never changes.
pub open spec fn revised(
    record: Record,
    ip: Seq<char>,
    subnet: Seq<char>,
    gateway: Seq<char>,
    description: Seq<char>,
    port: Seq<char>,
) -> Result<Record, OpError> {
    if ip.len() > 0 && !is_ipv4_text(ip) {
        Err(OpError::InvalidIp)
    } else if port.len() > 0 && unsigned_number(port, u16::MAX as nat) is None {
        Err(OpError::InvalidPort)
    } else if !is_subnet_text(replaced(record.subnet, subnet)) || !is_ipv4_text(
        replaced(record.gateway, gateway),
    ) {
        Err(OpError::InvalidFields)
    } else {
        Ok(
            Record {
                id: record.id,
                ip: replaced(record.ip, ip),
                subnet: replaced(record.subnet, subnet),
                gateway: replaced(record.gateway, gateway),
                description: replaced(record.description, description),
                port: if port.len() == 0 {
                    record.port
                } else {
                    unsigned_number(port, u16::MAX as nat)->0 as u16
                },
            },
        )
    }
}

/// The store after an edit of the record that the id names, or why the edit
/// is rejected: the id must name a record, and the record must take the
/// texts.
pub open spec fn edited(
    records: Seq<Record>,
    id: Seq<char>,
    ip: Seq<char>,
    subnet: Seq<char>,
    gateway: Seq<char>,
    description: Seq<char>,
    port: Seq<char>,
) -> Result<Seq<Record>, OpError> {
    match position(records.len(), id) {
        Err(e) => Err(e),
        Ok(at) => match revised(records[at], ip, subnet, gateway, description, port) {
            Err(e) => Err(e),
            Ok(record) => Ok(records.update(at, record)),
        },
    }
}

/// Appends a record made of the given fields, with the store's length plus
/// one as its id, if the port is a port number and address, subnet and
/// gateway are well formed. Otherwise the store stays as it is.
///
/// The id is not looked up among the ids in use: after a deletion a new
/// record can get an id that another record already has.
pub fn add_ip(
    ip_info: &mut Vec<IpInfo>,
    ip: String,
    subnet: String,
    gateway: String,
    description: String,
    port: &str,
) -> (outcome: Result<(), OpError>)
    requires
        old(ip_info).len() < usize::MAX,
    ensures
        match accepted(ip@, subnet@, gateway@, port@) {
            Ok(p) => outcome is Ok && final(ip_info).deep_view() == appended(
                old(ip_info).deep_view(),
                ip@,
                subnet@,
                gateway@,
                description@,
                p,
            ),
            Err(e) => outcome == Err::<(), OpError>(e),
        },
        outcome is Err ==> final(ip_info)@ == old(ip_info)@,
        outcome is Ok ==> is_ipv4_text(ip@) && is_subnet_text(subnet@) && is_ipv4_text(gateway@),
        all_well_formed(old(ip_info).deep_view()) ==> all_well_formed(final(ip_info).deep_view()),
        numbered_in_order(old(ip_info).deep_view()) ==> numbered_in_order(
            final(ip_info).deep_view(),
        ),
{
    let port: u16 = match parse_u16(port) {
        Some(p) => p,
        None => {
            return Err(OpError::InvalidPort);
        },
    };
    if validate_ip(ip.as_str()) && validate_subnet(subnet.as_str()) && validate_gateway(
        gateway.as_str(),
    ) {
        let new_ip = IpInfo { id: ip_info.len() + 1, ip, subnet, gateway, description, port };
        ip_info.push(new_ip);
        proof {
            assert(final(ip_info).deep_view() =~= appended(
                old(ip_info).deep_view(),
                ip@,
                subnet@,
                gateway@,
                description@,
                port,
            ));
        }
        Ok(())
    } else {
        Err(OpError::InvalidFields)
    }
}

/// Finds the record that an id names: the id, less one, is its position.
pub fn locate(ip_info: &Vec<IpInfo>, id: &str) -> (found: Result<usize, OpError>)
    ensures
        match position(ip_info@.len(), id@) {
            Ok(at) => found == Ok::<usize, OpError>(at as usize) && at < ip_info@.len(),
            Err(e) => found == Err::<usize, OpError>(e),
        },
{
    match parse_usize(id) {
        None => Err(OpError::InvalidId),
        Some(n) => if n == 0 || n > ip_info.len() {
            Err(OpError::OutOfRange)
        } else {
            Ok(n - 1)
        },
    }
}

/// Removes the record that the id names; the records behind it move up and
/// keep their ids. An id that names no record leaves the store as it is.
pub fn delete_ip(ip_info: &mut Vec<IpInfo>, id: &str) -> (outcome: Result<(), OpError>)
    ensures
        match position(old(ip_info)@.len(), id@) {
            Ok(at) => {
                &&& outcome is Ok
                &&& final(ip_info)@ == old(ip_info)@.remove(at)
                &&& final(ip_info).deep_view() == old(ip_info).deep_view().remove(at)
            },
            Err(e) => outcome == Err::<(), OpError>(e),
        },
        outcome is Err ==> final(ip_info)@ == old(ip_info)@,
        all_well_formed(old(ip_info).deep_view()) ==> all_well_formed(final(ip_info).deep_view()),
{
    match locate(ip_info, id) {
        Ok(at) => {
            ip_info.remove(at);
            proof {
                let before = old(ip_info).deep_view();
                let after = final(ip_info).deep_view();
                assert(after =~= before.remove(at as int));
            }
            Ok(())
        },
        Err(e) => Err(e),
    }
}

/// Replaces the fields of the record that the id names by the texts that
/// are not empty, if the record that results is acceptable. Otherwise the
/// store stays as it is: no field of any record changes.
pub fn edit_ip(
    ip_info: &mut Vec<IpInfo>,
    id: &str,
    ip: String,
    subnet: String,
    gateway: String,
    description: String,
    port: &str,
) -> (outcome: Result<(), OpError>)
    ensures
        match edited(old(ip_info).deep_view(), id@, ip@, subnet@, gateway@, description@, port@) {
            Ok(records) => outcome is Ok && final(ip_info).deep_view() == records,
            Err(e) => outcome == Err::<(), OpError>(e),
        },
        outcome is Err ==> final(ip_info)@ == old(ip_info)@,
        gateway@.len() > 0 && !is_ipv4_text(gateway@) ==> outcome is Err,
        all_well_formed(old(ip_info).deep_view()) ==> all_well_formed(final(ip_info).deep_view()),
{
    let at: usize = match locate(ip_info, id) {
        Ok(at) => at,
        Err(e) => {
            return Err(e);
        },
    };
    let mut updated = ip_info[at].clone();
    if !ip.as_str().is_empty() {
        if validate_ip(ip.as_str()) {
            updated.ip = ip;
        } else {
            return Err(OpError::InvalidIp);
        }
    }
    if !subnet.as_str().is_empty() {
        updated.subnet = subnet;
    }
    if !gateway.as_str().is_empty() {
        updated.gateway = gateway;
    }
    if !description.as_str().is_empty() {
        updated.description = description;
    }
    if !port.is_empty() {
        match parse_u16(port) {
            Some(p) => {
                updated.port = p;
            },
            None => {
                return Err(OpError::InvalidPort);
            },
        }
    }
    if validate_subnet(updated.subnet.as_str()) && validate_gateway(updated.gateway.as_str()) {
        let ghost record = updated@;
        ip_info.set(at, updated);
        proof {
            let before = old(ip_info).deep_view();
            assert(before[at as int] == old(ip_info)@[at as int]@);
            assert(final(ip_info).deep_view() =~= before.update(at as int, record));
            assert(all_well_formed(before) ==> before[at as int].is_well_formed());
        }
        Ok(())
    } else {
        Err(OpError::InvalidFields)
    }
}

/// In a store whose records still stand where they were added, no two
/// records share an id.
pub proof fn lemma_ids_in_order_are_unique(records: Seq<Record>)
    requires
        numbered_in_order(records),
    ensures
        forall|a: int, b: int|
            0 <= a < records.len() && 0 <= b < records.len() && a != b ==> (#[trigger] records[a]).id
                != (#[trigger] records[b]).id,
{
}

} // verus!
