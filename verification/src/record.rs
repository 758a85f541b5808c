//! The record kept for one network device.

use vstd::prelude::*;
use crate::validate::{is_ipv4_text, is_subnet_text};

verus! {

/// One managed device: where it is reached and what it is.
#[derive(Debug, PartialEq, Eq)]
pub struct IpInfo {
    /// The position the record was given when it was added, counted from 1.
    pub id: usize,
    pub ip: String,
    pub subnet: String,
    pub gateway: String,
    pub description: String,
    /// The port that a liveness probe connects to.
    pub port: u16,
}

/// What a record holds, with each text as its sequence of characters.
pub struct Record {
    pub id: usize,
    pub ip: Seq<char>,
    pub subnet: Seq<char>,
    pub gateway: Seq<char>,
    pub description: Seq<char>,
    pub port: u16,
}

impl Record {
    /// The address and the gateway are IPv4 addresses and the subnet is in
    /// CIDR form.
    pub open spec fn is_well_formed(self) -> bool {
        is_ipv4_text(self.ip) && is_subnet_text(self.subnet) && is_ipv4_text(self.gateway)
    }
}

impl View for IpInfo {
    type V = Record;

    open spec fn view(&self) -> Record {
        Record {
            id: self.id,
            ip: self.ip@,
            subnet: self.subnet@,
            gateway: self.gateway@,
            description: self.description@,
            port: self.port,
        }
    }
}

impl DeepView for IpInfo {
    type V = Record;

    open spec fn deep_view(&self) -> Record {
        self@
    }
}

impl Clone for IpInfo {
    fn clone(&self) -> (copy: Self)
        ensures
            copy == *self,
    {
        IpInfo {
            id: self.id,
            ip: self.ip.clone(),
            subnet: self.subnet.clone(),
            gateway: self.gateway.clone(),
            description: self.description.clone(),
            port: self.port,
        }
    }
}

} // verus!
