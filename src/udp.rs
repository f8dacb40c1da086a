//! The UDP/IP mapping of the protocol: the well-known ports of a domain and
//! its default multicast locator.

use vstd::prelude::*;
use crate::structure::Locator;

verus! {

/// The parameters from which the well-known ports are computed.
#[derive(Clone, Copy, Debug, PartialEq, Eq, Structural)]
pub struct PortNumberParams {
    pub domain_id_gain: u16,
    pub participant_id_gain: u16,
    pub port_base_number: u16,
    pub additional_offset_d0: u16,
    pub additional_offset_d1: u16,
    pub additional_offset_d2: u16,
    pub additional_offset_d3: u16,
}

impl PortNumberParams {
    /// The port for participant discovery over multicast in a domain.
    pub open spec fn spdp_multicast_spec(&self, domain_id: u16) -> int {
        self.port_base_number + self.domain_id_gain * domain_id + self.additional_offset_d0
    }

    /// The port for participant discovery over unicast to one participant.
    pub open spec fn spdp_unicast_spec(&self, domain_id: u16, participant_id: u16) -> int {
        self.port_base_number + self.domain_id_gain * domain_id + self.additional_offset_d1
            + self.participant_id_gain * participant_id
    }

    /// The port for user traffic over multicast in a domain.
    pub open spec fn user_multicast_spec(&self, domain_id: u16) -> int {
        self.port_base_number + self.domain_id_gain * domain_id + self.additional_offset_d2
    }

    /// The port for user traffic over unicast to one participant.
    pub open spec fn user_unicast_spec(&self, domain_id: u16, participant_id: u16) -> int {
        self.port_base_number + self.domain_id_gain * domain_id + self.additional_offset_d3
            + self.participant_id_gain * participant_id
    }

    pub fn spdp_well_known_multicast_port(&self, domain_id: u16) -> (r: u16)
        requires
            self.spdp_multicast_spec(domain_id) <= u16::MAX,
        ensures
            r == self.spdp_multicast_spec(domain_id),
    {
        assert(self.domain_id_gain * domain_id <= u16::MAX) by (nonlinear_arith)
            requires
                self.port_base_number + self.domain_id_gain * domain_id + self.additional_offset_d0
                    <= u16::MAX,
        ;
        self.port_base_number + self.domain_id_gain * domain_id + self.additional_offset_d0
    }

    pub fn spdp_well_known_unicast_port(&self, domain_id: u16, participant_id: u16) -> (r: u16)
        requires
            self.spdp_unicast_spec(domain_id, participant_id) <= u16::MAX,
        ensures
            r == self.spdp_unicast_spec(domain_id, participant_id),
    {
        assert(self.domain_id_gain * domain_id <= u16::MAX && self.participant_id_gain
            * participant_id <= u16::MAX) by (nonlinear_arith)
            requires
                self.port_base_number + self.domain_id_gain * domain_id + self.additional_offset_d1
                    + self.participant_id_gain * participant_id <= u16::MAX,
        ;
        self.port_base_number + self.domain_id_gain * domain_id + self.additional_offset_d1
            + self.participant_id_gain * participant_id
    }

    pub fn user_defined_multicast_port(&self, domain_id: u16) -> (r: u16)
        requires
            self.user_multicast_spec(domain_id) <= u16::MAX,
        ensures
            r == self.user_multicast_spec(domain_id),
    {
        assert(self.domain_id_gain * domain_id <= u16::MAX) by (nonlinear_arith)
            requires
                self.port_base_number + self.domain_id_gain * domain_id + self.additional_offset_d2
                    <= u16::MAX,
        ;
        self.port_base_number + self.domain_id_gain * domain_id + self.additional_offset_d2
    }

    pub fn user_defined_unicast_port(&self, domain_id: u16, participant_id: u16) -> (r: u16)
        requires
            self.user_unicast_spec(domain_id, participant_id) <= u16::MAX,
        ensures
            r == self.user_unicast_spec(domain_id, participant_id),
    {
        assert(self.domain_id_gain * domain_id <= u16::MAX && self.participant_id_gain
            * participant_id <= u16::MAX) by (nonlinear_arith)
            requires
                self.port_base_number + self.domain_id_gain * domain_id + self.additional_offset_d3
                    + self.participant_id_gain * participant_id <= u16::MAX,
        ;
        self.port_base_number + self.domain_id_gain * domain_id + self.additional_offset_d3
            + self.participant_id_gain * participant_id
    }
}

impl Default for PortNumberParams {
    /// The parameters that the UDP mapping fixes.
    fn default() -> (r: Self)
        ensures
            r == (PortNumberParams {
                domain_id_gain: 250,
                participant_id_gain: 2,
                port_base_number: 7400,
                additional_offset_d0: 0,
                additional_offset_d1: 10,
                additional_offset_d2: 1,
                additional_offset_d3: 11,
            }),
    {
        Self {
            domain_id_gain: 250,
            participant_id_gain: 2,
            port_base_number: 7400,
            additional_offset_d0: 0,
            additional_offset_d1: 10,
            additional_offset_d2: 1,
            additional_offset_d3: 11,
        }
    }
}

/// The multicast locator on which a domain's participants announce
/// themselves: 239.255.0.1 at the discovery multicast port, computed with
/// `params`, or with the default parameters where none are given.
pub fn default_multicast_locator(domain_id: u16, params: Option<PortNumberParams>) -> (r: Locator)
    requires
        params matches Some(p) ==> p.spdp_multicast_spec(domain_id) <= u16::MAX,
        params.is_none() ==> 7400 + 250 * domain_id <= u16::MAX,
    ensures
        r == Locator::udp_v4_spec(
            [239, 255, 0, 1],
            match params {
                Some(p) => p.spdp_multicast_spec(domain_id) as u32,
                None => (7400 + 250 * domain_id) as u32,
            },
        ),
{
    let params = match params {
        Some(p) => p,
        None => PortNumberParams::default(),
    };
    let port = params.spdp_well_known_multicast_port(domain_id);
    Locator::udp_v4([239, 255, 0, 1], port as u32)
}

} // verus!
