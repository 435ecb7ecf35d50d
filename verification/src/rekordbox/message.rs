//! The UDP messages that this application announces itself and links to
//! players with.
//!
//! Each message is the DJ Link magic, a kind byte (or two), the application
//! name, and kind-specific fields.

use vstd::prelude::*;
use crate::rekordbox::{SOFTWARE_IDENTIFICATION, APPLICATION_NAME};
use crate::utils::network::{PioneerNetwork, Ipv4, MacAddr};
use crate::wire::zeros;

verus! {

pub type RekordboxMessageType = Vec<u8>;

pub open spec fn magic() -> Seq<u8> {
    seq![0x51u8, 0x73, 0x70, 0x74, 0x31, 0x57, 0x6d, 0x4a, 0x4f, 0x4c]
}

/// The application name, NUL padded to 20 bytes.
pub open spec fn app_name() -> Seq<u8> {
    seq![0x4cu8, 0x69, 0x6e, 0x75, 0x78] + zeros(15)
}

pub open spec fn mac_bytes(m: MacAddr) -> Seq<u8> {
    m.spec_octets()
}

pub open spec fn ip_bytes(ip: Ipv4) -> Seq<u8> {
    ip.spec_octets()
}

/// The application's announcement on a network.
pub open spec fn application_broadcast_parts(n: PioneerNetwork) -> Seq<Seq<u8>> {
    seq![
        magic(),
        seq![0x06u8, 0x00],
        app_name(),
        seq![0x01u8, 0x03, 0x00, 0x36, 0x11, 0x01],
        mac_bytes(n.mac),
        ip_bytes(n.network.spec_ip()),
        seq![0x01u8, 0x01, 0x00, 0x00, 0x04, 0x08],
    ]
}

/// The first stage of discovery, step `sequence`.
pub open spec fn discovery_initial_parts(n: PioneerNetwork, sequence: u8) -> Seq<Seq<u8>> {
    seq![
        magic(),
        seq![0x00u8, 0x00],
        app_name(),
        seq![0x01u8, 0x03, 0x00, 0x2c, sequence, 0x04],
        mac_bytes(n.mac),
    ]
}

/// The byte that names the slot `index` in a discovery sequence message.
pub open spec fn sequence_byte(index: i32) -> u8 {
    if index == 1 {
        0x11
    } else if index == 2 {
        0x12
    } else if index == 3 {
        0x29
    } else if index == 4 {
        0x2a
    } else if index == 5 {
        0x2b
    } else {
        0x2c
    }
}

/// The second stage of discovery, step `sequence`, slot `index`.
pub open spec fn discovery_sequence_parts(n: PioneerNetwork, sequence: u8, index: i32) -> Seq<Seq<u8>> {
    seq![
        magic(),
        seq![0x02u8, 0x00],
        app_name(),
        seq![0x01u8, 0x03, 0x00, 0x32],
        ip_bytes(n.network.spec_ip()),
        mac_bytes(n.mac),
        seq![sequence_byte(index), sequence],
        seq![0x04u8, 0x01],
    ]
}

pub open spec fn link_request_parts() -> Seq<Seq<u8>> {
    seq![magic(), seq![0x16u8], app_name(), seq![0x01u8, 0x01, 0x12], zeros(14)]
}

/// The host name part of the RPC state message.
pub open spec fn rpc_state_host() -> Seq<u8> {
    seq![
        0x01u8, 0x04, 0x11, 0x01, 0x00, 0x00, 0x00, 0x4a, 0x00, 0x6f, 0x00, 0x6e, 0x00, 0x61, 0x00,
        0x73, 0x00, 0x73, 0x00, 0x2d, 0x00, 0x4d, 0x00, 0x42, 0x00, 0x50, 0x00, 0x2d, 0x00, 0x32,
    ]
}

pub open spec fn rpc_state_parts() -> Seq<Seq<u8>> {
    seq![magic() + seq![0x11u8] + app_name() + seq![0x01u8, 0x01, 0x11] + rpc_state_host() + zeros(232)]
}

/// Parts laid end to end.
pub open spec fn flatten(parts: Seq<Seq<u8>>) -> Seq<u8>
    decreases parts.len(),
{
    if parts.len() == 0 {
        Seq::empty()
    } else {
        flatten(parts.drop_last()) + parts.last()
    }
}

fn magic_vec() -> (v: Vec<u8>)
    ensures
        v@ == magic(),
{
    let v = vstd::slice::slice_to_vec(&SOFTWARE_IDENTIFICATION);
    assert(v@ =~= magic());
    v
}

fn app_name_vec() -> (v: Vec<u8>)
    ensures
        v@ == app_name(),
{
    let v = vstd::slice::slice_to_vec(&APPLICATION_NAME);
    assert(v@ =~= app_name());
    v
}

fn mac_vec(m: MacAddr) -> (v: Vec<u8>)
    ensures
        v@ == mac_bytes(m),
{
    let o = m.octets();
    vstd::slice::slice_to_vec(&o)
}

fn ip_vec(ip: Ipv4) -> (v: Vec<u8>)
    ensures
        v@ == ip_bytes(ip),
{
    let o = ip.octets();
    vstd::slice::slice_to_vec(&o)
}

fn zeros_vec(n: usize) -> (v: Vec<u8>)
    ensures
        v@ == zeros(n as nat),
{
    let mut v: Vec<u8> = Vec::new();
    crate::wire::push_zeros(&mut v, n);
    assert(v@ =~= zeros(n as nat));
    v
}

/// Lays the parts end to end.
pub fn flatten_parts(parts: Vec<Vec<u8>>) -> (v: Vec<u8>)
    ensures
        v@ == flatten(parts@.map_values(|p: Vec<u8>| p@)),
{
    let ghost views = parts@.map_values(|p: Vec<u8>| p@);
    let mut out: Vec<u8> = Vec::new();
    let mut i: usize = 0;
    while i < parts.len()
        invariant
            i <= parts@.len(),
            views == parts@.map_values(|p: Vec<u8>| p@),
            out@ == flatten(views.take(i as int)),
        decreases parts@.len() - i,
    {
        crate::wire::push_slice(&mut out, parts[i].as_slice());
        proof {
            assert(views.take(i + 1).drop_last() =~= views.take(i as int));
        }
        i = i + 1;
    }
    assert(views.take(i as int) =~= views);
    out
}

fn part(items: &[u8]) -> (v: Vec<u8>)
    ensures
        v@ == items@,
{
    vstd::slice::slice_to_vec(items)
}

#[derive(Debug, PartialEq)]
pub struct ApplicationBroadcast<'a> {
    network: &'a PioneerNetwork,
}

impl<'a> ApplicationBroadcast<'a> {
    pub fn new(network: &'a PioneerNetwork) -> (m: Self)
        ensures
            *m.spec_network() == *network,
    {
        Self { network }
    }

    pub closed spec fn spec_network(&self) -> &'a PioneerNetwork {
        self.network
    }

    pub fn compose(&self) -> (v: Vec<RekordboxMessageType>)
        ensures
            v@.map_values(|p: Vec<u8>| p@) == application_broadcast_parts(*self.spec_network()),
    {
        let n = self.network;
        let mut v: Vec<Vec<u8>> = Vec::new();
        v.push(magic_vec());
        v.push(part(&[0x06, 0x00]));
        v.push(app_name_vec());
        v.push(part(&[0x01, 0x03, 0x00, 0x36, 0x11, 0x01]));
        v.push(mac_vec(n.mac_address()));
        v.push(ip_vec(n.ip()));
        v.push(part(&[0x01, 0x01, 0x00, 0x00, 0x04, 0x08]));
        assert(v@.map_values(|p: Vec<u8>| p@) =~= application_broadcast_parts(*n));
        v
    }

    /// The message's bytes.
    pub fn into_message(self) -> (v: RekordboxMessageType)
        ensures
            v@ == flatten(application_broadcast_parts(*self.spec_network())),
    {
        flatten_parts(self.compose())
    }
}

pub struct DiscoveryInitial<'a> {
    network: &'a PioneerNetwork,
    sequence: u8,
}

impl<'a> DiscoveryInitial<'a> {
    pub fn new(network: &'a PioneerNetwork, sequence: u8) -> (m: Self)
        ensures
            *m.spec_network() == *network,
            m.spec_sequence() == sequence,
    {
        Self { network, sequence }
    }

    pub closed spec fn spec_network(&self) -> &'a PioneerNetwork {
        self.network
    }

    pub closed spec fn spec_sequence(&self) -> u8 {
        self.sequence
    }

    pub fn compose(&self) -> (v: Vec<RekordboxMessageType>)
        ensures
            v@.map_values(|p: Vec<u8>| p@) == discovery_initial_parts(
                *self.spec_network(),
                self.spec_sequence(),
            ),
    {
        let n = self.network;
        let mut v: Vec<Vec<u8>> = Vec::new();
        v.push(magic_vec());
        v.push(part(&[0x00, 0x00]));
        v.push(app_name_vec());
        v.push(part(&[0x01, 0x03, 0x00, 0x2c, self.sequence, 0x04]));
        v.push(mac_vec(n.mac_address()));
        assert(v@.map_values(|p: Vec<u8>| p@) =~= discovery_initial_parts(*n, self.sequence));
        v
    }

    pub fn into_message(self) -> (v: RekordboxMessageType)
        ensures
            v@ == flatten(discovery_initial_parts(*self.spec_network(), self.spec_sequence())),
    {
        flatten_parts(self.compose())
    }
}

pub struct DiscoverySequence<'a> {
    network: &'a PioneerNetwork,
    sequence: u8,
    index: i32,
}

impl<'a> DiscoverySequence<'a> {
    pub fn new(network: &'a PioneerNetwork, sequence: u8, index: i32) -> (m: Self)
        ensures
            *m.spec_network() == *network,
            m.spec_sequence() == sequence,
            m.spec_index() == index,
    {
        Self { network, sequence, index }
    }

    pub closed spec fn spec_network(&self) -> &'a PioneerNetwork {
        self.network
    }

    pub closed spec fn spec_sequence(&self) -> u8 {
        self.sequence
    }

    pub closed spec fn spec_index(&self) -> i32 {
        self.index
    }

    fn map_sequence_byte(&self) -> (b: u8)
        ensures
            b == sequence_byte(self.index),
    {
        if self.index == 1 {
            0x11
        } else if self.index == 2 {
            0x12
        } else if self.index == 3 {
            0x29
        } else if self.index == 4 {
            0x2a
        } else if self.index == 5 {
            0x2b
        } else {
            0x2c
        }
    }

    pub fn compose(&self) -> (v: Vec<RekordboxMessageType>)
        ensures
            v@.map_values(|p: Vec<u8>| p@) == discovery_sequence_parts(
                *self.spec_network(),
                self.spec_sequence(),
                self.spec_index(),
            ),
    {
        let n = self.network;
        let mut v: Vec<Vec<u8>> = Vec::new();
        v.push(magic_vec());
        v.push(part(&[0x02, 0x00]));
        v.push(app_name_vec());
        v.push(part(&[0x01, 0x03, 0x00, 0x32]));
        v.push(ip_vec(n.ip()));
        v.push(mac_vec(n.mac_address()));
        v.push(part(&[self.map_sequence_byte(), self.sequence]));
        v.push(part(&[0x04, 0x01]));
        assert(v@.map_values(|p: Vec<u8>| p@) =~= discovery_sequence_parts(
            *n,
            self.sequence,
            self.index,
        ));
        v
    }

    pub fn into_message(self) -> (v: RekordboxMessageType)
        ensures
            v@ == flatten(
                discovery_sequence_parts(*self.spec_network(), self.spec_sequence(), self.spec_index()),
            ),
    {
        flatten_parts(self.compose())
    }
}

pub struct ApplicationLinkRequest;

impl ApplicationLinkRequest {
    pub fn new() -> (m: Self) {
        Self {  }
    }

    pub fn compose(&self) -> (v: Vec<RekordboxMessageType>)
        ensures
            v@.map_values(|p: Vec<u8>| p@) == link_request_parts(),
    {
        let mut v: Vec<Vec<u8>> = Vec::new();
        v.push(magic_vec());
        v.push(part(&[0x16]));
        v.push(app_name_vec());
        v.push(part(&[0x01, 0x01, 0x12]));
        v.push(zeros_vec(14));
        let ghost views = v@.map_values(|p: Vec<u8>| p@);
        assert(views[1] =~= seq![0x16u8]);
        assert(views[4] =~= zeros(14));
        assert(views =~= link_request_parts());
        v
    }

    pub fn into_message(self) -> (v: RekordboxMessageType)
        ensures
            v@ == flatten(link_request_parts()),
    {
        flatten_parts(self.compose())
    }
}

pub struct InitiateRPCState;

impl InitiateRPCState {
    pub fn new() -> (m: Self) {
        Self {  }
    }

    pub fn compose(&self) -> (v: Vec<RekordboxMessageType>)
        ensures
            v@.map_values(|p: Vec<u8>| p@) == rpc_state_parts(),
    {
        let mut payload: Vec<u8> = Vec::new();
        crate::wire::push_slice(&mut payload, &SOFTWARE_IDENTIFICATION);
        payload.push(0x11);
        crate::wire::push_slice(&mut payload, &APPLICATION_NAME);
        crate::wire::push_slice(&mut payload, &[0x01, 0x01, 0x11]);
        crate::wire::push_slice(
            &mut payload,
            &[
                0x01, 0x04, 0x11, 0x01, 0x00, 0x00, 0x00, 0x4a, 0x00, 0x6f, 0x00, 0x6e, 0x00, 0x61,
                0x00, 0x73, 0x00, 0x73, 0x00, 0x2d, 0x00, 0x4d, 0x00, 0x42, 0x00, 0x50, 0x00, 0x2d,
                0x00, 0x32,
            ],
        );
        crate::wire::push_zeros(&mut payload, 232);
        assert(payload@ =~= rpc_state_parts()[0]);
        let mut v: Vec<Vec<u8>> = Vec::new();
        v.push(payload);
        assert(v@.map_values(|p: Vec<u8>| p@) =~= rpc_state_parts());
        v
    }

    pub fn into_message(self) -> (v: RekordboxMessageType)
        ensures
            v@ == flatten(rpc_state_parts()),
    {
        flatten_parts(self.compose())
    }
}

} // verus!
