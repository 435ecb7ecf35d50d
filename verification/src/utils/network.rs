//! IPv4 addresses, hardware addresses, and the network that the DJ Link
//! devices were found on.

use vstd::prelude::*;

verus! {

/// An IPv4 address as its four octets.
#[derive(Debug, PartialEq, Eq, Structural, Clone, Copy)]
pub struct Ipv4 {
    pub a: u8,
    pub b: u8,
    pub c: u8,
    pub d: u8,
}

impl Ipv4 {
    pub fn new(a: u8, b: u8, c: u8, d: u8) -> (ip: Ipv4)
        ensures
            ip == (Ipv4 { a, b, c, d }),
    {
        Ipv4 { a, b, c, d }
    }

    pub open spec fn spec_octets(&self) -> Seq<u8> {
        seq![self.a, self.b, self.c, self.d]
    }

    /// The address as a 32-bit number (first octet most significant).
    pub open spec fn spec_to_u32(&self) -> u32 {
        crate::wire::be32_value(self.a, self.b, self.c, self.d)
    }

    pub fn octets(&self) -> (o: [u8; 4])
        ensures
            o@ == self.spec_octets(),
    {
        let o = [self.a, self.b, self.c, self.d];
        assert(o@ =~= self.spec_octets());
        o
    }

    pub fn to_u32(&self) -> (v: u32)
        ensures
            v == self.spec_to_u32(),
    {
        (self.a as u32) * 0x100_0000 + (self.b as u32) * 0x1_0000 + (self.c as u32) * 0x100
            + (self.d as u32)
    }

    /// The address whose number is `v`.
    pub open spec fn from_u32_spec(v: u32) -> Ipv4 {
        Ipv4 {
            a: (v / 0x100_0000) as u8,
            b: ((v / 0x1_0000) % 256) as u8,
            c: ((v / 0x100) % 256) as u8,
            d: (v % 256) as u8,
        }
    }

    pub fn from_u32(v: u32) -> (ip: Ipv4)
        ensures
            ip.spec_octets() == crate::wire::be32(v),
            ip.spec_to_u32() == v,
            ip == Ipv4::from_u32_spec(v),
    {
        proof {
            crate::wire::lemma_be32_roundtrip(v);
        }
        Ipv4 {
            a: (v / 0x100_0000) as u8,
            b: ((v / 0x1_0000) % 256) as u8,
            c: ((v / 0x100) % 256) as u8,
            d: (v % 256) as u8,
        }
    }
}

/// An address is the address of its own number.
pub proof fn lemma_from_u32_spec(ip: Ipv4)
    ensures
        Ipv4::from_u32_spec(ip.spec_to_u32()) == ip,
{
    crate::wire::lemma_be32_from_bytes(ip.a, ip.b, ip.c, ip.d);
    assert(crate::wire::be32(ip.spec_to_u32()) == seq![ip.a, ip.b, ip.c, ip.d]);
    assert(crate::wire::be32(ip.spec_to_u32())[0] == ip.a);
    assert(crate::wire::be32(ip.spec_to_u32())[1] == ip.b);
    assert(crate::wire::be32(ip.spec_to_u32())[2] == ip.c);
    assert(crate::wire::be32(ip.spec_to_u32())[3] == ip.d);
}

/// A hardware (MAC) address as its six octets.
#[derive(Debug, PartialEq, Eq, Structural, Clone, Copy)]
pub struct MacAddr {
    pub a: u8,
    pub b: u8,
    pub c: u8,
    pub d: u8,
    pub e: u8,
    pub f: u8,
}

impl MacAddr {
    pub fn new(a: u8, b: u8, c: u8, d: u8, e: u8, f: u8) -> (m: MacAddr)
        ensures
            m == (MacAddr { a, b, c, d, e, f }),
    {
        MacAddr { a, b, c, d, e, f }
    }

    pub fn from_octets(o: [u8; 6]) -> (m: MacAddr)
        ensures
            m.spec_octets() == o@,
    {
        let m = MacAddr { a: o[0], b: o[1], c: o[2], d: o[3], e: o[4], f: o[5] };
        assert(m.spec_octets() =~= o@);
        m
    }

    pub open spec fn spec_octets(&self) -> Seq<u8> {
        seq![self.a, self.b, self.c, self.d, self.e, self.f]
    }

    pub fn octets(&self) -> (o: [u8; 6])
        ensures
            o@ == self.spec_octets(),
    {
        let o = [self.a, self.b, self.c, self.d, self.e, self.f];
        assert(o@ =~= self.spec_octets());
        o
    }
}

} // verus!

verus! {

/// The netmask of a prefix length: the `prefix` high bits set.
pub open spec fn mask_of(prefix: u8) -> u32 {
    (!(0xffff_ffffu64 >> prefix)) as u32
}

/// An IPv4 network: an address of the network and a prefix length (at most
/// 32).
#[derive(Debug, PartialEq, Eq, Structural, Clone, Copy)]
pub struct Ipv4Network {
    addr: Ipv4,
    prefix: u8,
}

impl Ipv4Network {
    #[verifier::type_invariant]
    spec fn prefix_valid(&self) -> bool {
        self.prefix <= 32
    }

    pub closed spec fn spec_ip(&self) -> Ipv4 {
        self.addr
    }

    pub closed spec fn spec_prefix(&self) -> u8 {
        self.prefix
    }

    /// The network of `addr` with `prefix`; refused when the prefix is longer
    /// than 32 bits.
    pub fn new(addr: Ipv4, prefix: u8) -> (r: Result<Ipv4Network, &'static str>)
        ensures
            prefix <= 32 <==> r is Ok,
            r matches Ok(n) ==> n.spec_ip() == addr && n.spec_prefix() == prefix,
    {
        if prefix > 32 {
            Err("invalid prefix")
        } else {
            Ok(Ipv4Network { addr, prefix })
        }
    }

    pub fn ip(&self) -> (a: Ipv4)
        ensures
            a == self.spec_ip(),
    {
        self.addr
    }

    pub fn prefix(&self) -> (p: u8)
        ensures
            p == self.spec_prefix(),
            p <= 32,
    {
        proof {
            use_type_invariant(self);
        }
        self.prefix
    }

    pub fn mask(&self) -> (m: Ipv4)
        ensures
            m.spec_to_u32() == mask_of(self.spec_prefix()),
    {
        proof {
            use_type_invariant(self);
        }
        let m: u32 = (!(0xffff_ffffu64 >> self.prefix)) as u32;
        Ipv4::from_u32(m)
    }

    /// The highest address of the network.
    pub fn broadcast(&self) -> (b: Ipv4)
        ensures
            b.spec_to_u32() == self.spec_ip().spec_to_u32() | !mask_of(self.spec_prefix()),
    {
        let mask = self.mask().to_u32();
        Ipv4::from_u32(self.addr.to_u32() | !mask)
    }

    /// Whether `ip` lies in this network: it agrees with the network's
    /// address on the masked bits.
    pub fn contains(&self, ip: Ipv4) -> (b: bool)
        ensures
            b == ((ip.spec_to_u32() & mask_of(self.spec_prefix())) == (self.spec_ip().spec_to_u32()
                & mask_of(self.spec_prefix()))),
    {
        let mask = self.mask().to_u32();
        (ip.to_u32() & mask) == (self.addr.to_u32() & mask)
    }
}

/// A network interface: its name, hardware address and IPv4 networks.
#[derive(Debug, Clone)]
pub struct NetworkInterface {
    pub name: String,
    pub mac: Option<MacAddr>,
    pub ips: Vec<Ipv4Network>,
}

/// Whether `n` contains `ip`.
pub open spec fn network_contains(n: Ipv4Network, ip: Ipv4) -> bool {
    (ip.spec_to_u32() & mask_of(n.spec_prefix())) == (n.spec_ip().spec_to_u32() & mask_of(
        n.spec_prefix(),
    ))
}

/// The first network of `nets` that contains `ip`.
pub open spec fn first_containing(nets: Seq<Ipv4Network>, ip: Ipv4) -> Option<Ipv4Network>
    decreases nets.len(),
{
    if nets.len() == 0 {
        None
    } else if network_contains(nets[0], ip) {
        Some(nets[0])
    } else {
        first_containing(nets.drop_first(), ip)
    }
}

/// The networks of the interfaces, interface by interface.
pub open spec fn all_networks(ifaces: Seq<NetworkInterface>) -> Seq<Ipv4Network>
    decreases ifaces.len(),
{
    if ifaces.len() == 0 {
        Seq::empty()
    } else {
        all_networks(ifaces.drop_last()) + ifaces.last().ips@
    }
}

/// The network found for an address contains it, and is one of the
/// networks searched.
pub proof fn lemma_found_network_contains(nets: Seq<Ipv4Network>, ip: Ipv4)
    ensures
        first_containing(nets, ip) matches Some(n) ==> network_contains(n, ip) && nets.contains(n),
        first_containing(nets, ip) is None ==> forall|k: int|
            0 <= k < nets.len() ==> !network_contains(#[trigger] nets[k], ip),
    decreases nets.len(),
{
    if nets.len() > 0 {
        lemma_found_network_contains(nets.drop_first(), ip);
        if first_containing(nets, ip) is Some && !network_contains(nets[0], ip) {
            let n = first_containing(nets, ip).unwrap();
            let k = choose|k: int| 0 <= k < nets.drop_first().len() && nets.drop_first()[k] == n;
            assert(nets[k + 1] == n);
        }
        if first_containing(nets, ip) is None {
            assert forall|k: int| 0 <= k < nets.len() implies !network_contains(#[trigger] nets[k], ip) by {
                if k > 0 {
                    assert(nets[k] == nets.drop_first()[k - 1]);
                }
            }
        }
    }
}

/// The first network, over all interfaces in order, that contains `address`.
pub fn find_interface(ifaces: Vec<NetworkInterface>, address: Ipv4) -> (r: Option<Ipv4Network>)
    ensures
        r == first_containing(all_networks(ifaces@), address),
{
    let mut i: usize = 0;
    assert(ifaces@.take(0) =~= Seq::<NetworkInterface>::empty());
    while i < ifaces.len()
        invariant
            i <= ifaces@.len(),
            first_containing(all_networks(ifaces@.take(i as int)), address) is None,
        decreases ifaces@.len() - i,
    {
        let nets = &ifaces[i].ips;
        let mut j: usize = 0;
        while j < nets.len()
            invariant
                i < ifaces@.len(),
                nets@ == ifaces@[i as int].ips@,
                j <= nets@.len(),
                first_containing(all_networks(ifaces@.take(i as int)), address) is None,
                first_containing(nets@.take(j as int), address) is None,
            decreases nets@.len() - j,
        {
            if nets[j].contains(address) {
                proof {
                    let before = all_networks(ifaces@.take(i as int));
                    lemma_first_containing_append(before, nets@.take(j as int), address);
                    lemma_first_containing_append(
                        before + nets@.take(j as int),
                        nets@.skip(j as int),
                        address,
                    );
                    assert(nets@.skip(j as int)[0] == nets@[j as int]);
                    lemma_all_networks_prefix(ifaces@, i as int);
                    assert(before + nets@.take(j as int) + nets@.skip(j as int) =~= before + nets@);
                    lemma_first_containing_append(
                        before + nets@,
                        all_networks(ifaces@.skip(i + 1)),
                        address,
                    );
                    lemma_all_networks_split(ifaces@, i + 1);
                }
                return Some(nets[j]);
            }
            proof {
                let one = seq![nets@[j as int]];
                assert(one.drop_first() =~= Seq::<Ipv4Network>::empty());
                assert(!network_contains(nets@[j as int], address));
                assert(one[0] == nets@[j as int]);
                assert(first_containing(Seq::<Ipv4Network>::empty(), address) is None);
                assert(first_containing(one, address) == first_containing(one.drop_first(), address));
                assert(first_containing(one, address) is None);
                lemma_first_containing_append(nets@.take(j as int), seq![nets@[j as int]], address);
                assert(nets@.take(j as int) + seq![nets@[j as int]] =~= nets@.take(j + 1));
            }
            j = j + 1;
        }
        proof {
            assert(nets@.take(j as int) =~= nets@);
            lemma_all_networks_prefix(ifaces@, i as int);
            lemma_first_containing_append(all_networks(ifaces@.take(i as int)), nets@, address);
        }
        i = i + 1;
    }
    proof {
        assert(ifaces@.take(i as int) =~= ifaces@);
    }
    None
}

/// The first match in a concatenation: in the first part if there is one,
/// else in the second.
pub proof fn lemma_first_containing_append(a: Seq<Ipv4Network>, b: Seq<Ipv4Network>, ip: Ipv4)
    ensures
        first_containing(a + b, ip) == match first_containing(a, ip) {
            Some(n) => Some(n),
            None => first_containing(b, ip),
        },
    decreases a.len(),
{
    if a.len() > 0 {
        assert((a + b).drop_first() =~= a.drop_first() + b);
        assert((a + b)[0] == a[0]);
        lemma_first_containing_append(a.drop_first(), b, ip);
    } else {
        assert(a + b =~= b);
    }
}

/// The networks of the first `i + 1` interfaces.
pub proof fn lemma_all_networks_prefix(ifaces: Seq<NetworkInterface>, i: int)
    requires
        0 <= i < ifaces.len(),
    ensures
        all_networks(ifaces.take(i + 1)) == all_networks(ifaces.take(i)) + ifaces[i].ips@,
{
    assert(ifaces.take(i + 1).drop_last() =~= ifaces.take(i));
}

/// The networks of all interfaces: those of a prefix, then those of the rest.
pub proof fn lemma_all_networks_split(ifaces: Seq<NetworkInterface>, i: int)
    requires
        0 <= i <= ifaces.len(),
    ensures
        all_networks(ifaces) == all_networks(ifaces.take(i)) + all_networks(ifaces.skip(i)),
    decreases ifaces.len(),
{
    if ifaces.len() == 0 {
        assert(ifaces.take(i) =~= ifaces);
        assert(ifaces.skip(i) =~= ifaces);
        assert(all_networks(ifaces) + all_networks(ifaces) =~= all_networks(ifaces));
    } else if i == ifaces.len() {
        assert(ifaces.take(i) =~= ifaces);
        assert(ifaces.skip(i) =~= Seq::<NetworkInterface>::empty());
        assert(all_networks(ifaces) + Seq::<Ipv4Network>::empty() =~= all_networks(ifaces));
    } else {
        lemma_all_networks_split(ifaces.drop_last(), i);
        assert(ifaces.drop_last().take(i) =~= ifaces.take(i));
        assert(ifaces.skip(i).drop_last() =~= ifaces.drop_last().skip(i));
        assert(ifaces.skip(i).last() == ifaces.last());
        assert(all_networks(ifaces.take(i)) + all_networks(ifaces.drop_last().skip(i)) + ifaces.last().ips@
            =~= all_networks(ifaces.take(i)) + (all_networks(ifaces.drop_last().skip(i)) + ifaces.last().ips@));
    }
}

/// The network that the DJ Link devices were found on, with the hardware
/// address of the interface that reaches it.
#[derive(Debug, PartialEq, Eq, Structural, Clone, Copy)]
pub struct PioneerNetwork {
    pub network: Ipv4Network,
    pub mac: MacAddr,
}

impl PioneerNetwork {
    pub fn new(network: Ipv4Network, mac: MacAddr) -> (p: PioneerNetwork)
        ensures
            p.network == network,
            p.mac == mac,
    {
        PioneerNetwork { network, mac }
    }

    /// This host's address on the network.
    pub fn ip(&self) -> (a: Ipv4)
        ensures
            a == self.network.spec_ip(),
    {
        self.network.ip()
    }

    pub fn mac_address(&self) -> (m: MacAddr)
        ensures
            m == self.mac,
    {
        self.mac
    }

    pub fn mask(&self) -> (m: Ipv4)
        ensures
            m.spec_to_u32() == mask_of(self.network.spec_prefix()),
    {
        self.network.mask()
    }

    pub fn broadcast(&self) -> (b: Ipv4)
        ensures
            b.spec_to_u32() == self.network.spec_ip().spec_to_u32() | !mask_of(
                self.network.spec_prefix(),
            ),
    {
        self.network.broadcast()
    }
}

} // verus!

verus! {

/// The decimal digits of a byte.
pub open spec fn decimal(n: u8) -> Seq<char> {
    if n >= 100 {
        seq![digit_char(n / 100), digit_char((n / 10) % 10), digit_char(n % 10)]
    } else if n >= 10 {
        seq![digit_char(n / 10), digit_char(n % 10)]
    } else {
        seq![digit_char(n)]
    }
}

pub open spec fn digit_char(d: u8) -> char {
    ((d + 48) as u32) as char
}

/// An address in dotted decimal form.
pub open spec fn dotted(ip: Ipv4) -> Seq<char> {
    decimal(ip.a) + seq!['.'] + decimal(ip.b) + seq!['.'] + decimal(ip.c) + seq!['.'] + decimal(ip.d)
}

fn push_decimal(out: &mut Vec<char>, n: u8)
    ensures
        final(out)@ == old(out)@ + decimal(n),
{
    if n >= 100 {
        out.push(crate::text::char_from_scalar((n / 100 + 48) as u32));
        out.push(crate::text::char_from_scalar(((n / 10) % 10 + 48) as u32));
        out.push(crate::text::char_from_scalar((n % 10 + 48) as u32));
    } else if n >= 10 {
        out.push(crate::text::char_from_scalar((n / 10 + 48) as u32));
        out.push(crate::text::char_from_scalar((n % 10 + 48) as u32));
    } else {
        out.push(crate::text::char_from_scalar((n + 48) as u32));
    }
    assert(out@ =~= old(out)@ + decimal(n));
}

/// Appends an address in dotted decimal form.
pub fn push_dotted(out: &mut Vec<char>, ip: Ipv4)
    ensures
        final(out)@ == old(out)@ + dotted(ip),
{
    push_decimal(out, ip.a);
    out.push('.');
    push_decimal(out, ip.b);
    out.push('.');
    push_decimal(out, ip.c);
    out.push('.');
    push_decimal(out, ip.d);
    assert(out@ =~= old(out)@ + dotted(ip));
}

impl Ipv4 {
    /// The address in dotted decimal form (as `Display` writes it).
    pub fn to_string(&self) -> (s: String)
        ensures
            s@ == dotted(*self),
    {
        let mut v: Vec<char> = Vec::new();
        push_dotted(&mut v, *self);
        assert(v@ =~= dotted(*self));
        crate::text::string_from_chars(&v)
    }
}

} // verus!
