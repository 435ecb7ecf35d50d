//! A pool of UDP ports for the RPC program servers: ports are taken from the
//! end of the pool and put back there.

use vstd::prelude::*;

verus! {

#[derive(Debug, PartialEq, Eq, Structural, Clone, Copy)]
pub struct Port {
    pub port: u16,
}

/// The free ports.
#[derive(Debug)]
pub struct Pool {
    ports: Vec<Port>,
}

/// A port taken from the pool; it goes back with `Pool::put_back_port`.
#[derive(Debug)]
pub struct PooledPort {
    port: Option<u16>,
}

pub open spec fn port_numbers(ps: Seq<Port>) -> Seq<u16> {
    ps.map_values(|p: Port| p.port)
}

/// The ports from `start` to `end`, in increasing order.
pub open spec fn ports_between(start: u16, end: u16) -> Seq<u16> {
    Seq::new(if end >= start { (end - start + 1) as nat } else { 0 }, |i: int| (start + i) as u16)
}

impl View for Pool {
    type V = Seq<u16>;

    closed spec fn view(&self) -> Seq<u16> {
        port_numbers(self.ports@)
    }
}

impl PooledPort {
    pub closed spec fn spec_port(&self) -> Option<u16> {
        self.port
    }

    /// The port number.
    pub fn get_port(&self) -> (p: u16)
        requires
            self.spec_port() is Some,
        ensures
            Some(p) == self.spec_port(),
    {
        self.port.unwrap()
    }
}

/// Calls `RangeInclusive::is_empty`, which std documents as true when the
/// range holds no value: once it was iterated to exhaustion, or when its
/// start is above its end.
#[verifier::external_body]
fn range_is_empty(r: &std::ops::RangeInclusive<u16>) -> (b: bool)
    ensures
        b == (r@.exhausted || r@.start > r@.end),
{
    r.is_empty()
}

/// Calls `RangeInclusive::into_inner`, which std documents as giving the
/// lower and the upper bound of a range that was not iterated to
/// exhaustion.
#[verifier::external_body]
fn range_bounds(r: std::ops::RangeInclusive<u16>) -> (b: (u16, u16))
    ensures
        !r@.exhausted ==> b == (r@.start, r@.end),
{
    r.into_inner()
}

impl Pool {
    /// A pool of the ports of `port_range`, in increasing order.
    pub fn new(port_range: std::ops::RangeInclusive<u16>) -> (r: Result<Pool, &'static str>)
        ensures
            r matches Ok(pool) && pool@ == (if port_range@.exhausted {
                Seq::empty()
            } else {
                ports_between(port_range@.start, port_range@.end)
            }),
    {
        if range_is_empty(&port_range) {
            proof {
                if !port_range@.exhausted {
                    assert(ports_between(port_range@.start, port_range@.end) =~= Seq::<u16>::empty());
                }
            }
            return Ok(Pool { ports: Vec::new() });
        }
        let (start, end) = range_bounds(port_range);
        Ok(Self::between(start, end))
    }

    fn between(start: u16, end: u16) -> (pool: Pool)
        ensures
            pool@ == ports_between(start, end),
    {
        let mut ports: Vec<Port> = Vec::new();
        let ghost range = ports_between(start, end);
        let mut p: u32 = start as u32;
        let last: u32 = end as u32;
        while p <= last
            invariant
                start <= p <= last + 1 || (p == start && start > last),
                last == end,
                range == ports_between(start, end),
                p >= start,
                port_numbers(ports@) == range.take(p - start),
            decreases last + 1 - p,
        {
            let ghost before = ports@;
            ports.push(Port { port: p as u16 });
            assert(port_numbers(ports@) =~= port_numbers(before).push(p as u16));
            assert(range.take(p - start + 1) =~= range.take(p - start).push(range[p - start]));
            p = p + 1;
        }
        proof {
            if start <= end {
                assert(range.take(p - start) =~= range);
            } else {
                assert(range.take(p - start) =~= range);
            }
        }
        Pool { ports }
    }

    /// Puts a port back at the end of the pool.
    fn put_back(&mut self, port: u16)
        ensures
            final(self)@ == old(self)@.push(port),
    {
        self.ports.push(Port { port });
        assert(self@ =~= old(self)@.push(port));
    }

    /// Takes the last port of the pool, if there is one.
    fn try_get_inner(&mut self) -> (r: Result<PooledPort, &'static str>)
        ensures
            old(self)@.len() == 0 ==> r == Err::<PooledPort, &'static str>("Unable to get port from pool")
                && final(self)@ == old(self)@,
            old(self)@.len() > 0 ==> (r matches Ok(p) && p.spec_port() == Some(old(self)@.last())
                && final(self)@ == old(self)@.drop_last()),
    {
        match self.ports.pop() {
            Some(port) => {
                assert(self@ =~= old(self)@.drop_last());
                Ok(PooledPort { port: Some(port.port) })
            },
            None => Err("Unable to get port from pool"),
        }
    }

    /// Takes a port; an empty pool is waited on until a port comes back, so
    /// this asks for a pool that is not empty.
    pub fn get(&mut self) -> (r: Result<PooledPort, &'static str>)
        requires
            old(self)@.len() > 0,
        ensures
            r matches Ok(p) && p.spec_port() == Some(old(self)@.last()),
            final(self)@ == old(self)@.drop_last(),
    {
        self.get_timeout()
    }

    /// Takes the most recently returned port. On an empty pool the loop that
    /// polls for a port never counts its tries, so it spins until another
    /// holder hands a port back; that wait is no outcome this function can
    /// answer with, so it asks for a pool that is not empty.
    pub fn get_timeout(&mut self) -> (r: Result<PooledPort, &'static str>)
        requires
            old(self)@.len() > 0,
        ensures
            r matches Ok(p) && p.spec_port() == Some(old(self)@.last()),
            final(self)@ == old(self)@.drop_last(),
    {
        self.try_get_inner()
    }

    /// Gives a taken port back to the pool (what dropping it does).
    pub fn put_back_port(&mut self, pooled: PooledPort)
        requires
            pooled.spec_port() is Some,
        ensures
            final(self)@ == old(self)@.push(pooled.spec_port().unwrap()),
    {
        let port = pooled.get_port();
        self.put_back(port);
    }
}

/// Taking a port and giving it back leaves the pool as it was.
pub proof fn lemma_get_then_put_back(pool: Seq<u16>)
    requires
        pool.len() > 0,
    ensures
        pool.drop_last().push(pool.last()) == pool,
{
    assert(pool.drop_last().push(pool.last()) =~= pool);
}

} // verus!
