//! Port assignment for services.

use vstd::prelude::*;

verus! {

/// Port range configuration for service assignment (both ends included).
#[derive(Clone, Copy, Debug)]
pub struct PortRange {
    pub start: u16,
    pub end: u16,
}

/// Why a port could not be assigned.
#[derive(Clone, Copy, Debug, PartialEq, Eq)]
pub enum PortError {
    /// The requested port is already in use.
    InUse(u16),
    /// Every port of the range is in use (or the range is empty).
    Exhausted { start: u16, end: u16 },
}

/// Port manager for automatic port assignment.
pub struct PortManager {
    port_range: PortRange,
    used_ports: Vec<u16>,
}

/// The lowest port of `start..=end` not in `used`, if any.
pub open spec fn first_free_port(start: u16, end: u16, used: Seq<u16>) -> Option<u16> {
    if exists|p: u16| start <= p <= end && !used.contains(p) {
        Some(choose|p: u16| start <= p <= end && !used.contains(p) && forall|q: u16| start <= q < p ==> used.contains(q))
    } else {
        None
    }
}

/// The predicate "is not `port`".
pub open spec fn other_than(port: u16) -> spec_fn(u16) -> bool {
    |q: u16| q != port
}

impl PortManager {
    /// The configured range.
    pub closed spec fn range(&self) -> PortRange {
        self.port_range
    }

    /// The ports in use, in the order they were assigned.
    pub closed spec fn used(&self) -> Seq<u16> {
        self.used_ports@
    }

    /// A port is never recorded twice.
    pub open spec fn wf(&self) -> bool {
        self.used().no_duplicates()
    }

    pub fn new(port_range: PortRange) -> (m: Self)
        ensures
            m.wf(),
            m.range() == port_range,
            m.used() == Seq::<u16>::empty(),
    {
        PortManager { port_range, used_ports: Vec::new() }
    }

    /// Whether `port` is in use.
    fn is_used(&self, port: u16) -> (b: bool)
        ensures
            b == self.used().contains(port),
    {
        let mut i: usize = 0;
        while i < self.used_ports.len()
            invariant
                i <= self.used_ports@.len(),
                forall|j: int| 0 <= j < i ==> self.used_ports@[j] != port,
            decreases self.used_ports@.len() - i,
        {
            if self.used_ports[i] == port {
                assert(self.used_ports@[i as int] == port);
                return true;
            }
            i = i + 1;
        }
        false
    }

    /// Assign a port for a service: the requested one when it is free, or
    /// the lowest free port of the range when none is requested.
    pub fn assign_port(&mut self, requested_port: Option<u16>) -> (r: Result<u16, PortError>)
        requires
            old(self).wf(),
        ensures
            final(self).wf(),
            final(self).range() == old(self).range(),
            forall|p: u16| requested_port == Some(p) && #[trigger] old(self).used().contains(p) ==> r == Err::<u16, PortError>(PortError::InUse(p))
                && final(self).used() == old(self).used(),
            forall|p: u16| requested_port == Some(p) && !#[trigger] old(self).used().contains(p) ==> r == Ok::<u16, PortError>(p)
                && final(self).used() == old(self).used().push(p),
            requested_port is None ==> match first_free_port(old(self).range().start, old(self).range().end, old(self).used()) {
                Some(p) => r == Ok::<u16, PortError>(p) && final(self).used() == old(self).used().push(p),
                None => r == Err::<u16, PortError>(PortError::Exhausted { start: old(self).range().start, end: old(self).range().end })
                    && final(self).used() == old(self).used(),
            },
    {
        match requested_port {
            Some(port) => {
                if self.is_used(port) {
                    return Err(PortError::InUse(port));
                }
                self.used_ports.push(port);
                proof {
                    lemma_push_fresh_no_dup(old(self).used(), port);
                }
                Ok(port)
            },
            None => {
                let start = self.port_range.start;
                let end = self.port_range.end;
                if start > end {
                    return Err(PortError::Exhausted { start, end });
                }
                let mut p: u32 = start as u32;
                while p <= end as u32
                    invariant
                        start as u32 <= p <= end as u32 + 1,
                        start == self.port_range.start,
                        end == self.port_range.end,
                        self.used_ports@ == old(self).used(),
                        self.port_range == old(self).range(),
                        old(self).wf(),
                        requested_port is None,
                        forall|q: u16| start <= q && (q as u32) < p ==> self.used().contains(q),
                    decreases end as u32 + 1 - p,
                {
                    let port = p as u16;
                    if !self.is_used(port) {
                        proof {
                            let ff = first_free_port(start, end, self.used());
                            assert(start <= port <= end && !self.used().contains(port));
                            let c = choose|c: u16| start <= c <= end && !self.used().contains(c) && forall|q: u16| start <= q < c ==> self.used().contains(q);
                            assert(c == port) by {
                                if c < port {
                                    assert(self.used().contains(c));
                                }
                                if port < c {
                                    assert(self.used().contains(port));
                                }
                            }
                            assert(ff == Some(port));
                            assert(old(self).range().start == start && old(self).range().end == end);
                        }
                        self.used_ports.push(port);
                        proof {
                            lemma_push_fresh_no_dup(old(self).used(), port);
                        }
                        return Ok(port);
                    }
                    p = p + 1;
                }
                proof {
                    assert forall|q: u16| start <= q <= end implies self.used().contains(q) by {
                        assert((q as u32) < p);
                    }
                }
                Err(PortError::Exhausted { start, end })
            },
        }
    }

    /// Release a port when a service stops.
    pub fn release_port(&mut self, port: u16)
        requires
            old(self).wf(),
        ensures
            final(self).wf(),
            final(self).range() == old(self).range(),
            final(self).used() == old(self).used().filter(other_than(port)),
    {
        let mut kept: Vec<u16> = Vec::new();
        let mut i: usize = 0;
        let ghost pred = other_than(port);
        while i < self.used_ports.len()
            invariant
                i <= self.used_ports@.len(),
                self.used_ports@ == old(self).used(),
                kept@ == self.used_ports@.take(i as int).filter(pred),
                pred == other_than(port),
            decreases self.used_ports@.len() - i,
        {
            proof {
                assert(self.used_ports@.take(i + 1) =~= self.used_ports@.take(i as int).push(self.used_ports@[i as int]));
                self.used_ports@.take(i as int).lemma_filter_push(self.used_ports@[i as int], pred);
            }
            if self.used_ports[i] != port {
                assert(pred(self.used_ports@[i as int]));
                kept.push(self.used_ports[i]);
            } else {
                assert(!pred(self.used_ports@[i as int]));
            }
            i = i + 1;
        }
        proof {
            assert(self.used_ports@.take(self.used_ports@.len() as int) =~= self.used_ports@);
            lemma_filter_no_dup(old(self).used(), pred);
        }
        self.used_ports = kept;
    }

    /// The configured range.
    pub fn range_value(&self) -> (r: PortRange)
        ensures
            r == self.range(),
    {
        self.port_range
    }

    /// Get all currently used ports.
    pub fn used_ports(&self) -> (r: &[u16])
        ensures
            r@ == self.used(),
    {
        self.used_ports.as_slice()
    }
}

proof fn lemma_push_fresh_no_dup(s: Seq<u16>, x: u16)
    requires
        s.no_duplicates(),
        !s.contains(x),
    ensures
        s.push(x).no_duplicates(),
{
    assert forall|a: int, b: int| 0 <= a < b < s.push(x).len() implies s.push(x)[a] != s.push(x)[b] by {
        if b == s.len() {
            assert(s.contains(s[a]));
        }
    }
}

proof fn lemma_filter_no_dup(s: Seq<u16>, pred: spec_fn(u16) -> bool)
    requires
        s.no_duplicates(),
    ensures
        s.filter(pred).no_duplicates(),
    decreases s.len(),
{
    reveal(Seq::filter);
    if s.len() > 0 {
        let d = s.drop_last();
        assert(d.no_duplicates()) by {
            assert forall|a: int, b: int| 0 <= a < b < d.len() implies d[a] != d[b] by {
                assert(d[a] == s[a] && d[b] == s[b]);
            }
        }
        lemma_filter_no_dup(d, pred);
        if pred(s.last()) {
            let f = d.filter(pred);
            assert(!f.contains(s.last())) by {
                if f.contains(s.last()) {
                    let j = f.index_of(s.last());
                    d.lemma_filter_contains_rev(pred, s.last());
                    let k = d.index_of(f[j]);
                    assert(s[k] == s[s.len() - 1]);
                }
            }
            lemma_push_fresh_no_dup(f, s.last());
        }
    }
}

/// A port picked automatically lies in the range and was free.
pub proof fn lemma_first_free_port_is_free_and_in_range(start: u16, end: u16, used: Seq<u16>)
    ensures
        first_free_port(start, end, used) matches Some(p) ==> start <= p <= end && !used.contains(p)
            && forall|q: u16| start <= q < p ==> used.contains(q),
        first_free_port(start, end, used) is None ==> forall|q: u16| start <= q <= end ==> used.contains(q),
{
    if exists|p: u16| start <= p <= end && !used.contains(p) {
        let p0 = choose|p: u16| start <= p <= end && !used.contains(p);
        lemma_least_free_exists(start, p0, used);
    }
}

/// Among the free ports of a range, a lowest one exists.
proof fn lemma_least_free_exists(start: u16, p0: u16, used: Seq<u16>)
    requires
        start <= p0,
        !used.contains(p0),
    ensures
        exists|p: u16| start <= p <= p0 && !used.contains(p) && forall|q: u16| start <= q < p ==> used.contains(q),
    decreases p0 - start,
{
    if exists|q: u16| start <= q < p0 && !used.contains(q) {
        let q = choose|q: u16| start <= q < p0 && !used.contains(q);
        lemma_least_free_exists(start, q, used);
    } else {
        assert(forall|q: u16| start <= q < p0 ==> used.contains(q));
    }
}

/// A released port is no longer in use, so requesting it again succeeds.
pub proof fn lemma_released_port_is_free(used: Seq<u16>, port: u16)
    ensures
        !used.filter(other_than(port)).contains(port),
{
    if used.filter(other_than(port)).contains(port) {
        let j = used.filter(other_than(port)).index_of(port);
        used.lemma_filter_pred(other_than(port), j);
    }
}

/// Releasing a port leaves every other port in use.
pub proof fn lemma_release_keeps_other_ports(used: Seq<u16>, port: u16, other: u16)
    requires
        used.contains(other),
        other != port,
    ensures
        used.filter(other_than(port)).contains(other),
{
    let i = used.index_of(other);
    used.lemma_filter_contains(other_than(port), i);
}

} // verus!
