//! The honeypot registry: which honeypot serves which port, how many
//! sessions are active, and which addresses are advised to be blocked.
use vstd::prelude::*;

use crate::honeypots::{Honeypot, HoneypotType};

verus! {

/// What to deploy, and where.
#[derive(Debug, Clone, Copy, PartialEq, Eq, Structural)]
pub struct HoneypotConfig {
    pub port: u16,
    pub honeypot_type: HoneypotType,
    pub interaction_level: InteractionLevel,
}

#[derive(Debug, Clone, Copy, PartialEq, Eq, Structural)]
pub enum InteractionLevel {
    Low,
    Medium,
    High,
}

/// A peer address: IPv4 or IPv6, as the integer of its octets.
#[derive(Debug, Clone, Copy, PartialEq, Eq, Structural)]
pub enum IpAddress {
    V4(u32),
    V6(u128),
}

/// A snapshot of the registry.
#[derive(Debug, Clone, Copy, PartialEq, Eq, Structural)]
pub struct DeceptionReport {
    pub active_sessions: usize,
    pub blocked_count: usize,
    pub honeypot_count: usize,
}

impl DeceptionReport {
    pub fn active_sessions(&self) -> (r: usize)
        ensures
            r == self.active_sessions,
    {
        self.active_sessions
    }

    pub fn blocked_count(&self) -> (r: usize)
        ensures
            r == self.blocked_count,
    {
        self.blocked_count
    }

    pub fn honeypot_count(&self) -> (r: usize)
        ensures
            r == self.honeypot_count,
    {
        self.honeypot_count
    }
}

/// The port a session is sent to when no honeypot listens on its own port.
pub const DEFAULT_FALLBACK_PORT: u16 = 22;

/// Deployed honeypots (one per port), the active-session gauge, and the
/// advisory block list.
pub struct DeceptionSystem {
    honeypots: Vec<Honeypot>,
    active_sessions: usize,
    blocked_ips: Vec<IpAddress>,
    fallback_port: Option<u16>,
}

/// A registry entry: port and protocol.
pub type Deployment = (u16, HoneypotType);

/// The (port, protocol) entries of a list of honeypots.
pub open spec fn deployments_of(v: Seq<Honeypot>) -> Seq<Deployment> {
    v.map_values(|h: Honeypot| (h.port_of(), h.type_of()))
}

/// `s` without its entries on port `p`.
pub open spec fn without_port(s: Seq<Deployment>, p: u16) -> Seq<Deployment>
    decreases s.len(),
{
    if s.len() == 0 {
        s
    } else if s.last().0 == p {
        without_port(s.drop_last(), p)
    } else {
        without_port(s.drop_last(), p).push(s.last())
    }
}

/// The registry after deploying a honeypot of type `t` on port `p`: any
/// earlier one on that port is replaced.
pub open spec fn redeploy(s: Seq<Deployment>, p: u16, t: HoneypotType) -> Seq<Deployment> {
    without_port(s, p).push((p, t))
}

/// The protocol served on port `p`, if any.
pub open spec fn served_on(s: Seq<Deployment>, p: u16) -> Option<HoneypotType>
    decreases s.len(),
{
    if s.len() == 0 {
        None
    } else if s.last().0 == p {
        Some(s.last().1)
    } else {
        served_on(s.drop_last(), p)
    }
}

/// How many entries of `s` are on port `p`.
pub open spec fn entries_on(s: Seq<Deployment>, p: u16) -> nat
    decreases s.len(),
{
    if s.len() == 0 {
        0
    } else {
        entries_on(s.drop_last(), p) + if s.last().0 == p {
            1nat
        } else {
            0nat
        }
    }
}

/// No two entries share a port.
pub open spec fn ports_unique(s: Seq<Deployment>) -> bool {
    forall|i: int, j: int| 0 <= i < j < s.len() ==> s[i].0 != s[j].0
}

/// The honeypot a session for `port` goes to: the one on that port, else
/// the one on the fallback port.
pub open spec fn selected(s: Seq<Deployment>, port: u16, fallback: Option<u16>) -> Option<
    HoneypotType,
> {
    match served_on(s, port) {
        Some(t) => Some(t),
        None => match fallback {
            Some(f) => served_on(s, f),
            None => None,
        },
    }
}

proof fn lemma_without_port(s: Seq<Deployment>, p: u16)
    ensures
        served_on(without_port(s, p), p) is None,
        entries_on(without_port(s, p), p) == 0,
        forall|q: u16| q != p ==> served_on(#[trigger] without_port(s, p), q) == served_on(s, q),
        ports_unique(s) ==> ports_unique(without_port(s, p)),
        forall|k: int|
            0 <= k < without_port(s, p).len() ==> s.contains(#[trigger] without_port(s, p)[k]),
    decreases s.len(),
{
    if s.len() > 0 {
        let pre = s.drop_last();
        lemma_without_port(pre, p);
        let w = without_port(pre, p);
        assert forall|q: u16| q != p implies served_on(#[trigger] without_port(s, p), q)
            == served_on(s, q) by {
            assert(served_on(w, q) == served_on(pre, q));
            if s.last().0 != p {
                assert(w.push(s.last()).drop_last() =~= w);
            }
        }
        assert forall|k: int| 0 <= k < w.len() implies s.contains(#[trigger] w[k]) by {
            assert(pre.contains(w[k]));
            let i = choose|i: int| 0 <= i < pre.len() && pre[i] == w[k];
            assert(s[i] == pre[i]);
        }
        if s.last().0 != p {
            let w2 = w.push(s.last());
            assert(w2.drop_last() =~= w);
            assert forall|k: int| 0 <= k < w2.len() implies s.contains(#[trigger] w2[k]) by {
                if k < w.len() {
                    assert(w2[k] == w[k]);
                } else {
                    assert(s[s.len() - 1] == w2[k]);
                }
            }
            if ports_unique(s) {
                assert(ports_unique(pre)) by {
                    assert forall|i: int, j: int| 0 <= i < j < pre.len() implies pre[i].0
                        != pre[j].0 by {
                        assert(pre[i] == s[i] && pre[j] == s[j]);
                    }
                }
                assert forall|i: int, j: int| 0 <= i < j < w2.len() implies w2[i].0
                    != w2[j].0 by {
                    if j == w.len() {
                        assert(s.contains(w2[i]));
                        let m = choose|m: int| 0 <= m < s.len() && s[m] == w2[i];
                        if m == s.len() - 1 {
                            assert(w.contains(s.last()));
                            let n = choose|n: int| 0 <= n < w.len() && w[n] == s.last();
                            assert(pre.contains(w[n]));
                            let o = choose|o: int| 0 <= o < pre.len() && pre[o] == w[n];
                            assert(s[o] == pre[o]);
                        }
                    } else {
                        assert(w2[i] == w[i] && w2[j] == w[j]);
                    }
                }
            }
        } else if ports_unique(s) {
            assert(ports_unique(pre)) by {
                assert forall|i: int, j: int| 0 <= i < j < pre.len() implies pre[i].0
                    != pre[j].0 by {
                    assert(pre[i] == s[i] && pre[j] == s[j]);
                }
            }
        }
    }
}

/// Deploying twice on the same port leaves exactly the second honeypot
/// registered there, and every other port as it was.
pub proof fn lemma_redeploy_keeps_second(
    s: Seq<Deployment>,
    p: u16,
    first: HoneypotType,
    second: HoneypotType,
)
    ensures
        served_on(redeploy(redeploy(s, p, first), p, second), p) == Some(second),
        entries_on(redeploy(redeploy(s, p, first), p, second), p) == 1,
        forall|q: u16|
            q != p ==> served_on(#[trigger] redeploy(redeploy(s, p, first), p, second), q)
                == served_on(s, q),
{
    let once = redeploy(s, p, first);
    let twice = redeploy(once, p, second);
    lemma_without_port(s, p);
    lemma_without_port(once, p);
    assert(twice.drop_last() == without_port(once, p));
    assert(once.drop_last() == without_port(s, p));
    assert forall|q: u16| q != p implies served_on(#[trigger] redeploy(once, p, second), q)
        == served_on(s, q) by {
        assert(served_on(twice, q) == served_on(without_port(once, p), q));
        assert(served_on(once, q) == served_on(without_port(s, p), q));
    }
}

impl DeceptionSystem {
    /// The registry, as (port, protocol) entries.
    pub closed spec fn deployments(&self) -> Seq<Deployment> {
        deployments_of(self.honeypots@)
    }

    pub closed spec fn active(&self) -> nat {
        self.active_sessions as nat
    }

    pub closed spec fn blocked(&self) -> Seq<IpAddress> {
        self.blocked_ips@
    }

    pub closed spec fn fallback(&self) -> Option<u16> {
        self.fallback_port
    }

    /// One honeypot per port, and each blocked address listed once.
    pub open spec fn wf(&self) -> bool {
        &&& ports_unique(self.deployments())
        &&& self.blocked().no_duplicates()
    }

    /// An empty registry that falls back to port 22.
    pub fn new() -> (r: Self)
        ensures
            r.wf(),
            r.deployments().len() == 0,
            r.active() == 0,
            r.blocked().len() == 0,
            r.fallback() == Some(DEFAULT_FALLBACK_PORT),
    {
        let r = DeceptionSystem {
            honeypots: Vec::new(),
            active_sessions: 0,
            blocked_ips: Vec::new(),
            fallback_port: Some(DEFAULT_FALLBACK_PORT),
        };
        assert(r.deployments() =~= Seq::<Deployment>::empty());
        r
    }

    /// Chooses the port whose honeypot takes sessions that match no
    /// deployed port; `None` turns such sessions away.
    pub fn set_fallback_port(&mut self, port: Option<u16>)
        ensures
            final(self).fallback() == port,
            final(self).deployments() == old(self).deployments(),
            final(self).active() == old(self).active(),
            final(self).blocked() == old(self).blocked(),
    {
        self.fallback_port = port;
    }

    /// Registers a honeypot as `config` says, replacing any on its port.
    pub fn deploy_honeypot(&mut self, config: HoneypotConfig)
        requires
            old(self).wf(),
        ensures
            final(self).wf(),
            final(self).deployments() == redeploy(
                old(self).deployments(),
                config.port,
                config.honeypot_type,
            ),
            final(self).active() == old(self).active(),
            final(self).blocked() == old(self).blocked(),
            final(self).fallback() == old(self).fallback(),
    {
        let ghost d = self.deployments();
        let mut kept: Vec<Honeypot> = Vec::new();
        let mut i: usize = 0;
        assert(d.subrange(0, 0) =~= Seq::<Deployment>::empty());
        assert(deployments_of(kept@) =~= Seq::<Deployment>::empty());
        while i < self.honeypots.len()
            invariant
                i <= self.honeypots.len(),
                d == self.deployments(),
                d == deployments_of(self.honeypots@),
                deployments_of(kept@) == without_port(d.subrange(0, i as int), config.port),
            decreases self.honeypots.len() - i,
        {
            let h = self.honeypots[i];
            assert(d.subrange(0, i + 1).drop_last() =~= d.subrange(0, i as int));
            assert(d.subrange(0, i + 1).last() == (h.port_of(), h.type_of()));
            if h.port() != config.port {
                let ghost prev = kept@;
                kept.push(h);
                assert(deployments_of(kept@) =~= deployments_of(prev).push((h.port_of(), h.type_of())));
            }
            i = i + 1;
        }
        assert(d.subrange(0, i as int) =~= d);
        let ghost prev = kept@;
        kept.push(Honeypot::create(config.honeypot_type, config.port));
        assert(deployments_of(kept@) =~= deployments_of(prev).push((config.port, config.honeypot_type)));
        self.honeypots = kept;
        proof {
            lemma_without_port(d, config.port);
            let w = without_port(d, config.port);
            let r = redeploy(d, config.port, config.honeypot_type);
            assert(r.drop_last() == w);
            assert forall|i: int, j: int| 0 <= i < j < r.len() implies r[i].0 != r[j].0 by {
                if j == w.len() {
                    assert(r[i] == w[i]);
                    assert(served_on(w, config.port) is None);
                    lemma_served_on_entry(w, i);
                } else {
                    assert(r[i] == w[i] && r[j] == w[j]);
                }
            }
        }
    }

    /// The honeypot that takes a session addressed to `target_port`, if any.
    pub fn select_honeypot(&self, target_port: u16) -> (r: Option<Honeypot>)
        ensures
            match r {
                Some(h) => selected(self.deployments(), target_port, self.fallback()) == Some(
                    h.type_of(),
                ),
                None => selected(self.deployments(), target_port, self.fallback()) is None,
            },
    {
        match self.find_port(target_port) {
            Some(h) => Some(h),
            None => match self.fallback_port {
                Some(f) => self.find_port(f),
                None => None,
            },
        }
    }

    fn find_port(&self, port: u16) -> (r: Option<Honeypot>)
        ensures
            match r {
                Some(h) => served_on(self.deployments(), port) == Some(h.type_of()),
                None => served_on(self.deployments(), port) is None,
            },
    {
        let ghost d = self.deployments();
        let mut i: usize = self.honeypots.len();
        assert(d.subrange(0, i as int) =~= d);
        while i > 0
            invariant
                i <= self.honeypots.len(),
                d == self.deployments(),
                served_on(d, port) == served_on(d.subrange(0, i as int), port),
            decreases i,
        {
            let ghost pre = d.subrange(0, i as int);
            assert(pre.drop_last() =~= d.subrange(0, i - 1));
            assert(pre.last() == d[i - 1]);
            let h = self.honeypots[i - 1];
            if h.port() == port {
                return Some(h);
            }
            i = i - 1;
        }
        None
    }

    /// Opens a session addressed to `target_port`: the gauge of active
    /// sessions goes up, and the honeypot that takes it is returned.
    pub fn begin_session(&mut self, target_port: u16) -> (r: Option<Honeypot>)
        requires
            old(self).active() < usize::MAX,
        ensures
            final(self).active() == old(self).active() + 1,
            match r {
                Some(h) => selected(old(self).deployments(), target_port, old(self).fallback())
                    == Some(h.type_of()),
                None => selected(old(self).deployments(), target_port, old(self).fallback())
                    is None,
            },
            final(self).deployments() == old(self).deployments(),
            final(self).blocked() == old(self).blocked(),
            final(self).fallback() == old(self).fallback(),
    {
        self.active_sessions = self.active_sessions + 1;
        self.select_honeypot(target_port)
    }

    /// Closes a session, whether it completed or failed.
    pub fn end_session(&mut self)
        requires
            old(self).active() > 0,
        ensures
            final(self).active() == old(self).active() - 1,
            final(self).deployments() == old(self).deployments(),
            final(self).blocked() == old(self).blocked(),
            final(self).fallback() == old(self).fallback(),
    {
        self.active_sessions = self.active_sessions - 1;
    }

    /// Adds `ip` to the advisory block list; the registry itself never
    /// refuses a connection.
    pub fn block_ip(&mut self, ip: IpAddress)
        requires
            old(self).wf(),
        ensures
            final(self).wf(),
            final(self).blocked().to_set() == old(self).blocked().to_set().insert(ip),
            final(self).deployments() == old(self).deployments(),
            final(self).active() == old(self).active(),
            final(self).fallback() == old(self).fallback(),
    {
        if self.is_blocked(ip) {
            assert(self.blocked().to_set().insert(ip) =~= self.blocked().to_set());
            return;
        }
        let ghost prev = self.blocked_ips@;
        self.blocked_ips.push(ip);
        assert forall|x: IpAddress| #[trigger] self.blocked_ips@.contains(x) <==> prev.to_set().insert(ip).contains(x) by {
            if prev.contains(x) {
                let k = choose|k: int| 0 <= k < prev.len() && prev[k] == x;
                assert(self.blocked_ips@[k] == x);
            }
            if x == ip {
                assert(self.blocked_ips@[prev.len() as int] == x);
            }
            if self.blocked_ips@.contains(x) {
                let k = choose|k: int| 0 <= k < self.blocked_ips@.len() && self.blocked_ips@[k] == x;
                if k < prev.len() {
                    assert(prev[k] == x);
                }
            }
        }
        assert(self.blocked_ips@.to_set() =~= prev.to_set().insert(ip));
        assert(self.blocked_ips@.no_duplicates()) by {
            assert forall|a: int, b: int|
                0 <= a < b < self.blocked_ips@.len() implies self.blocked_ips@[a]
                != self.blocked_ips@[b] by {
                if b == prev.len() {
                    assert(prev[a] != ip);
                } else {
                    assert(prev[a] != prev[b]);
                }
            }
        }
    }

    /// Whether `ip` is on the block list.
    pub fn is_blocked(&self, ip: IpAddress) -> (r: bool)
        ensures
            r == self.blocked().contains(ip),
    {
        let mut i: usize = 0;
        while i < self.blocked_ips.len()
            invariant
                i <= self.blocked_ips.len(),
                forall|k: int| 0 <= k < i ==> self.blocked_ips@[k] != ip,
            decreases self.blocked_ips.len() - i,
        {
            if self.blocked_ips[i] == ip {
                assert(self.blocked_ips@[i as int] == ip);
                return true;
            }
            i = i + 1;
        }
        false
    }

    /// The number of active sessions, blocked addresses and honeypots.
    pub fn generate_report(&self) -> (r: DeceptionReport)
        ensures
            r.active_sessions == self.active(),
            r.blocked_count == self.blocked().len(),
            r.honeypot_count == self.deployments().len(),
    {
        DeceptionReport {
            active_sessions: self.active_sessions,
            blocked_count: self.blocked_ips.len(),
            honeypot_count: self.honeypots.len(),
        }
    }
}

proof fn lemma_served_on_entry(s: Seq<Deployment>, i: int)
    requires
        0 <= i < s.len(),
    ensures
        served_on(s, s[i].0) is Some,
    decreases s.len(),
{
    if i < s.len() - 1 && s.last().0 != s[i].0 {
        assert(s.drop_last()[i] == s[i]);
        lemma_served_on_entry(s.drop_last(), i);
    }
}

} // verus!
