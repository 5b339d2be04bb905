use vstd::prelude::*;

verus! {

/// True iff `a` and `b` hold the same characters.
pub fn same_text(a: &str, b: &str) -> (r: bool)
    ensures
        r == (a@ == b@),
{
    let n = a.unicode_len();
    if n != b.unicode_len() {
        return false;
    }
    let mut i: usize = 0;
    while i < n
        invariant
            i <= n,
            n == a@.len(),
            n == b@.len(),
            forall|j: int| 0 <= j < i ==> a@[j] == b@[j],
        decreases n - i,
    {
        if a.get_char(i) != b.get_char(i) {
            return false;
        }
        i = i + 1;
    }
    assert(a@ =~= b@);
    true
}

/// True iff some string in `v` holds the characters `s`.
pub open spec fn holds(v: Seq<String>, s: Seq<char>) -> bool {
    exists|i: int| 0 <= i < v.len() && (#[trigger] v[i])@ == s
}

fn find_text(v: &Vec<String>, s: &str) -> (r: Option<usize>)
    ensures
        r matches Some(i) ==> i < v@.len() && v@[i as int]@ == s@,
        r is None ==> !holds(v@, s@),
{
    let mut i: usize = 0;
    while i < v.len()
        invariant
            i <= v@.len(),
            forall|j: int| 0 <= j < i ==> (#[trigger] v@[j])@ != s@,
        decreases v.len() - i,
    {
        if same_text(v[i].as_str(), s) {
            return Some(i);
        }
        i = i + 1;
    }
    None
}

/// The proxy's view of its upstream servers and of its clients' request
/// counts in the current minute.
///
/// The dead upstreams form a set of addresses, and each client address has
/// one count: `client_ips[i]` goes with `request_counts[i]` (see `wf`).
/// They are `Vec`s because vstd has no key model for `String`, so nothing
/// could be proved of a `HashSet<String>` or `HashMap<String, usize>`.
pub struct ProxyState {
    pub upstream_addresses: Vec<String>,
    pub dead_upstreams: Vec<String>,
    pub max_requests_per_minute: usize,
    pub client_ips: Vec<String>,
    pub request_counts: Vec<usize>,
}

impl ProxyState {
    /// Each client has one count.
    pub open spec fn wf(&self) -> bool {
        &&& self.client_ips@.len() == self.request_counts@.len()
        &&& forall|j: int, k: int|
            0 <= j < self.client_ips@.len() && 0 <= k < self.client_ips@.len() && j != k
                ==> (#[trigger] self.client_ips@[j])@ != (#[trigger] self.client_ips@[k])@
    }

    /// The count of `ip` after one more request, saturating at the maximum.
    pub open spec fn next_count(&self, ip: Seq<char>) -> nat {
        if self.count_of(ip) < usize::MAX {
            self.count_of(ip) + 1
        } else {
            usize::MAX as nat
        }
    }

    /// The request count of the client `ip` (0 if it has made none).
    pub open spec fn count_of(&self, ip: Seq<char>) -> nat {
        if holds(self.client_ips@, ip) {
            let i = choose|i: int|
                0 <= i < self.client_ips@.len() && (#[trigger] self.client_ips@[i])@ == ip;
            self.request_counts@[i] as nat
        } else {
            0
        }
    }

    /// A proxy to `upstream_addresses`, all of them taken as alive.
    pub fn new(upstream_addresses: Vec<String>, max_requests_per_minute: usize) -> (r: ProxyState)
        ensures
            r.wf(),
            r.upstream_addresses == upstream_addresses,
            r.dead_upstreams@.len() == 0,
            r.client_ips@.len() == 0,
            r.max_requests_per_minute == max_requests_per_minute,
    {
        ProxyState {
            upstream_addresses,
            dead_upstreams: Vec::new(),
            max_requests_per_minute,
            client_ips: Vec::new(),
            request_counts: Vec::new(),
        }
    }

    /// The indices of the upstream addresses not marked dead, in order.
    pub fn live_upstreams(&self) -> (r: Vec<usize>)
        ensures
            forall|k: int| 0 <= k < r@.len() ==> #[trigger] r@[k] < self.upstream_addresses@.len()
                && !holds(self.dead_upstreams@, self.upstream_addresses@[r@[k] as int]@),
            forall|i: int|
                0 <= i < self.upstream_addresses@.len() && !holds(
                    self.dead_upstreams@,
                    #[trigger] self.upstream_addresses@[i]@,
                ) ==> r@.contains(i as usize),
            forall|k: int, l: int| 0 <= k < l < r@.len() ==> r@[k] < r@[l],
    {
        let mut live: Vec<usize> = Vec::new();
        let mut i: usize = 0;
        while i < self.upstream_addresses.len()
            invariant
                i <= self.upstream_addresses@.len(),
                forall|k: int| 0 <= k < live@.len() ==> #[trigger] live@[k] < i
                    && !holds(self.dead_upstreams@, self.upstream_addresses@[live@[k] as int]@),
                forall|j: int|
                    0 <= j < i && !holds(
                        self.dead_upstreams@,
                        #[trigger] self.upstream_addresses@[j]@,
                    ) ==> live@.contains(j as usize),
                forall|k: int, l: int| 0 <= k < l < live@.len() ==> live@[k] < live@[l],
            decreases self.upstream_addresses.len() - i,
        {
            let found = find_text(&self.dead_upstreams, self.upstream_addresses[i].as_str());
            if let Some(d) = found {
                assert(self.dead_upstreams@[d as int]@ == self.upstream_addresses@[i as int]@);
            }
            if found.is_none() {
                let ghost before = live@;
                live.push(i);
                assert(live@[live@.len() - 1] == i);
                assert forall|j: int|
                    0 <= j < i && !holds(
                        self.dead_upstreams@,
                        #[trigger] self.upstream_addresses@[j]@,
                    ) implies live@.contains(j as usize) by {
                    let k = choose|k: int| 0 <= k < before.len() && before[k] == j as usize;
                    assert(live@[k] == j as usize);
                }
            }
            i = i + 1;
        }
        live
    }

    /// Marks `addr` dead: no new connection goes to it.
    pub fn mark_dead(&mut self, addr: &str)
        ensures
            final(self).upstream_addresses == old(self).upstream_addresses,
            final(self).client_ips == old(self).client_ips,
            final(self).request_counts == old(self).request_counts,
            final(self).max_requests_per_minute == old(self).max_requests_per_minute,
            holds(final(self).dead_upstreams@, addr@),
            forall|s: Seq<char>| s != addr@ ==> (holds(final(self).dead_upstreams@, s) == holds(
                old(self).dead_upstreams@,
                s,
            )),
    {
        if find_text(&self.dead_upstreams, addr).is_none() {
            let ghost before = self.dead_upstreams@;
            self.dead_upstreams.push(String::from_str(addr));
            assert(self.dead_upstreams@.last()@ == addr@);
            assert forall|s: Seq<char>| s != addr@ implies (holds(self.dead_upstreams@, s) == holds(
                before,
                s,
            )) by {
                if holds(before, s) {
                    let k = choose|k: int| 0 <= k < before.len() && (#[trigger] before[k])@ == s;
                    assert(self.dead_upstreams@[k] == before[k]);
                }
                if holds(self.dead_upstreams@, s) {
                    let k = choose|k: int|
                        0 <= k < self.dead_upstreams@.len() && (#[trigger] self.dead_upstreams@[k])@
                            == s;
                    assert(k < before.len());
                    assert(before[k] == self.dead_upstreams@[k]);
                }
            }
        }
    }

    /// Marks `addr` alive again after a health check it passed.
    pub fn mark_alive(&mut self, addr: &str)
        ensures
            final(self).upstream_addresses == old(self).upstream_addresses,
            final(self).client_ips == old(self).client_ips,
            final(self).request_counts == old(self).request_counts,
            final(self).max_requests_per_minute == old(self).max_requests_per_minute,
            !holds(final(self).dead_upstreams@, addr@),
            forall|s: Seq<char>| s != addr@ ==> (holds(final(self).dead_upstreams@, s) == holds(
                old(self).dead_upstreams@,
                s,
            )),
    {
        let mut kept: Vec<String> = Vec::new();
        let mut i: usize = 0;
        while i < self.dead_upstreams.len()
            invariant
                i <= self.dead_upstreams@.len(),
                !holds(kept@, addr@),
                forall|s: Seq<char>| s != addr@ ==> (holds(kept@, s) == holds(
                    self.dead_upstreams@.subrange(0, i as int),
                    s,
                )),
            decreases self.dead_upstreams.len() - i,
        {
            let ghost pre = self.dead_upstreams@.subrange(0, i as int);
            let ghost next = self.dead_upstreams@.subrange(0, i + 1);
            let ghost before = kept@;
            let keep = !same_text(self.dead_upstreams[i].as_str(), addr);
            assert(next[i as int] == self.dead_upstreams@[i as int]);
            if keep {
                kept.push(self.dead_upstreams[i].clone());
            }
            assert forall|s: Seq<char>| s != addr@ implies (holds(kept@, s) == holds(next, s)) by {
                if holds(pre, s) {
                    let k = choose|k: int| 0 <= k < pre.len() && (#[trigger] pre[k])@ == s;
                    assert(next[k] == pre[k]);
                }
                if holds(next, s) {
                    let k = choose|k: int| 0 <= k < next.len() && (#[trigger] next[k])@ == s;
                    if k < pre.len() {
                        assert(pre[k] == next[k]);
                    } else {
                        assert(kept@[kept@.len() - 1]@ == s);
                    }
                }
                if holds(before, s) {
                    let k = choose|k: int| 0 <= k < before.len() && (#[trigger] before[k])@ == s;
                    assert(kept@[k] == before[k]);
                }
                if holds(kept@, s) {
                    let k = choose|k: int| 0 <= k < kept@.len() && (#[trigger] kept@[k])@ == s;
                    if k < before.len() {
                        assert(before[k] == kept@[k]);
                    } else {
                        assert(next[i as int]@ == s);
                    }
                }
            }
            assert(!holds(kept@, addr@)) by {
                if holds(kept@, addr@) {
                    let k = choose|k: int| 0 <= k < kept@.len() && (#[trigger] kept@[k])@ == addr@;
                    if k < before.len() {
                        assert(before[k] == kept@[k]);
                    }
                }
            }
            i = i + 1;
        }
        assert(self.dead_upstreams@.subrange(0, i as int) =~= self.dead_upstreams@);
        self.dead_upstreams = kept;
    }

    /// Counts one more request from `ip` in the current minute. Returns true
    /// iff the request may go on: no limit is set (0), or the count is within it.
    pub fn record_request(&mut self, ip: &str) -> (r: bool)
        requires
            old(self).wf(),
        ensures
            final(self).wf(),
            final(self).upstream_addresses == old(self).upstream_addresses,
            final(self).dead_upstreams == old(self).dead_upstreams,
            final(self).max_requests_per_minute == old(self).max_requests_per_minute,
            final(self).count_of(ip@) == old(self).next_count(ip@),
            r == (old(self).max_requests_per_minute == 0 || old(self).next_count(ip@)
                <= old(self).max_requests_per_minute),
    {
        let count = match find_text(&self.client_ips, ip) {
            Some(i) => {
                proof {
                    let k = choose|k: int|
                        0 <= k < self.client_ips@.len() && (#[trigger] self.client_ips@[k])@ == ip@;
                    assert(k == i as int);
                }
                let c = self.request_counts[i];
                let next = c.saturating_add(1);
                self.request_counts.set(i, next);
                proof {
                    let k = choose|k: int|
                        0 <= k < self.client_ips@.len() && (#[trigger] self.client_ips@[k])@ == ip@;
                    assert(k == i as int);
                }
                next
            },
            None => {
                let ghost before = self.client_ips@;
                self.client_ips.push(String::from_str(ip));
                self.request_counts.push(1);
                proof {
                    let n = before.len() as int;
                    assert(self.client_ips@[n]@ == ip@);
                    assert forall|j: int, k: int|
                        0 <= j < self.client_ips@.len() && 0 <= k < self.client_ips@.len() && j != k
                            implies (#[trigger] self.client_ips@[j])@
                            != (#[trigger] self.client_ips@[k])@ by {
                        if j < n && k < n {
                            assert(before[j] == self.client_ips@[j]);
                            assert(before[k] == self.client_ips@[k]);
                        } else if j < n {
                            assert(before[j] == self.client_ips@[j]);
                        } else if k < n {
                            assert(before[k] == self.client_ips@[k]);
                        }
                    }
                    let k = choose|k: int|
                        0 <= k < self.client_ips@.len() && (#[trigger] self.client_ips@[k])@ == ip@;
                    assert(k == n);
                }
                1
            },
        };
        let max = self.max_requests_per_minute;
        !(count > max && max > 0)
    }

    /// Starts a new minute: every client's count goes back to 0.
    pub fn clear_counts(&mut self)
        ensures
            final(self).wf(),
            final(self).client_ips@.len() == 0,
            final(self).upstream_addresses == old(self).upstream_addresses,
            final(self).dead_upstreams == old(self).dead_upstreams,
            final(self).max_requests_per_minute == old(self).max_requests_per_minute,
    {
        self.client_ips = Vec::new();
        self.request_counts = Vec::new();
    }
}

} // verus!
