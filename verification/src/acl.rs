//! The allowed-host ACL: allowing and disallowing hosts, and the
//! reconcile that drives the list to a requested set, disconnecting every
//! host that fell out of it.
//!
//! The removal path first snapshots the current list and only then
//! mutates it: the foreign target frees an entry on removal, so the names
//! must be owned before the list changes.

use vstd::prelude::*;
use vstd::string::*;
use crate::error::Error;
use crate::strings::{contains_nul, has_nul, str_eq};
use crate::subsystem::{spec_acl_wf, NvmfSubsystem};

verus! {

/// Allowing a host: idempotent, appends an absent host at the end.
pub open spec fn spec_add_host(acl: Seq<Seq<char>>, h: Seq<char>) -> Seq<Seq<char>> {
    if acl.contains(h) {
        acl
    } else {
        acl.push(h)
    }
}

/// Allowing each host of a list in order.
pub open spec fn spec_add_all(acl: Seq<Seq<char>>, hs: Seq<Seq<char>>) -> Seq<Seq<char>>
    decreases hs.len(),
{
    if hs.len() == 0 {
        acl
    } else {
        spec_add_host(spec_add_all(acl, hs.drop_last()), hs.last())
    }
}

/// The index of a host in the ACL; under `spec_acl_wf` it is unique.
pub open spec fn spec_host_idx(acl: Seq<Seq<char>>, h: Seq<char>) -> int {
    choose|i: int| 0 <= i < acl.len() && acl[i] == h
}

/// Disallowing a host: removes its entry when present.
pub open spec fn spec_remove_host(acl: Seq<Seq<char>>, h: Seq<char>) -> Seq<Seq<char>> {
    if acl.contains(h) {
        acl.remove(spec_host_idx(acl, h))
    } else {
        acl
    }
}

/// Disallowing each host of a list in order.
pub open spec fn spec_remove_all(acl: Seq<Seq<char>>, hs: Seq<Seq<char>>) -> Seq<Seq<char>>
    decreases hs.len(),
{
    if hs.len() == 0 {
        acl
    } else {
        spec_remove_host(spec_remove_all(acl, hs.drop_last()), hs.last())
    }
}

/// Membership in a concatenation is membership in either part.
proof fn lemma_contains_concat(a: Seq<Seq<char>>, b: Seq<Seq<char>>, x: Seq<char>)
    ensures
        (a + b).contains(x) == (a.contains(x) || b.contains(x)),
{
    if (a + b).contains(x) {
        let k = choose|k: int| 0 <= k < (a + b).len() && (a + b)[k] == x;
        if k < a.len() {
            assert(a[k] == x);
        } else {
            assert(b[k - a.len()] == x);
        }
    }
    if a.contains(x) {
        let k = choose|k: int| 0 <= k < a.len() && a[k] == x;
        assert((a + b)[k] == x);
    }
    if b.contains(x) {
        let k = choose|k: int| 0 <= k < b.len() && b[k] == x;
        assert((a + b)[a.len() + k] == x);
    }
}

/// Membership after a push.
proof fn lemma_contains_push(s: Seq<Seq<char>>, e: Seq<char>, x: Seq<char>)
    ensures
        s.push(e).contains(x) == (s.contains(x) || x == e),
{
    assert(s.push(e) =~= s + seq![e]);
    lemma_contains_concat(s, seq![e], x);
    if x == e {
        assert(seq![e][0] == x);
    }
    if seq![e].contains(x) {
        let k = choose|k: int| 0 <= k < seq![e].len() && seq![e][k] == x;
        assert(x == e);
    }
}

/// What allowing one host does to membership and well-formedness.
proof fn lemma_add_host_props(acl: Seq<Seq<char>>, h: Seq<char>)
    requires
        spec_acl_wf(acl),
        !has_nul(h),
    ensures
        spec_acl_wf(spec_add_host(acl, h)),
        forall|x: Seq<char>|
            #[trigger] spec_add_host(acl, h).contains(x) == (acl.contains(x) || x == h),
        spec_add_host(acl, h).contains(h),
{
    assert forall|x: Seq<char>|
        #[trigger] spec_add_host(acl, h).contains(x) == (acl.contains(x) || x == h) by {
        lemma_contains_push(acl, h, x);
    }
    if !acl.contains(h) {
        let out = acl.push(h);
        assert forall|i: int, j: int| 0 <= i < j < out.len() implies out[i] != out[j] by {
            if j == out.len() - 1 {
                assert(acl[i] == out[i]);
                assert(acl.contains(out[i]) == acl.contains(out[i]));
                if out[i] == h {
                    assert(acl.contains(h));
                }
            }
        }
    }
}

/// What allowing a list of hosts does to membership and well-formedness.
proof fn lemma_add_all_props(acl: Seq<Seq<char>>, hs: Seq<Seq<char>>)
    requires
        spec_acl_wf(acl),
        forall|j: int| 0 <= j < hs.len() ==> !has_nul(#[trigger] hs[j]),
    ensures
        spec_acl_wf(spec_add_all(acl, hs)),
        forall|x: Seq<char>|
            #[trigger] spec_add_all(acl, hs).contains(x) == (acl.contains(x) || hs.contains(x)),
    decreases hs.len(),
{
    if hs.len() == 0 {
        assert forall|x: Seq<char>|
            #[trigger] spec_add_all(acl, hs).contains(x) == (acl.contains(x) || hs.contains(
                x,
            )) by {
            if hs.contains(x) {
                let k = choose|k: int| 0 <= k < hs.len() && hs[k] == x;
            }
        }
    } else {
        lemma_add_all_props(acl, hs.drop_last());
        let base = spec_add_all(acl, hs.drop_last());
        lemma_add_host_props(base, hs.last());
        assert forall|x: Seq<char>|
            #[trigger] spec_add_all(acl, hs).contains(x) == (acl.contains(x) || hs.contains(
                x,
            )) by {
            assert(hs =~= hs.drop_last().push(hs.last()));
            lemma_contains_push(hs.drop_last(), hs.last(), x);
        }
    }
}

/// What disallowing one host does to membership and well-formedness.
proof fn lemma_remove_host_props(acl: Seq<Seq<char>>, h: Seq<char>)
    requires
        spec_acl_wf(acl),
    ensures
        spec_acl_wf(spec_remove_host(acl, h)),
        !spec_remove_host(acl, h).contains(h),
        forall|x: Seq<char>|
            x != h ==> #[trigger] spec_remove_host(acl, h).contains(x) == acl.contains(x),
        acl.contains(h) ==> spec_remove_host(acl, h).len() == acl.len() - 1,
        !acl.contains(h) ==> spec_remove_host(acl, h) == acl,
{
    if acl.contains(h) {
        let idx = spec_host_idx(acl, h);
        assert(0 <= idx < acl.len() && acl[idx] == h);
        let rem = acl.remove(idx);
        acl.remove_ensures(idx);
        assert forall|k: int| 0 <= k < rem.len() implies rem[k] != h by {
            if k < idx {
                assert(rem[k] == acl[k]);
            } else {
                assert(rem[k] == acl[k + 1]);
            }
        }
        if rem.contains(h) {
            let k = choose|k: int| 0 <= k < rem.len() && rem[k] == h;
        }
        assert forall|x: Seq<char>|
            x != h implies #[trigger] rem.contains(x) == acl.contains(x) by {
            if rem.contains(x) {
                let k = choose|k: int| 0 <= k < rem.len() && rem[k] == x;
                if k < idx {
                    assert(acl[k] == x);
                } else {
                    assert(acl[k + 1] == x);
                }
            }
            if acl.contains(x) {
                let k = choose|k: int| 0 <= k < acl.len() && acl[k] == x;
                if k < idx {
                    assert(rem[k] == x);
                } else {
                    assert(k != idx);
                    assert(rem[k - 1] == x);
                }
            }
        }
        assert forall|i: int, j: int| 0 <= i < j < rem.len() implies rem[i] != rem[j] by {
            let oi: int = if i < idx {
                i
            } else {
                i + 1
            };
            let oj: int = if j < idx {
                j
            } else {
                j + 1
            };
            assert(rem[i] == acl[oi]);
            assert(rem[j] == acl[oj]);
        }
        assert forall|i: int| 0 <= i < rem.len() implies !has_nul(#[trigger] rem[i]) by {
            if i < idx {
                assert(rem[i] == acl[i]);
            } else {
                assert(rem[i] == acl[i + 1]);
            }
        }
    }
}

/// Allowing a host and then disallowing it leaves it absent from the ACL.
pub proof fn lemma_allow_then_disallow(acl: Seq<Seq<char>>, h: Seq<char>)
    requires
        spec_acl_wf(acl),
        !has_nul(h),
    ensures
        !spec_remove_host(spec_add_host(acl, h), h).contains(h),
{
    lemma_add_host_props(acl, h);
    lemma_remove_host_props(spec_add_host(acl, h), h);
}

/// Scans a host list for a name.
fn hosts_list_contains(hosts: &Vec<String>, h: &str) -> (r: bool)
    ensures
        r == hosts.deep_view().contains(h@),
{
    let mut i: usize = 0;
    while i < hosts.len()
        invariant
            i <= hosts@.len(),
            forall|j: int| 0 <= j < i ==> hosts.deep_view()[j] != h@,
        decreases hosts@.len() - i,
    {
        if str_eq(hosts[i].as_str(), h) {
            proof {
                assert(hosts.deep_view()[i as int] == h@);
            }
            return true;
        }
        i += 1;
    }
    proof {
        if hosts.deep_view().contains(h@) {
            let k = choose|k: int|
                0 <= k < hosts.deep_view().len() && hosts.deep_view()[k] == h@;
        }
    }
    false
}

impl NvmfSubsystem {
    /// The hosts allowed to connect, as owned strings.
    pub fn allowed_hosts(&self) -> (r: Vec<String>)
        ensures
            r.deep_view() == self.acl(),
    {
        let mut out: Vec<String> = Vec::new();
        let mut i: usize = 0;
        while i < self.allowed_hosts.len()
            invariant
                i <= self.allowed_hosts@.len(),
                out@.len() == i,
                forall|j: int| 0 <= j < i ==> out@[j]@ == #[trigger] self.acl()[j],
            decreases self.allowed_hosts@.len() - i,
        {
            out.push(self.allowed_hosts[i].clone());
            i += 1;
        }
        proof {
            assert(out.deep_view() =~= self.acl());
        }
        out
    }

    /// Allows a host to connect. Idempotent; a name with an interior NUL
    /// is rejected.
    pub fn allow_host(&mut self, host: &str) -> (r: Result<(), Error>)
        requires
            old(self).wf(),
        ensures
            final(self).wf(),
            old(self).eq_except_acl(*final(self)),
            (r is Ok) == !has_nul(host@),
            r is Ok ==> final(self).acl() == spec_add_host(old(self).acl(), host@),
            r is Ok ==> final(self).acl().contains(host@),
            r is Err ==> *final(self) == *old(self) && (match r {
                Err(Error::HostCstrNul { host: h }) => h@ == host@,
                _ => false,
            }),
    {
        if contains_nul(host) {
            return Err(Error::HostCstrNul { host: String::from_str(host) });
        }
        let mut i: usize = 0;
        while i < self.allowed_hosts.len()
            invariant
                i <= self.allowed_hosts@.len(),
                *self == *old(self),
                old(self).wf(),
                !has_nul(host@),
                forall|j: int| 0 <= j < i ==> #[trigger] self.acl()[j] != host@,
            decreases self.allowed_hosts@.len() - i,
        {
            if str_eq(self.allowed_hosts[i].as_str(), host) {
                proof {
                    assert(self.acl()[i as int] == host@);
                    assert(self.acl().contains(host@));
                }
                return Ok(());
            }
            i += 1;
        }
        proof {
            if self.acl().contains(host@) {
                let k = choose|k: int| 0 <= k < self.acl().len() && self.acl()[k] == host@;
            }
            assert(!self.acl().contains(host@));
            lemma_add_host_props(self.acl(), host@);
        }
        self.allowed_hosts.push(String::from_str(host));
        proof {
            assert(final(self).acl() =~= old(self).acl().push(host@));
        }
        Ok(())
    }

    /// Allows each host of a list, stopping at the first rejected name.
    pub fn allow_hosts(&mut self, hosts: &Vec<String>) -> (r: Result<(), Error>)
        requires
            old(self).wf(),
        ensures
            final(self).wf(),
            old(self).eq_except_acl(*final(self)),
            (r is Ok) == (forall|j: int|
                0 <= j < hosts.deep_view().len() ==> !has_nul(#[trigger] hosts.deep_view()[j])),
            r is Ok ==> final(self).acl() == spec_add_all(old(self).acl(), hosts.deep_view()),
            r is Err ==> (match r {
                Err(Error::HostCstrNul { host: h }) => exists|k: int|
                    {
                        &&& 0 <= k < hosts.deep_view().len()
                        &&& h@ == hosts.deep_view()[k]
                        &&& has_nul(h@)
                        &&& final(self).acl() == spec_add_all(
                            old(self).acl(),
                            hosts.deep_view().take(k),
                        )
                    },
                _ => false,
            }),
    {
        let mut i: usize = 0;
        while i < hosts.len()
            invariant
                i <= hosts@.len(),
                self.wf(),
                old(self).wf(),
                old(self).eq_except_acl(*self),
                self.acl() == spec_add_all(old(self).acl(), hosts.deep_view().take(i as int)),
                forall|j: int| 0 <= j < i ==> !has_nul(#[trigger] hosts.deep_view()[j]),
            decreases hosts@.len() - i,
        {
            proof {
                assert(hosts.deep_view()[i as int] == hosts@[i as int]@);
            }
            match self.allow_host(hosts[i].as_str()) {
                Ok(_) => {},
                Err(e) => {
                    return Err(e);
                },
            }
            proof {
                let hs = hosts.deep_view();
                assert(hs.take(i + 1).drop_last() =~= hs.take(i as int));
                assert(hs.take(i + 1).last() == hs[i as int]);
            }
            i += 1;
        }
        proof {
            assert(hosts.deep_view().take(hosts.deep_view().len() as int) =~= hosts.deep_view());
        }
        Ok(())
    }

    /// Disallows a host. Idempotent; a name with an interior NUL is
    /// rejected. Afterwards the host is absent from the ACL.
    pub fn disallow_host(&mut self, host: &str) -> (r: Result<(), Error>)
        requires
            old(self).wf(),
        ensures
            final(self).wf(),
            old(self).eq_except_acl(*final(self)),
            (r is Ok) == !has_nul(host@),
            r is Ok ==> final(self).acl() == spec_remove_host(old(self).acl(), host@),
            r is Ok ==> !final(self).acl().contains(host@),
            r is Ok ==> (forall|x: Seq<char>|
                x != host@ ==> #[trigger] final(self).acl().contains(x) == old(
                    self,
                ).acl().contains(x)),
            r is Err ==> *final(self) == *old(self) && (match r {
                Err(Error::HostCstrNul { host: h }) => h@ == host@,
                _ => false,
            }),
    {
        if contains_nul(host) {
            return Err(Error::HostCstrNul { host: String::from_str(host) });
        }
        proof {
            lemma_remove_host_props(old(self).acl(), host@);
        }
        let mut i: usize = 0;
        while i < self.allowed_hosts.len()
            invariant
                i <= self.allowed_hosts@.len(),
                *self == *old(self),
                old(self).wf(),
                !has_nul(host@),
                forall|j: int| 0 <= j < i ==> #[trigger] self.acl()[j] != host@,
            decreases self.allowed_hosts@.len() - i,
        {
            if str_eq(self.allowed_hosts[i].as_str(), host) {
                proof {
                    assert(self.acl()[i as int] == host@);
                    assert(self.acl().contains(host@));
                    let k = spec_host_idx(old(self).acl(), host@);
                    assert(old(self).acl()[k] == host@);
                    assert(k == i as int);
                }
                self.allowed_hosts.remove(i);
                proof {
                    assert(final(self).acl() =~= old(self).acl().remove(i as int));
                    lemma_remove_host_props(old(self).acl(), host@);
                }
                return Ok(());
            }
            i += 1;
        }
        proof {
            if self.acl().contains(host@) {
                let k = choose|k: int| 0 <= k < self.acl().len() && self.acl()[k] == host@;
            }
            assert(!self.acl().contains(host@));
        }
        Ok(())
    }

    /// Disallows each host of a list, stopping at the first rejected name.
    pub fn disallow_hosts(&mut self, hosts: &Vec<String>) -> (r: Result<(), Error>)
        requires
            old(self).wf(),
        ensures
            final(self).wf(),
            old(self).eq_except_acl(*final(self)),
            (r is Ok) == (forall|j: int|
                0 <= j < hosts.deep_view().len() ==> !has_nul(#[trigger] hosts.deep_view()[j])),
            r is Ok ==> final(self).acl() == spec_remove_all(old(self).acl(), hosts.deep_view()),
            r is Err ==> (match r {
                Err(Error::HostCstrNul { host: h }) => exists|k: int|
                    {
                        &&& 0 <= k < hosts.deep_view().len()
                        &&& h@ == hosts.deep_view()[k]
                        &&& has_nul(h@)
                        &&& final(self).acl() == spec_remove_all(
                            old(self).acl(),
                            hosts.deep_view().take(k),
                        )
                    },
                _ => false,
            }),
    {
        let mut i: usize = 0;
        while i < hosts.len()
            invariant
                i <= hosts@.len(),
                self.wf(),
                old(self).wf(),
                old(self).eq_except_acl(*self),
                self.acl() == spec_remove_all(old(self).acl(), hosts.deep_view().take(i as int)),
                forall|j: int| 0 <= j < i ==> !has_nul(#[trigger] hosts.deep_view()[j]),
            decreases hosts@.len() - i,
        {
            proof {
                assert(hosts.deep_view()[i as int] == hosts@[i as int]@);
            }
            match self.disallow_host(hosts[i].as_str()) {
                Ok(_) => {},
                Err(e) => {
                    return Err(e);
                },
            }
            proof {
                let hs = hosts.deep_view();
                assert(hs.take(i + 1).drop_last() =~= hs.take(i as int));
                assert(hs.take(i + 1).last() == hs[i as int]);
            }
            i += 1;
        }
        proof {
            assert(hosts.deep_view().take(hosts.deep_view().len() as int) =~= hosts.deep_view());
        }
        Ok(())
    }

    /// Requests the target to tear down the connections of this host.
    /// `status` is the acknowledgement the target delivered: zero on
    /// success. The ACL is not changed.
    pub fn disconnect_host(&self, host: &str, status: i32) -> (r: Result<(), Error>)
        ensures
            (r is Ok) == (!has_nul(host@) && status == 0),
            match r {
                Ok(_) => true,
                Err(Error::HostCstrNul { host: h }) => has_nul(host@) && h@ == host@,
                Err(Error::Subsystem { source, nqn, .. }) => !has_nul(host@) && status != 0
                    && source == status && nqn@ == host@,
                Err(_) => false,
            },
    {
        if contains_nul(host) {
            return Err(Error::HostCstrNul { host: String::from_str(host) });
        }
        if status != 0 {
            return Err(
                Error::Subsystem {
                    source: status,
                    nqn: String::from_str(host),
                    msg: String::from_str("Failed to disconnect host"),
                },
            );
        }
        Ok(())
    }

    /// Reconciles the ACL to the requested host set: allows every
    /// requested host, then disallows every host that is not requested
    /// and returns those as the hosts to disconnect, each exactly once.
    /// An empty request is deliberately a no-op.
    pub fn set_allowed_hosts(&mut self, hosts: &Vec<String>) -> (r: Result<Vec<String>, Error>)
        requires
            old(self).wf(),
        ensures
            final(self).wf(),
            old(self).eq_except_acl(*final(self)),
            hosts.deep_view().len() == 0 ==> *final(self) == *old(self),
            (r is Ok) == (hosts.deep_view().len() == 0 || (forall|j: int|
                0 <= j < hosts.deep_view().len() ==> !has_nul(#[trigger] hosts.deep_view()[j]))),
            match r {
                Ok(v) => {
                    &&& (hosts.deep_view().len() == 0 ==> v.deep_view().len() == 0)
                    &&& (hosts.deep_view().len() > 0 ==> {
                        &&& (forall|x: Seq<char>|
                            #[trigger] final(self).acl().contains(x) == hosts.deep_view().contains(
                                x,
                            ))
                        &&& (forall|x: Seq<char>|
                            #[trigger] v.deep_view().contains(x) == (old(self).acl().contains(x)
                                && !hosts.deep_view().contains(x)))
                        &&& spec_acl_wf(v.deep_view())
                    })
                },
                Err(e) => match e {
                    Error::HostCstrNul { host: h } => exists|k: int|
                        {
                            &&& 0 <= k < hosts.deep_view().len()
                            &&& h@ == hosts.deep_view()[k]
                            &&& has_nul(h@)
                            &&& final(self).acl() == spec_add_all(
                                old(self).acl(),
                                hosts.deep_view().take(k),
                            )
                        },
                    _ => false,
                },
            },
    {
        if hosts.len() == 0 {
            return Ok(Vec::new());
        }
        match self.allow_hosts(hosts) {
            Ok(_) => {},
            Err(e) => {
                return Err(e);
            },
        }
        let ghost hs = hosts.deep_view();
        proof {
            lemma_add_all_props(old(self).acl(), hs);
        }
        let current = self.allowed_hosts();
        let ghost current_acl = current.deep_view();
        let mut removed: Vec<String> = Vec::new();
        let n = current.len();
        let mut i: usize = 0;
        proof {
            assert(current_acl.take(0) =~= Seq::<Seq<char>>::empty());
            assert(current_acl.skip(0) =~= current_acl);
        }
        while i < n
            invariant
                i <= n,
                n == current_acl.len(),
                current.deep_view() == current_acl,
                current@.len() == n,
                hs == hosts.deep_view(),
                hs.len() > 0,
                forall|j: int| 0 <= j < hs.len() ==> !has_nul(#[trigger] hs[j]),
                spec_acl_wf(current_acl),
                forall|x: Seq<char>|
                    #[trigger] current_acl.contains(x) == (old(self).acl().contains(x)
                        || hs.contains(x)),
                self.wf(),
                old(self).wf(),
                old(self).eq_except_acl(*self),
                forall|x: Seq<char>|
                    #[trigger] self.acl().contains(x) == ((hs.contains(x) && current_acl.contains(
                        x,
                    )) || current_acl.skip(i as int).contains(x)),
                forall|x: Seq<char>|
                    #[trigger] removed.deep_view().contains(x) == (current_acl.take(
                        i as int,
                    ).contains(x) && !hs.contains(x)),
                spec_acl_wf(removed.deep_view()),
            decreases n - i,
        {
            let ghost pre_acl = self.acl();
            let ghost pre_removed = removed.deep_view();
            let h = &current[i];
            proof {
                assert(current_acl[i as int] == h@);
                assert(current_acl.skip(i as int) =~= seq![current_acl[i as int]]
                    + current_acl.skip(i + 1));
            }
            if !hosts_list_contains(hosts, h.as_str()) {
                proof {
                    assert(current_acl.skip(i as int)[0] == h@);
                    assert(current_acl.skip(i as int).contains(h@));
                    assert(self.acl().contains(h@));
                    assert(current_acl.contains(h@));
                }
                match self.disallow_host(h.as_str()) {
                    Ok(_) => {},
                    Err(e) => {
                        proof {
                            assert(false);
                        }
                        return Err(e);
                    },
                }
                removed.push(h.clone());
                proof {
                    assert(removed.deep_view() =~= pre_removed.push(h@));
                    // The host is gone; every other name is untouched.
                    assert forall|x: Seq<char>|
                        #[trigger] self.acl().contains(x) == ((hs.contains(x)
                            && current_acl.contains(x)) || current_acl.skip(i + 1).contains(
                            x,
                        )) by {
                        lemma_contains_concat(
                            seq![current_acl[i as int]],
                            current_acl.skip(i + 1),
                            x,
                        );
                        if x == h@ {
                            let s = current_acl.skip(i + 1);
                            if s.contains(h@) {
                                let k = choose|k: int| 0 <= k < s.len() && s[k] == h@;
                                assert(current_acl[i + 1 + k] == h@);
                            }
                        } else {
                            if seq![current_acl[i as int]].contains(x) {
                                let k = choose|k: int|
                                    0 <= k < 1 && seq![current_acl[i as int]][k] == x;
                            }
                        }
                    }
                    assert forall|x: Seq<char>|
                        #[trigger] removed.deep_view().contains(x) == (current_acl.take(
                            i + 1,
                        ).contains(x) && !hs.contains(x)) by {
                        lemma_contains_push(pre_removed, h@, x);
                        assert(current_acl.take(i + 1) =~= current_acl.take(i as int).push(
                            current_acl[i as int],
                        ));
                        lemma_contains_push(current_acl.take(i as int), current_acl[i as int], x);
                    }
                    // The pushed host was not yet collected.
                    assert(spec_acl_wf(removed.deep_view())) by {
                        if pre_removed.contains(h@) {
                            assert(current_acl.take(i as int).contains(h@));
                            let k = choose|k: int|
                                0 <= k < current_acl.take(i as int).len() && current_acl.take(
                                    i as int,
                                )[k] == h@;
                            assert(current_acl[k] == h@);
                        }
                        assert forall|a: int, b: int|
                            0 <= a < b < removed.deep_view().len() implies removed.deep_view()[a]
                            != removed.deep_view()[b] by {
                            if b == removed.deep_view().len() - 1 {
                                assert(removed.deep_view()[a] == pre_removed[a]);
                                if pre_removed[a] == h@ {
                                    assert(pre_removed.contains(h@));
                                }
                            } else {
                                assert(removed.deep_view()[a] == pre_removed[a]);
                                assert(removed.deep_view()[b] == pre_removed[b]);
                            }
                        }
                        assert forall|a: int|
                            0 <= a < removed.deep_view().len() implies !has_nul(
                            #[trigger] removed.deep_view()[a],
                        ) by {
                            if a < pre_removed.len() {
                                assert(removed.deep_view()[a] == pre_removed[a]);
                            } else {
                                assert(removed.deep_view()[a] == h@);
                                assert(current_acl.contains(h@));
                                let k = choose|k: int|
                                    0 <= k < current_acl.len() && current_acl[k] == h@;
                            }
                        }
                    }
                }
            } else {
                proof {
                    assert(hs.contains(h@));
                    assert forall|x: Seq<char>|
                        #[trigger] self.acl().contains(x) == ((hs.contains(x)
                            && current_acl.contains(x)) || current_acl.skip(i + 1).contains(
                            x,
                        )) by {
                        lemma_contains_concat(
                            seq![current_acl[i as int]],
                            current_acl.skip(i + 1),
                            x,
                        );
                        if x == h@ {
                            assert(current_acl.contains(h@));
                        } else {
                            if seq![current_acl[i as int]].contains(x) {
                                let k = choose|k: int|
                                    0 <= k < 1 && seq![current_acl[i as int]][k] == x;
                            }
                        }
                    }
                    assert forall|x: Seq<char>|
                        #[trigger] removed.deep_view().contains(x) == (current_acl.take(
                            i + 1,
                        ).contains(x) && !hs.contains(x)) by {
                        assert(current_acl.take(i + 1) =~= current_acl.take(i as int).push(
                            current_acl[i as int],
                        ));
                        lemma_contains_push(current_acl.take(i as int), current_acl[i as int], x);
                    }
                }
            }
            i += 1;
        }
        proof {
            assert(current_acl.skip(n as int) =~= Seq::<Seq<char>>::empty());
            assert(current_acl.take(n as int) =~= current_acl);
            assert forall|x: Seq<char>| #[trigger] self.acl().contains(x) == hs.contains(x) by {
                if current_acl.skip(n as int).contains(x) {
                    let k = choose|k: int|
                        0 <= k < current_acl.skip(n as int).len() && current_acl.skip(n as int)[k]
                            == x;
                }
            }
        }
        Ok(removed)
    }
}

} // verus!
