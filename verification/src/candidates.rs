use vstd::prelude::*;

use crate::addr::{
    ipv4_of, parse_ipv4, spec_is_link_local, spec_is_loopback, HostAddr, is_link_local,
    is_loopback,
};

verus! {

// ---------------------------------------------------------------------------
// Host-candidate discovery.
//
// Interface addresses arrive as display text, one string per interface
// address. An address is usable when it is IPv4 and, normally, neither
// loopback nor link-local; when loopback selection is forced, only loopback
// addresses are usable. Each usable address is paired with the session
// socket's port. The reported local address — the one stamped on inbound
// datagrams handed to the transport engine — is the last usable address
// encountered.
// ---------------------------------------------------------------------------

/// Whether a parsed quad may serve as a host candidate.
pub open spec fn eligible_octets(o: (u8, u8, u8, u8), force_loopback: bool) -> bool {
    if force_loopback {
        spec_is_loopback(o.0, o.1, o.2, o.3)
    } else {
        !spec_is_loopback(o.0, o.1, o.2, o.3) && !spec_is_link_local(o.0, o.1, o.2, o.3)
    }
}

/// The candidate a single interface address contributes, if any.
pub open spec fn spec_candidate_of(s: Seq<char>, port: u16, force_loopback: bool) -> Option<
    HostAddr,
> {
    match ipv4_of(s) {
        None => None,
        Some(o) => if eligible_octets(o, force_loopback) {
            Some(HostAddr { a: o.0, b: o.1, c: o.2, d: o.3, port })
        } else {
            None
        },
    }
}

/// The candidates contributed by a list of interface addresses, in encounter
/// order.
pub open spec fn candidate_seq(addrs: Seq<Seq<char>>, port: u16, force_loopback: bool) -> Seq<
    HostAddr,
>
    decreases addrs.len(),
{
    if addrs.len() == 0 {
        Seq::empty()
    } else {
        let rest = candidate_seq(addrs.drop_last(), port, force_loopback);
        match spec_candidate_of(addrs.last(), port, force_loopback) {
            None => rest,
            Some(h) => rest.push(h),
        }
    }
}

/// The candidate set submitted to the transport engine, with the reported
/// local address (the last usable address encountered).
pub struct CandidateSet {
    pub list: Vec<HostAddr>,
    pub reported: HostAddr,
}

/// One interface address string to its candidate, if usable.
pub fn candidate_of(s: &str, port: u16, force_loopback: bool) -> (r: Option<HostAddr>)
    ensures
        r == spec_candidate_of(s@, port, force_loopback),
{
    match parse_ipv4(s) {
        None => None,
        Some((a, b, c, d)) => {
            let ok = if force_loopback {
                is_loopback(a, b, c, d)
            } else {
                !is_loopback(a, b, c, d) && !is_link_local(a, b, c, d)
            };
            if ok {
                Some(HostAddr { a, b, c, d, port })
            } else {
                None
            }
        },
    }
}

/// Filter interface addresses into the candidate set. Returns `None` exactly
/// when no interface address is usable.
pub fn select_candidates(addrs: &Vec<String>, port: u16, force_loopback: bool) -> (r: Option<
    CandidateSet,
>)
    ensures
        match r {
            Some(cs) => {
                &&& cs.list@ == candidate_seq(addrs.deep_view(), port, force_loopback)
                &&& cs.list@.len() > 0
                &&& cs.reported == cs.list@.last()
            },
            None => candidate_seq(addrs.deep_view(), port, force_loopback).len() == 0,
        },
{
    let ghost all = addrs.deep_view();
    let mut list: Vec<HostAddr> = Vec::new();
    let mut i: usize = 0;
    while i < addrs.len()
        invariant
            i <= addrs.len(),
            all == addrs.deep_view(),
            all.len() == addrs@.len(),
            forall|k: int| 0 <= k < addrs@.len() ==> all[k] == addrs@[k]@,
            list@ == candidate_seq(all.take(i as int), port, force_loopback),
        decreases addrs.len() - i,
    {
        let ghost prefix = all.take(i as int);
        match candidate_of(addrs[i].as_str(), port, force_loopback) {
            None => {},
            Some(h) => {
                list.push(h);
            },
        }
        proof {
            assert(all.take(i + 1).drop_last() =~= prefix);
            assert(all.take(i + 1).last() == all[i as int]);
        }
        i = i + 1;
    }
    proof {
        assert(all.take(addrs@.len() as int) =~= all);
    }
    if list.len() == 0 {
        None
    } else {
        let reported = *&list[list.len() - 1];
        Some(CandidateSet { list, reported })
    }
}

/// Every candidate carries the socket's port, and no candidate is loopback or
/// link-local unless loopback selection was forced — in which case every
/// candidate is loopback.
pub proof fn lemma_candidates_filtered(addrs: Seq<Seq<char>>, port: u16, force_loopback: bool)
    ensures
        forall|i: int|
            0 <= i < candidate_seq(addrs, port, force_loopback).len() ==> {
                let h = #[trigger] candidate_seq(addrs, port, force_loopback)[i];
                &&& h.port == port
                &&& !force_loopback ==> !spec_is_loopback(h.a, h.b, h.c, h.d)
                    && !spec_is_link_local(h.a, h.b, h.c, h.d)
                &&& force_loopback ==> spec_is_loopback(h.a, h.b, h.c, h.d)
            },
    decreases addrs.len(),
{
    if addrs.len() > 0 {
        lemma_candidates_filtered(addrs.drop_last(), port, force_loopback);
        let rest = candidate_seq(addrs.drop_last(), port, force_loopback);
        let whole = candidate_seq(addrs, port, force_loopback);
        assert forall|i: int| 0 <= i < whole.len() implies {
            let h = #[trigger] whole[i];
            &&& h.port == port
            &&& !force_loopback ==> !spec_is_loopback(h.a, h.b, h.c, h.d) && !spec_is_link_local(
                h.a,
                h.b,
                h.c,
                h.d,
            )
            &&& force_loopback ==> spec_is_loopback(h.a, h.b, h.c, h.d)
        } by {
            if i < rest.len() {
                assert(whole[i] == rest[i]);
            }
        }
    }
}

} // verus!
