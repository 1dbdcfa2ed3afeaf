//! The filter: a conjunction of independent predicates on one connection,
//! and the selection it makes from a sequence of them.

use vstd::prelude::*;
use crate::resolver::{attributed, resolve, ProcessEntry, ProcessSocketIndex};
use crate::schemas::{
    address_text, proto_text, AddressFamily, Connection, FilterOptions, SocketEntry, SocketState,
};
use crate::text::{bytes_as_chars, dec_bytes, decimal_bytes, eq_ignore_case, lower_text, text_is};

verus! {

/// Whether a connection meets every predicate that the options hold.
///
/// The protocol is compared without regard to ASCII case. A remote address or
/// port is compared with the text of the peer, and only where there is a
/// peer. A pid is compared only where the connection has one.
pub open spec fn matches(c: Connection, o: FilterOptions) -> bool {
    &&& (o.by_proto matches Some(p) ==> lower_text(p@) == lower_text(proto_text(c.proto)))
    &&& (o.by_remote_address matches Some(a) ==> c.spec_has_remote() && a@ == bytes_as_chars(
        address_text(c.remote.address),
    ))
    &&& (o.by_remote_port matches Some(p) ==> c.spec_has_remote() && p@ == bytes_as_chars(
        dec_bytes(c.remote.port as nat),
    ))
    &&& (o.by_local_port matches Some(p) ==> p@ == bytes_as_chars(dec_bytes(c.local.port as nat)))
    &&& (o.by_program matches Some(p) ==> p@ == c.program@)
    &&& (o.by_pid matches Some(p) ==> c.pid@.len() > 0 && p@ == c.pid@)
    &&& (o.by_open ==> c.spec_has_remote())
    &&& (o.by_listen ==> c.state == SocketState::Listen)
    &&& (o.exclude_ipv6 ==> c.spec_family() != AddressFamily::V6)
}

/// The connections of `s` that meet the options, in their order.
pub open spec fn filtered(s: Seq<Connection>, o: FilterOptions) -> Seq<Connection>
    decreases s.len(),
{
    if s.len() == 0 {
        Seq::empty()
    } else if matches(s.last(), o) {
        filtered(s.drop_last(), o).push(s.last())
    } else {
        filtered(s.drop_last(), o)
    }
}

/// The connections of `s` that are not IPv6, in their order.
pub open spec fn without_v6(s: Seq<Connection>) -> Seq<Connection>
    decreases s.len(),
{
    if s.len() == 0 {
        Seq::empty()
    } else if s.last().spec_family() != AddressFamily::V6 {
        without_v6(s.drop_last()).push(s.last())
    } else {
        without_v6(s.drop_last())
    }
}

/// The options `o` with the exclusion of IPv6 switched off.
pub open spec fn with_v6(o: FilterOptions) -> FilterOptions {
    FilterOptions {
        by_proto: o.by_proto,
        by_remote_address: o.by_remote_address,
        by_remote_port: o.by_remote_port,
        by_local_port: o.by_local_port,
        by_program: o.by_program,
        by_pid: o.by_pid,
        by_open: o.by_open,
        by_listen: o.by_listen,
        exclude_ipv6: false,
    }
}

/// Evaluates the options on one connection.
pub fn matches_filter(c: &Connection, o: &FilterOptions) -> (r: bool)
    ensures
        r == matches(*c, *o),
{
    if o.exclude_ipv6 && c.family() == AddressFamily::V6 {
        return false;
    }
    if o.by_listen && c.state != SocketState::Listen {
        return false;
    }
    if o.by_open && !c.has_remote() {
        return false;
    }
    match &o.by_proto {
        Some(p) => {
            if !eq_ignore_case(p.as_str(), c.proto.name()) {
                return false;
            }
        },
        None => {},
    }
    match &o.by_remote_address {
        Some(a) => {
            if !c.has_remote() {
                return false;
            }
            let t: Vec<u8> = c.remote.address.text();
            if !text_is(a.as_str(), &t) {
                return false;
            }
        },
        None => {},
    }
    match &o.by_remote_port {
        Some(p) => {
            if !c.has_remote() {
                return false;
            }
            let t: Vec<u8> = decimal_bytes(c.remote.port as u64);
            if !text_is(p.as_str(), &t) {
                return false;
            }
        },
        None => {},
    }
    match &o.by_local_port {
        Some(p) => {
            let t: Vec<u8> = decimal_bytes(c.local.port as u64);
            if !text_is(p.as_str(), &t) {
                return false;
            }
        },
        None => {},
    }
    match &o.by_program {
        Some(p) => {
            if *p != c.program {
                return false;
            }
        },
        None => {},
    }
    match &o.by_pid {
        Some(p) => {
            if c.pid.as_str().unicode_len() == 0 || *p != c.pid {
                return false;
            }
        },
        None => {},
    }
    true
}

/// Selects the connections that meet the options, keeping their order.
pub fn filter_connections(all: &Vec<Connection>, o: &FilterOptions) -> (r: Vec<Connection>)
    ensures
        r@ == filtered(all@, *o),
{
    let mut out: Vec<Connection> = Vec::new();
    let mut i: usize = 0;
    while i < all.len()
        invariant
            0 <= i <= all.len(),
            out@ == filtered(all@.take(i as int), *o),
        decreases all.len() - i,
    {
        proof {
            let t = all@.take(i as int + 1);
            assert(t.drop_last() =~= all@.take(i as int));
            assert(t.last() == all@[i as int]);
        }
        if matches_filter(&all[i], o) {
            out.push(all[i].duplicate());
        }
        i = i + 1;
    }
    proof {
        assert(all@.take(all.len() as int) =~= all@);
    }
    out
}

/// Whether `all` is the attribution of `entries`: one connection for each
/// entry, in the entries' order.
pub open spec fn resolved(
    entries: Seq<SocketEntry>,
    all: Seq<Connection>,
    index: Seq<ProcessEntry>,
) -> bool {
    &&& all.len() == entries.len()
    &&& forall|i: int| 0 <= i < entries.len() ==> attributed(#[trigger] entries[i], all[i], index)
}

/// The visible connections of one snapshot: every entry attributed, then
/// those selected that meet the options. Each of them meets the options, and
/// none names a program without a pid.
pub fn get_all_connections(
    entries: &Vec<SocketEntry>,
    index: &ProcessSocketIndex,
    options: &FilterOptions,
) -> (r: Vec<Connection>)
    ensures
        exists|all: Seq<Connection>| #[trigger]
            resolved(entries@, all, index@) && r@ == filtered(all, *options),
        forall|i: int| 0 <= i < r@.len() ==> matches(#[trigger] r@[i], *options),
        forall|i: int| 0 <= i < r@.len() ==> (#[trigger] r@[i]).spec_well_attributed(),
{
    let all: Vec<Connection> = resolve(entries, index);
    proof {
        assert(resolved(entries@, all@, index@));
        lemma_selection_is_of_the_sequence(all@, *options);
    }
    filter_connections(&all, options)
}

/// The selection holds only connections of the sequence, and only such as
/// meet the options.
pub proof fn lemma_selection_is_of_the_sequence(s: Seq<Connection>, o: FilterOptions)
    ensures
        forall|i: int|
            0 <= i < filtered(s, o).len() ==> matches(#[trigger] filtered(s, o)[i], o)
                && s.contains(filtered(s, o)[i]),
    decreases s.len(),
{
    if s.len() > 0 {
        lemma_selection_is_of_the_sequence(s.drop_last(), o);
        let rest = filtered(s.drop_last(), o);
        assert forall|i: int| 0 <= i < filtered(s, o).len() implies matches(
            #[trigger] filtered(s, o)[i],
            o,
        ) && s.contains(filtered(s, o)[i]) by {
            if i < rest.len() {
                let j = choose|j: int| 0 <= j < s.drop_last().len() && s.drop_last()[j] == rest[i];
                assert(s[j] == rest[i]);
            } else {
                assert(s[s.len() - 1] == s.last());
            }
        }
    }
}

/// Options that hold no predicate select every connection: the selection is
/// the sequence itself.
pub proof fn lemma_no_options_select_all(s: Seq<Connection>)
    ensures
        filtered(s, FilterOptions::spec_none()) == s,
    decreases s.len(),
{
    if s.len() > 0 {
        lemma_no_options_select_all(s.drop_last());
        assert(s.drop_last().push(s.last()) =~= s);
    } else {
        assert(s =~= Seq::empty());
    }
}

/// Excluding IPv6 only takes away: with it the selection is what the same
/// options select without it, less the IPv6 connections, whatever the other
/// predicates are.
pub proof fn lemma_exclude_ipv6_subtracts(s: Seq<Connection>, o: FilterOptions)
    requires
        o.exclude_ipv6,
    ensures
        filtered(s, o) == without_v6(filtered(s, with_v6(o))),
        forall|i: int|
            0 <= i < filtered(s, o).len() ==> (#[trigger] filtered(s, o)[i]).spec_family()
                != AddressFamily::V6,
    decreases s.len(),
{
    if s.len() > 0 {
        lemma_exclude_ipv6_subtracts(s.drop_last(), o);
        let rest = filtered(s.drop_last(), with_v6(o));
        if matches(s.last(), with_v6(o)) {
            assert(rest.push(s.last()).drop_last() =~= rest);
        }
    }
}

/// With no other predicate set, excluding IPv6 leaves exactly the
/// connections that are not IPv6.
pub proof fn lemma_exclude_ipv6_alone(s: Seq<Connection>, o: FilterOptions)
    requires
        o.exclude_ipv6,
        with_v6(o) == FilterOptions::spec_none(),
    ensures
        filtered(s, o) == without_v6(s),
{
    lemma_exclude_ipv6_subtracts(s, o);
    lemma_no_options_select_all(s);
}

/// A listening socket without a peer meets a filter that asks only for
/// listeners, and meets no filter that asks for open connections.
pub proof fn lemma_listener_is_not_open(c: Connection, listen: FilterOptions, open: FilterOptions)
    requires
        c.state == SocketState::Listen,
        !c.spec_has_remote(),
        listen.by_listen,
        !listen.by_open,
        !listen.exclude_ipv6,
        listen.by_proto is None,
        listen.by_remote_address is None,
        listen.by_remote_port is None,
        listen.by_local_port is None,
        listen.by_program is None,
        listen.by_pid is None,
        open.by_open,
    ensures
        matches(c, listen),
        !matches(c, open),
{
}

/// An unattributed connection meets the filter that asks for nothing, and
/// no filter on a pid or on a program that is not empty: a connection
/// without a pid meets neither, and one without a program name meets none on
/// a program.
pub proof fn lemma_unattributed_never_matches(c: Connection, o: FilterOptions)
    requires
        c.spec_well_attributed(),
    ensures
        (c.pid@.len() == 0 && o.by_pid is Some && o.by_pid.unwrap()@.len() > 0) ==> !matches(c, o),
        (c.pid@.len() == 0 && o.by_program is Some && o.by_program.unwrap()@.len() > 0)
            ==> !matches(c, o),
        (c.program@.len() == 0 && o.by_program is Some && o.by_program.unwrap()@.len() > 0)
            ==> !matches(c, o),
        matches(c, FilterOptions::spec_none()),
{
}

/// Under a filter on a program that is not empty, every connection shown has
/// that program and a pid.
pub proof fn lemma_program_filter_shows_owners(c: Connection, o: FilterOptions)
    requires
        c.spec_well_attributed(),
        matches(c, o),
        o.by_program is Some,
        o.by_program.unwrap()@.len() > 0,
    ensures
        c.program@ == o.by_program.unwrap()@,
        c.pid@.len() > 0,
{
}

} // verus!
