//! The join of socket entries with the processes that hold them, by socket
//! handle.

use vstd::prelude::*;
use crate::schemas::{Connection, SocketEntry};
use crate::text::{dec_value, parse_decimal};

verus! {

/// One socket held by one process.
#[derive(Debug, Clone, PartialEq, Eq)]
pub struct ProcessEntry {
    pub handle: u64,
    pub pid: String,
    pub program: String,
}

/// The sockets that the inspected processes hold. Where a handle was recorded
/// more than once, the record made last stands. Every record names its
/// process: none has an empty pid.
#[derive(Debug, PartialEq, Eq)]
pub struct ProcessSocketIndex {
    entries: Vec<ProcessEntry>,
}

impl View for ProcessSocketIndex {
    type V = Seq<ProcessEntry>;

    /// The records, in the order in which they were made.
    closed spec fn view(&self) -> Seq<ProcessEntry> {
        self.entries@
    }
}

/// The record that stands for `handle` among `s`, if there is one.
pub open spec fn lookup(s: Seq<ProcessEntry>, handle: u64) -> Option<ProcessEntry>
    decreases s.len(),
{
    if s.len() == 0 {
        None
    } else if s.last().handle == handle {
        Some(s.last())
    } else {
        lookup(s.drop_last(), handle)
    }
}

/// The connection that an entry becomes: its own fields, with the pid and the
/// program of the process recorded for its handle, or both empty.
pub open spec fn attributed(e: SocketEntry, c: Connection, index: Seq<ProcessEntry>) -> bool {
    &&& c.proto == e.proto
    &&& c.local == e.local
    &&& c.remote == e.remote
    &&& c.state == e.state
    &&& match lookup(index, e.handle) {
        Some(p) => c.pid@ == p.pid@ && c.program@ == p.program@,
        None => c.pid@.len() == 0 && c.program@.len() == 0,
    }
}

/// The text that names a socket among a process's descriptors: `socket:[`,
/// the handle in decimal, `]`.
pub open spec fn socket_link_prefix() -> Seq<u8> {
    seq![115u8, 111u8, 99u8, 107u8, 101u8, 116u8, 58u8, 91u8]
}

/// The handle that a descriptor's target names, where the target is a socket.
pub open spec fn socket_link_handle(target: Seq<u8>) -> Option<u64> {
    if target.len() >= 10 && target.subrange(0, 8) == socket_link_prefix() && target.last() == 93u8 {
        match dec_value(target.subrange(8, target.len() - 1)) {
            Some(n) => if n <= u64::MAX {
                Some(n as u64)
            } else {
                None
            },
            None => None,
        }
    } else {
        None
    }
}

/// Reads the socket handle from the target of a process's descriptor; `None`
/// where the descriptor is not a socket.
pub fn socket_handle_of_link(target: &Vec<u8>) -> (r: Option<u64>)
    ensures
        r == socket_link_handle(target@),
{
    let n: usize = target.len();
    if n < 10 {
        return None;
    }
    if !(target[0] == 115 && target[1] == 111 && target[2] == 99 && target[3] == 107 && target[4]
        == 101 && target[5] == 116 && target[6] == 58 && target[7] == 91) {
        proof {
            let p = target@.subrange(0, 8);
            assert(p[0] == target@[0] && p[1] == target@[1] && p[2] == target@[2] && p[3]
                == target@[3] && p[4] == target@[4] && p[5] == target@[5] && p[6] == target@[6]
                && p[7] == target@[7]);
        }
        return None;
    }
    proof {
        assert(target@.subrange(0, 8) =~= socket_link_prefix());
    }
    if target[n - 1] != 93 {
        return None;
    }
    let mut digits: Vec<u8> = Vec::new();
    let mut i: usize = 8;
    while i < n - 1
        invariant
            8 <= i <= n - 1,
            n == target.len(),
            digits@ == target@.subrange(8, i as int),
        decreases n - i,
    {
        digits.push(target[i]);
        proof {
            assert(digits@ =~= target@.subrange(8, i as int + 1));
        }
        i = i + 1;
    }
    parse_decimal(&digits)
}

/// One record for each target that is a socket, in the targets' order.
pub open spec fn socket_records(targets: Seq<Vec<u8>>, pid: String, program: String) -> Seq<
    ProcessEntry,
>
    decreases targets.len(),
{
    if targets.len() == 0 {
        Seq::empty()
    } else {
        let rest = socket_records(targets.drop_last(), pid, program);
        match socket_link_handle(targets.last()@) {
            Some(handle) => rest.push((ProcessEntry { handle, pid, program })),
            None => rest,
        }
    }
}

/// The records that one process adds to the index: one for each of its
/// descriptors whose target is a socket, in the descriptors' order; none
/// where the pid is empty.
pub open spec fn sockets_of(targets: Seq<Vec<u8>>, pid: String, program: String) -> Seq<
    ProcessEntry,
> {
    if pid@.len() == 0 {
        Seq::empty()
    } else {
        socket_records(targets, pid, program)
    }
}

/// Whether a name is that of a process: decimal digits, at least one.
pub open spec fn is_process_name(name: Seq<u8>) -> bool {
    name.len() > 0 && forall|i: int| 0 <= i < name.len() ==> 48 <= #[trigger] name[i] <= 57
}

/// Whether an entry of the process directory is a process.
pub fn is_process_id(name: &Vec<u8>) -> (r: bool)
    ensures
        r == is_process_name(name@),
{
    if name.len() == 0 {
        return false;
    }
    let mut i: usize = 0;
    while i < name.len()
        invariant
            0 <= i <= name.len(),
            forall|j: int| 0 <= j < i ==> 48 <= #[trigger] name@[j] <= 57,
        decreases name.len() - i,
    {
        if !(48 <= name[i] && name[i] <= 57) {
            return false;
        }
        i = i + 1;
    }
    true
}

impl ProcessSocketIndex {
    #[verifier::type_invariant]
    spec fn every_record_has_a_pid(&self) -> bool {
        forall|i: int| 0 <= i < self.entries@.len() ==> (#[trigger] self.entries@[i]).pid@.len() > 0
    }

    /// Records every socket among the descriptors of one process. A
    /// descriptor that is no socket adds nothing, and a process without a
    /// pid is not recorded.
    pub fn record_process(&mut self, pid: &String, program: &String, targets: &Vec<Vec<u8>>)
        ensures
            final(self)@ == old(self)@ + sockets_of(targets@, *pid, *program),
    {
        if pid.as_str().is_empty() {
            proof {
                assert(self@ =~= old(self)@ + Seq::<ProcessEntry>::empty());
            }
            return ;
        }
        proof {
            use_type_invariant(&*self);
        }
        let mut records: Vec<ProcessEntry> = Vec::new();
        std::mem::swap(&mut self.entries, &mut records);
        proof {
            assert(records@ =~= old(self)@ + socket_records(targets@.take(0), *pid, *program));
        }
        let mut i: usize = 0;
        while i < targets.len()
            invariant
                0 <= i <= targets.len(),
                pid@.len() > 0,
                records@ == old(self)@ + socket_records(targets@.take(i as int), *pid, *program),
                forall|j: int| 0 <= j < records@.len() ==> (#[trigger] records@[j]).pid@.len() > 0,
            decreases targets.len() - i,
        {
            proof {
                let t = targets@.take(i as int + 1);
                assert(t.drop_last() =~= targets@.take(i as int));
                assert(t.last() == targets@[i as int]);
            }
            let ghost rest = socket_records(targets@.take(i as int), *pid, *program);
            match socket_handle_of_link(&targets[i]) {
                Some(handle) => {
                    let entry = ProcessEntry { handle, pid: pid.clone(), program: program.clone() };
                    records.push(entry);
                    proof {
                        assert(records@ =~= old(self)@ + rest.push(entry));
                    }
                },
                None => {},
            }
            i = i + 1;
        }
        proof {
            assert(targets@.take(targets.len() as int) =~= targets@);
        }
        std::mem::swap(&mut self.entries, &mut records);
    }

    /// An index that holds no socket.
    pub fn new() -> (r: ProcessSocketIndex)
        ensures
            r@.len() == 0,
    {
        ProcessSocketIndex { entries: Vec::new() }
    }

    /// Records that the process `pid`, named `program`, holds `handle`, and
    /// says whether it did: a record without a pid is not made.
    pub fn record(&mut self, handle: u64, pid: String, program: String) -> (recorded: bool)
        ensures
            recorded == (pid@.len() > 0),
            recorded ==> final(self)@ == old(self)@.push((ProcessEntry { handle, pid, program })),
            recorded ==> lookup(final(self)@, handle) == Some(
                (ProcessEntry { handle, pid, program }),
            ),
            !recorded ==> final(self)@ == old(self)@,
            forall|h: u64| h != handle ==> lookup(final(self)@, h) == lookup(old(self)@, h),
    {
        if pid.as_str().is_empty() {
            return false;
        }
        proof {
            use_type_invariant(&*self);
        }
        let mut records: Vec<ProcessEntry> = Vec::new();
        std::mem::swap(&mut self.entries, &mut records);
        records.push(ProcessEntry { handle, pid, program });
        std::mem::swap(&mut self.entries, &mut records);
        proof {
            assert(final(self)@.drop_last() =~= old(self)@);
        }
        true
    }

    /// The records, in the order in which they were made. Each has a pid.
    pub fn entries(&self) -> (r: &Vec<ProcessEntry>)
        ensures
            r@ == self@,
            forall|i: int| 0 <= i < r@.len() ==> (#[trigger] r@[i]).pid@.len() > 0,
    {
        proof {
            use_type_invariant(self);
        }
        &self.entries
    }

    /// The position of the record that stands for `handle`.
    pub fn find(&self, handle: u64) -> (r: Option<usize>)
        ensures
            r is Some <==> lookup(self@, handle) is Some,
            r matches Some(i) ==> i < self@.len() && lookup(self@, handle) == Some(self@[i as int]),
    {
        let mut found: Option<usize> = None;
        let mut i: usize = 0;
        while i < self.entries.len()
            invariant
                0 <= i <= self.entries.len(),
                found is Some <==> lookup(self.entries@.take(i as int), handle) is Some,
                found matches Some(k) ==> k < i && lookup(self.entries@.take(i as int), handle)
                    == Some(self.entries@[k as int]),
            decreases self.entries.len() - i,
        {
            proof {
                let t = self.entries@.take(i as int + 1);
                assert(t.drop_last() =~= self.entries@.take(i as int));
                assert(t.last() == self.entries@[i as int]);
            }
            if self.entries[i].handle == handle {
                found = Some(i);
            }
            i = i + 1;
        }
        proof {
            assert(self.entries@.take(self.entries.len() as int) =~= self.entries@);
        }
        found
    }
}

/// Attributes one entry.
pub fn resolve_one(e: &SocketEntry, index: &ProcessSocketIndex) -> (r: Connection)
    ensures
        attributed(*e, r, index@),
        r.spec_well_attributed(),
{
    proof {
        use_type_invariant(index);
    }
    match index.find(e.handle) {
        Some(i) => Connection {
            proto: e.proto,
            local: e.local,
            remote: e.remote,
            state: e.state,
            pid: index.entries[i].pid.clone(),
            program: index.entries[i].program.clone(),
        },
        None => Connection {
            proto: e.proto,
            local: e.local,
            remote: e.remote,
            state: e.state,
            pid: String::new(),
            program: String::new(),
        },
    }
}

/// Attributes every entry: one connection for each, in the entries' order.
/// An entry whose handle the index does not hold keeps an empty pid and an
/// empty program; none is left out. No connection has a program without a
/// pid.
pub fn resolve(entries: &Vec<SocketEntry>, index: &ProcessSocketIndex) -> (r: Vec<Connection>)
    ensures
        r@.len() == entries@.len(),
        forall|i: int| 0 <= i < entries@.len() ==> attributed(#[trigger] entries@[i], r@[i], index@),
        forall|i: int| 0 <= i < r@.len() ==> (#[trigger] r@[i]).spec_well_attributed(),
{
    let mut out: Vec<Connection> = Vec::new();
    let mut i: usize = 0;
    while i < entries.len()
        invariant
            0 <= i <= entries.len(),
            out@.len() == i,
            forall|j: int| 0 <= j < i ==> attributed(#[trigger] entries@[j], out@[j], index@),
            forall|j: int| 0 <= j < i ==> (#[trigger] out@[j]).spec_well_attributed(),
        decreases entries.len() - i,
    {
        let c: Connection = resolve_one(&entries[i], index);
        out.push(c);
        i = i + 1;
    }
    out
}

} // verus!
