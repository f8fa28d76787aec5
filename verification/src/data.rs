//! Record types carried by every probe: static site metadata, fixed at
//! rewrite time, and the per-thread dynamic record maintained by the runtime
//! helper.

use vstd::prelude::*;

verus! {

/// Site-identifying record embedded literally in every synthesised probe call.
#[derive(Clone, Debug, PartialEq, Eq)]
pub struct StaticData {
    pub absolute_path: String,
    pub description: String,
    pub ast_depth: u128,
    pub source_file: String,
    pub lines_begin: u128,
    pub lines_end: u128,
}

/// Mathematical image of a `StaticData` value.
#[verifier::ext_equal]
pub struct StaticDataV {
    pub absolute_path: Seq<char>,
    pub description: Seq<char>,
    pub ast_depth: u128,
    pub source_file: Seq<char>,
    pub lines_begin: u128,
    pub lines_end: u128,
}

impl View for StaticData {
    type V = StaticDataV;

    open spec fn view(&self) -> StaticDataV {
        StaticDataV {
            absolute_path: self.absolute_path@,
            description: self.description@,
            ast_depth: self.ast_depth,
            source_file: self.source_file@,
            lines_begin: self.lines_begin,
            lines_end: self.lines_end,
        }
    }
}

impl StaticData {
    /// Builds the site record from its parts.
    pub fn new(
        absolute_path: &str,
        description: &str,
        ast_depth: u128,
        source_file: &str,
        lines_begin: u128,
        lines_end: u128,
    ) -> (r: StaticData)
        ensures
            r@ == (StaticDataV {
                absolute_path: absolute_path@,
                description: description@,
                ast_depth,
                source_file: source_file@,
                lines_begin,
                lines_end,
            }),
    {
        StaticData {
            absolute_path: absolute_path.to_owned(),
            description: description.to_owned(),
            ast_depth,
            source_file: source_file.to_owned(),
            lines_begin,
            lines_end,
        }
    }
}

/// Per-thread dynamic record: a monotonic counter and a timestamp, plus the
/// identity of the emitting process and thread.
#[derive(Clone, Debug)]
pub struct DynData {
    pub system_time: u64,
    pub counter: u128,
    pub pid: u32,
    pub thread_id: String,
    pub machine_id: String,
}

/// Mathematical image of a `DynData` value.
#[verifier::ext_equal]
pub struct DynDataV {
    pub system_time: u64,
    pub counter: u128,
    pub pid: u32,
    pub thread_id: Seq<char>,
    pub machine_id: Seq<char>,
}

impl View for DynData {
    type V = DynDataV;

    open spec fn view(&self) -> DynDataV {
        DynDataV {
            system_time: self.system_time,
            counter: self.counter,
            pid: self.pid,
            thread_id: self.thread_id@,
            machine_id: self.machine_id@,
        }
    }
}

/// Relies on time::precise_time_ns: nanoseconds of a high-resolution counter
/// since an unspecified epoch. The value depends on the clock, so nothing is
/// promised of it.
#[verifier::external_body]
fn now_ns() -> u64 {
    time::precise_time_ns()
}

impl DynData {
    /// Builds the dynamic record for one thread, with the counter at zero and
    /// the timestamp taken from the high-resolution clock. The caller supplies
    /// the process and thread identity.
    pub fn new(machine_id: &str, pid: u32, thread_id: &str) -> (r: DynData)
        ensures
            r@.counter == 0,
            r@.pid == pid,
            r@.thread_id == thread_id@,
            r@.machine_id == machine_id@,
    {
        DynData {
            system_time: now_ns(),
            counter: 0,
            pid,
            thread_id: thread_id.to_owned(),
            machine_id: machine_id.to_owned(),
        }
    }

    /// One probe emission: the counter advances by exactly one and the
    /// timestamp is refreshed; the identity fields are untouched.
    pub fn update(&mut self)
        requires
            old(self).counter < u128::MAX,
        ensures
            final(self).counter == old(self).counter + 1,
            final(self)@.pid == old(self)@.pid,
            final(self)@.thread_id == old(self)@.thread_id,
            final(self)@.machine_id == old(self)@.machine_id,
    {
        self.counter = self.counter + 1;
        self.system_time = now_ns();
    }
}

} // verus!
