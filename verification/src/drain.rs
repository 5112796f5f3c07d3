//! Which part of a growing output log is to be read next.
//!
//! While a process may still write, only complete lines are taken; once it is gone,
//! everything is. A log that has become shorter than what was read of it is never
//! read again from the beginning.
use crate::name::InstanceName;
use crate::supervisor::{with_cursor, Supervisor, SupervisorModel};
use vstd::prelude::*;

verus! {

/// Whether the writer of a log may still write.
#[derive(Clone, Copy, Debug, PartialEq, Eq, Structural)]
pub enum DrainMode {
    /// It may.
    MidRun,
    /// It is gone.
    Terminal,
}

/// What is to be read of a log.
#[derive(Debug, PartialEq, Eq)]
pub enum DrainPlan {
    /// Nothing: the log is shorter than what was read of it.
    Shrunk {
        /// Where to go on.
        new_cursor: u64,
    },
    /// Nothing yet.
    Nothing,
    /// A part of it.
    Consume {
        /// The part.
        range: std::ops::Range<usize>,
        /// Where to go on.
        new_cursor: u64,
    },
}

/// What is to be shown of a log that is followed.
#[derive(Debug, PartialEq, Eq)]
pub enum FollowPlan {
    /// Nothing: the log is shorter than what was shown of it.
    Shrunk {
        /// Where to go on.
        new_cursor: u64,
    },
    /// A part of it, perhaps empty.
    Consume {
        /// The part.
        range: std::ops::Range<usize>,
        /// Where to go on.
        new_cursor: u64,
    },
}

/// The length of the complete lines at the beginning of `bytes`: all up to and with
/// the last newline.
pub open spec fn complete_len(bytes: Seq<u8>) -> int
    decreases bytes.len(),
{
    if bytes.len() == 0 {
        0
    } else if bytes.last() == 10u8 {
        bytes.len() as int
    } else {
        complete_len(bytes.drop_last())
    }
}

/// How much of a log can be read from `cursor` on.
pub open spec fn consumable(bytes: Seq<u8>, cursor: int, mode: DrainMode) -> int {
    let tail = bytes.subrange(cursor, bytes.len() as int);
    match mode {
        DrainMode::Terminal => tail.len() as int,
        DrainMode::MidRun => complete_len(tail),
    }
}

/// Where reading goes on after a log was read from `cursor` on.
pub open spec fn next_cursor(bytes: Seq<u8>, cursor: int, mode: DrainMode) -> int {
    if cursor > bytes.len() {
        bytes.len() as int
    } else {
        cursor + consumable(bytes, cursor, mode)
    }
}

/// What is read of a log from `cursor` on.
pub open spec fn consumed(bytes: Seq<u8>, cursor: int, mode: DrainMode) -> Seq<u8> {
    if cursor > bytes.len() {
        Seq::empty()
    } else {
        bytes.subrange(cursor, next_cursor(bytes, cursor, mode))
    }
}

pub proof fn lemma_complete_len(bytes: Seq<u8>)
    ensures
        0 <= complete_len(bytes) <= bytes.len(),
        complete_len(bytes) > 0 ==> bytes[complete_len(bytes) - 1] == 10u8,
        forall|i: int| complete_len(bytes) <= i < bytes.len() ==> bytes[i] != 10u8,
    decreases bytes.len(),
{
    if bytes.len() > 0 && bytes.last() != 10u8 {
        lemma_complete_len(bytes.drop_last());
        assert forall|i: int| complete_len(bytes) <= i < bytes.len() implies bytes[i] != 10u8 by {
            if i < bytes.len() - 1 {
                assert(bytes.drop_last()[i] == bytes[i]);
            }
        }
    }
}

fn complete_from(bytes: &[u8], start: usize) -> (r: usize)
    requires
        start <= bytes@.len(),
    ensures
        r == complete_len(bytes@.subrange(start as int, bytes@.len() as int)),
        start + r <= bytes@.len(),
{
    let ghost tail = bytes@.subrange(start as int, bytes@.len() as int);
    let mut end: usize = bytes.len();
    assert(tail.take(end - start) =~= tail);
    while end > start && bytes[end - 1] != 10u8
        invariant
            start <= end <= bytes@.len(),
            tail == bytes@.subrange(start as int, bytes@.len() as int),
            complete_len(tail) == complete_len(tail.take(end - start)),
        decreases end,
    {
        assert(tail.take(end - start).last() == bytes@[end - 1]);
        assert(tail.take(end - start).drop_last() =~= tail.take(end - start - 1));
        end = end - 1;
    }
    if end > start {
        assert(tail.take(end - start).last() == bytes@[end - 1]);
    }
    end - start
}

/// Plan what is to be read of a log for usage.
pub fn plan_drain(bytes: &[u8], cursor: u64, mode: DrainMode) -> (r: DrainPlan)
    ensures
        match r {
            DrainPlan::Shrunk { new_cursor } => cursor > bytes@.len() && new_cursor == bytes@.len(),
            DrainPlan::Nothing => cursor <= bytes@.len() && consumable(
                bytes@,
                cursor as int,
                mode,
            ) == 0,
            DrainPlan::Consume { range, new_cursor } => {
                &&& cursor <= bytes@.len()
                &&& consumable(bytes@, cursor as int, mode) > 0
                &&& range.start == cursor
                &&& range.end == new_cursor
                &&& new_cursor == next_cursor(bytes@, cursor as int, mode)
                &&& new_cursor <= bytes@.len()
            },
        },
{
    let len: u64 = bytes.len() as u64;
    if cursor > len {
        return DrainPlan::Shrunk { new_cursor: len };
    }
    let start: usize = cursor as usize;
    let count: usize = match mode {
        DrainMode::Terminal => bytes.len() - start,
        DrainMode::MidRun => complete_from(bytes, start),
    };
    if count == 0 {
        return DrainPlan::Nothing;
    }
    DrainPlan::Consume { range: start..start + count, new_cursor: cursor + count as u64 }
}

/// Plan what is to be shown of a log that is followed: its complete lines.
pub fn plan_follow(bytes: &[u8], cursor: u64) -> (r: FollowPlan)
    ensures
        match r {
            FollowPlan::Shrunk { new_cursor } => cursor > bytes@.len() && new_cursor
                == bytes@.len(),
            FollowPlan::Consume { range, new_cursor } => {
                &&& cursor <= bytes@.len()
                &&& range.start == cursor
                &&& range.end == new_cursor
                &&& new_cursor == next_cursor(bytes@, cursor as int, DrainMode::MidRun)
                &&& new_cursor <= bytes@.len()
            },
        },
{
    let len: u64 = bytes.len() as u64;
    if cursor > len {
        return FollowPlan::Shrunk { new_cursor: len };
    }
    let start: usize = cursor as usize;
    let count: usize = complete_from(bytes, start);
    FollowPlan::Consume { range: start..start + count, new_cursor: cursor + count as u64 }
}

impl Supervisor {
    /// Plan what is to be read for usage of the output log of a supervised process,
    /// and note where reading goes on. Nothing is read of a process that is not
    /// supervised.
    pub fn drain_usage_for(&mut self, name: &InstanceName, bytes: &[u8], mode: DrainMode) -> (r:
        Option<std::ops::Range<usize>>)
        requires
            old(self).wf(),
        ensures
            final(self).wf(),
            !old(self)@.running.contains_key(name@) ==> r is None && final(self)@ == old(self)@,
            old(self)@.running.contains_key(name@) ==> {
                let cursor = old(self)@.running[name@].usage_cursor;
                &&& final(self)@ == (SupervisorModel {
                    running: with_cursor(
                        old(self)@.running,
                        name@,
                        next_cursor(bytes@, cursor as int, mode) as u64,
                    ),
                    ..old(self)@
                })
                &&& match r {
                    Some(range) => range.start <= range.end <= bytes@.len() && range.start < range.end
                        && bytes@.subrange(range.start as int, range.end as int) == consumed(
                        bytes@,
                        cursor as int,
                        mode,
                    ),
                    None => consumed(bytes@, cursor as int, mode).len() == 0,
                }
            },
    {
        let cursor: u64 = match self.supervised(name) {
            Some(s) => s.usage_cursor,
            None => {
                return None;
            },
        };
        proof {
            if cursor <= bytes@.len() {
                lemma_complete_len(bytes@.subrange(cursor as int, bytes@.len() as int));
            }
        }
        match plan_drain(bytes, cursor, mode) {
            DrainPlan::Shrunk { new_cursor } => {
                self.set_usage_cursor(name, new_cursor);
                None
            },
            DrainPlan::Nothing => {
                assert(self@.running =~= with_cursor(self@.running, name@, cursor));
                None
            },
            DrainPlan::Consume { range, new_cursor } => {
                self.set_usage_cursor(name, new_cursor);
                Some(range)
            },
        }
    }
}

/// Reading never runs past the end of the log and never goes back while the log
/// grows.
pub proof fn law_cursor_stays_in_the_log(bytes: Seq<u8>, cursor: int, mode: DrainMode)
    requires
        0 <= cursor,
    ensures
        0 <= next_cursor(bytes, cursor, mode) <= bytes.len(),
        cursor <= bytes.len() ==> cursor <= next_cursor(bytes, cursor, mode),
{
    if cursor <= bytes.len() {
        lemma_complete_len(bytes.subrange(cursor, bytes.len() as int));
    }
}

/// While the writer may still write, only whole lines are read: what is read is
/// empty or ends with a newline, and what is left holds none.
pub proof fn law_mid_run_reads_whole_lines(bytes: Seq<u8>, cursor: int)
    requires
        0 <= cursor <= bytes.len(),
    ensures
        ({
            let end = next_cursor(bytes, cursor, DrainMode::MidRun);
            &&& consumed(bytes, cursor, DrainMode::MidRun).len() > 0 ==> consumed(
                bytes,
                cursor,
                DrainMode::MidRun,
            ).last() == 10u8
            &&& forall|i: int| end <= i < bytes.len() ==> bytes[i] != 10u8
        }),
{
    let tail = bytes.subrange(cursor, bytes.len() as int);
    lemma_complete_len(tail);
    let end = next_cursor(bytes, cursor, DrainMode::MidRun);
    assert forall|i: int| end <= i < bytes.len() implies bytes[i] != 10u8 by {
        assert(tail[i - cursor] == bytes[i]);
    }
    if end > cursor {
        assert(bytes[end - 1] == tail[end - 1 - cursor]);
    }
}

/// Nothing is read twice and nothing is lost: reading a log while it grows, and to
/// its end once the writer is gone, reads exactly what was written after the first
/// cursor.
pub proof fn law_reads_partition_the_log(
    first: Seq<u8>,
    grown: Seq<u8>,
    cursor: int,
    mode: DrainMode,
)
    requires
        0 <= cursor <= first.len() <= grown.len(),
        first == grown.subrange(0, first.len() as int),
    ensures
        consumed(first, cursor, mode) + consumed(
            grown,
            next_cursor(first, cursor, mode),
            DrainMode::Terminal,
        ) == grown.subrange(cursor, grown.len() as int),
{
    law_cursor_stays_in_the_log(first, cursor, mode);
    let middle = next_cursor(first, cursor, mode);
    assert(consumed(first, cursor, mode) =~= grown.subrange(cursor, middle));
    assert(consumed(grown, middle, DrainMode::Terminal) =~= grown.subrange(
        middle,
        grown.len() as int,
    ));
    assert(grown.subrange(cursor, middle) + grown.subrange(middle, grown.len() as int)
        =~= grown.subrange(cursor, grown.len() as int));
}

/// Once everything is read, there is nothing more to read.
pub proof fn law_terminal_read_is_final(bytes: Seq<u8>, cursor: int, mode: DrainMode)
    requires
        0 <= cursor <= bytes.len(),
    ensures
        consumed(bytes, next_cursor(bytes, cursor, DrainMode::Terminal), mode).len() == 0,
{
    lemma_complete_len(bytes.subrange(bytes.len() as int, bytes.len() as int));
}

/// A log that has become shorter is not read again: nothing is read, and reading
/// goes on at its end.
pub proof fn law_shrunk_log_is_not_read_again(bytes: Seq<u8>, cursor: int, mode: DrainMode)
    requires
        cursor > bytes.len(),
    ensures
        consumed(bytes, cursor, mode).len() == 0,
        next_cursor(bytes, cursor, mode) == bytes.len(),
{
}

} // verus!
