//! The ring of recent log lines that the log screen shows.

use std::collections::VecDeque;

use vstd::prelude::*;

verus! {

/// How many log lines are kept.
pub const MAX_ENTRIES: usize = 500;

#[derive(Clone, Debug)]
pub struct LogEntry {
    pub level: &'static str,
    pub text: String,
}

impl View for LogEntry {
    type V = (Seq<char>, Seq<char>);

    open spec fn view(&self) -> (Seq<char>, Seq<char>) {
        (self.level@, self.text@)
    }
}

/// The recent log lines, oldest first.
#[derive(Debug)]
pub struct LogBuffer {
    entries: VecDeque<LogEntry>,
}

impl View for LogBuffer {
    type V = Seq<(Seq<char>, Seq<char>)>;

    closed spec fn view(&self) -> Seq<(Seq<char>, Seq<char>)> {
        self.entries@.map_values(|e: LogEntry| e@)
    }
}

/// The lines after one more: the oldest make room so that at most
/// `MAX_ENTRIES` remain.
pub open spec fn log_after(lines: Seq<(Seq<char>, Seq<char>)>, line: (Seq<char>, Seq<char>)) -> Seq<
    (Seq<char>, Seq<char>),
> {
    if lines.len() >= MAX_ENTRIES {
        lines.skip(lines.len() - (MAX_ENTRIES - 1)).push(line)
    } else {
        lines.push(line)
    }
}

/// The lines after a run of lines is added, one at a time.
pub open spec fn log_run(lines: Seq<(Seq<char>, Seq<char>)>, added: Seq<(Seq<char>, Seq<char>)>) -> Seq<
    (Seq<char>, Seq<char>),
>
    decreases added.len(),
{
    if added.len() == 0 {
        lines
    } else {
        log_after(log_run(lines, added.drop_last()), added.last())
    }
}

/// The last `MAX_ENTRIES` lines of a sequence, or all of it if it is shorter.
pub open spec fn latest_lines(lines: Seq<(Seq<char>, Seq<char>)>) -> Seq<(Seq<char>, Seq<char>)> {
    if lines.len() <= MAX_ENTRIES {
        lines
    } else {
        lines.skip(lines.len() - MAX_ENTRIES)
    }
}

/// The log always holds the latest `MAX_ENTRIES` lines written to it, oldest
/// first: whatever is added, no more are kept and no recent one is lost.
pub proof fn lemma_log_keeps_latest(lines: Seq<(Seq<char>, Seq<char>)>, added: Seq<(Seq<char>, Seq<char>)>)
    requires
        lines.len() <= MAX_ENTRIES,
    ensures
        log_run(lines, added) == latest_lines(lines + added),
    decreases added.len(),
{
    if added.len() == 0 {
        assert(lines + added =~= lines);
    } else {
        let init = added.drop_last();
        let line = added.last();
        lemma_log_keeps_latest(lines, init);
        let prev = lines + init;
        assert(lines + added =~= prev.push(line));
        let l = latest_lines(prev);
        if prev.len() >= MAX_ENTRIES {
            assert(l.skip(l.len() - (MAX_ENTRIES - 1)).push(line) =~= latest_lines(prev.push(line)));
        } else {
            assert(l.push(line) =~= latest_lines(prev.push(line)));
        }
    }
}

impl LogBuffer {
    pub fn new() -> (r: LogBuffer)
        ensures
            r@ == Seq::<(Seq<char>, Seq<char>)>::empty(),
    {
        let r = LogBuffer { entries: VecDeque::new() };
        assert(r@ =~= Seq::<(Seq<char>, Seq<char>)>::empty());
        r
    }

    /// Adds a line, dropping the oldest ones beyond `MAX_ENTRIES`.
    pub fn push(&mut self, level: &'static str, text: String)
        ensures
            final(self)@ == log_after(old(self)@, (level@, text@)),
    {
        let ghost start = self@;
        while self.entries.len() >= MAX_ENTRIES
            invariant
                start == old(self)@,
                self@.len() <= start.len(),
                start.len() >= MAX_ENTRIES ==> self@.len() >= MAX_ENTRIES - 1 && self@ == start.skip(
                    start.len() - self@.len(),
                ),
                start.len() < MAX_ENTRIES ==> self@ == start,
            decreases self@.len(),
        {
            let ghost before = self@;
            assert(start.len() >= MAX_ENTRIES);
            self.entries.pop_front();
            assert(self@ =~= before.subrange(1, before.len() as int));
            assert(self@ =~= start.skip(start.len() - self@.len()));
        }
        let ghost kept = self@;
        self.entries.push_back(LogEntry { level, text });
        assert(self@ =~= kept.push((level@, text@)));
    }
}

/// A copy of the lines, oldest first.
pub fn entries(log: &LogBuffer) -> (r: Vec<LogEntry>)
    ensures
        r@.map_values(|e: LogEntry| e@) == log@,
{
    let mut r: Vec<LogEntry> = Vec::new();
    let n = log.entries.len();
    for i in 0..n
        invariant
            n == log.entries@.len(),
            r@.len() == i,
            forall|j: int| 0 <= j < i ==> (#[trigger] r@[j])@ == log.entries@[j]@,
    {
        let e = &log.entries[i];
        r.push(LogEntry { level: e.level, text: e.text.clone() });
    }
    assert(r@.map_values(|e: LogEntry| e@) =~= log@);
    r
}

/// Removes every line.
pub fn clear(log: &mut LogBuffer)
    ensures
        final(log)@ == Seq::<(Seq<char>, Seq<char>)>::empty(),
{
    log.entries.clear();
    assert(log@ =~= Seq::<(Seq<char>, Seq<char>)>::empty());
}

} // verus!
