//! The client mount check: the probes run on each node, how their output is
//! classified, the per-node worker that emits progress, and the aggregator
//! that owns the result matrix and decides when the live view ends.
use vstd::prelude::*;
use crate::shell::{escape, shell_quoted, with_timeout, wrap_timeout};
use crate::text::{decimal, has_prefix, push_decimal, push_text, starts_with, trim, trim_ws};
use crate::transport::ExecOutput;

verus! {

/// The probes run on each node: mount configured, client service active,
/// filesystem usable (`df`), listable, writable.
pub const PROBE_STEPS: usize = 5;

/// The probe whose success is "printed something" rather than a sentinel.
pub const USABLE_STEP: usize = 2;

/// The probe that writes and removes a scratch file with a random name.
pub const WRITE_STEP: usize = 4;

/// The classified result of one probe on one node.
pub enum Outcome {
    /// No result yet.
    Pending,
    Passed,
    Failed,
    /// Failure with the transport's description of it.
    FailedWith(String),
}

pub enum ProgressEvent {
    Step { node: usize, step: usize, outcome: Outcome },
    Done { node: usize },
}

/// A run's control state.
pub enum RunPhase {
    Running,
    Done,
    Cancelled,
}

// ---------------------------------------------------------------- classification

/// Success where the trimmed output begins with `OK`; any other output and
/// any transport failure is an error.
pub open spec fn sentinel_outcome(out: Result<ExecOutput, String>) -> Outcome {
    match out {
        Ok(o) => if has_prefix(trim_ws(o.stdout@), "OK"@) {
            Outcome::Passed
        } else {
            Outcome::Failed
        },
        Err(_) => Outcome::Failed,
    }
}

/// Success where the output holds anything but white space.
pub open spec fn usable_outcome(out: Result<ExecOutput, String>) -> Outcome {
    match out {
        Ok(o) => if trim_ws(o.stdout@).len() == 0 {
            Outcome::Failed
        } else {
            Outcome::Passed
        },
        Err(e) => Outcome::FailedWith(e),
    }
}

pub open spec fn step_outcome(step: nat, out: Result<ExecOutput, String>) -> Outcome {
    if step == USABLE_STEP {
        usable_outcome(out)
    } else {
        sentinel_outcome(out)
    }
}

pub fn pick_ok(out: Result<ExecOutput, String>) -> (r: Outcome)
    ensures
        r == sentinel_outcome(out),
{
    match out {
        Ok(o) => {
            if starts_with(trim(o.stdout.as_str()), "OK") {
                Outcome::Passed
            } else {
                Outcome::Failed
            }
        },
        Err(_) => Outcome::Failed,
    }
}

pub fn pick_usable(out: Result<ExecOutput, String>) -> (r: Outcome)
    ensures
        r == usable_outcome(out),
{
    match out {
        Ok(o) => {
            if trim(o.stdout.as_str()).unicode_len() == 0 {
                Outcome::Failed
            } else {
                Outcome::Passed
            }
        },
        Err(e) => Outcome::FailedWith(e),
    }
}

pub fn classify_step(step: usize, out: Result<ExecOutput, String>) -> (r: Outcome)
    ensures
        r == step_outcome(step as nat, out),
{
    if step == USABLE_STEP {
        pick_usable(out)
    } else {
        pick_ok(out)
    }
}

// ---------------------------------------------------------------- commands

/// The scratch file of the write probe.
pub open spec fn scratch_path(mount: Seq<char>, suffix: Seq<char>) -> Seq<char> {
    mount + "/.beeg_check_"@ + suffix
}

/// The remote command of each probe, before the timeout guard.
pub open spec fn probe_command(step: nat, mount: Seq<char>, suffix: Seq<char>) -> Seq<char> {
    if step == 0 {
        "grep -E '^[^#].*\\s+"@ + shell_quoted(mount)
            + "(\\s|$)' /etc/beegfs/beegfs-mounts.conf >/dev/null 2>&1 && echo OK || echo MISSING"@
    } else if step == 1 {
        "systemctl is-active beegfs-client >/dev/null 2>&1 && systemctl is-active beegfs-helperd >/dev/null 2>&1 && echo OK || echo MISSING"@
    } else if step == 2 {
        "df -h "@ + shell_quoted(mount) + " 2>&1 | tail -n +2 || true"@
    } else if step == 3 {
        "ls -la "@ + shell_quoted(mount) + " >/dev/null 2>&1 && echo OK || echo ERR"@
    } else {
        "dd if=/dev/urandom of="@ + shell_quoted(scratch_path(mount, suffix))
            + " bs=4K count=1 status=none && rm -f "@ + shell_quoted(scratch_path(mount, suffix))
            + " && echo OK || echo ERR"@
    }
}

fn quoted_between(pre: &str, word: &str, post: &str) -> (r: String)
    ensures
        r@ == pre@ + shell_quoted(word@) + post@,
{
    let mut s = String::new();
    push_text(&mut s, pre);
    let q = escape(word);
    push_text(&mut s, q.as_str());
    push_text(&mut s, post);
    assert(s@ =~= pre@ + shell_quoted(word@) + post@);
    s
}

pub fn build_probe_command(step: usize, mount: &str, suffix: &str) -> (r: String)
    requires
        step < PROBE_STEPS,
    ensures
        r@ == probe_command(step as nat, mount@, suffix@),
{
    if step == 0 {
        quoted_between(
            "grep -E '^[^#].*\\s+",
            mount,
            "(\\s|$)' /etc/beegfs/beegfs-mounts.conf >/dev/null 2>&1 && echo OK || echo MISSING",
        )
    } else if step == 1 {
        let mut s = String::new();
        push_text(
            &mut s,
            "systemctl is-active beegfs-client >/dev/null 2>&1 && systemctl is-active beegfs-helperd >/dev/null 2>&1 && echo OK || echo MISSING",
        );
        assert(s@ =~= probe_command(step as nat, mount@, suffix@));
        s
    } else if step == 2 {
        quoted_between("df -h ", mount, " 2>&1 | tail -n +2 || true")
    } else if step == 3 {
        quoted_between("ls -la ", mount, " >/dev/null 2>&1 && echo OK || echo ERR")
    } else {
        let mut path = String::new();
        push_text(&mut path, mount);
        push_text(&mut path, "/.beeg_check_");
        push_text(&mut path, suffix);
        assert(path@ =~= scratch_path(mount@, suffix@));
        let mut s = quoted_between("dd if=/dev/urandom of=", path.as_str(), " bs=4K count=1 status=none && rm -f ");
        let q = escape(path.as_str());
        push_text(&mut s, q.as_str());
        push_text(&mut s, " && echo OK || echo ERR");
        assert(s@ =~= probe_command(step as nat, mount@, suffix@));
        s
    }
}

// ---------------------------------------------------------------- node worker

pub open spec fn is_set(ev: ProgressEvent, node: usize, step: int) -> bool {
    match ev {
        ProgressEvent::Step { node: n, step: s, outcome } => n == node && s == step && !(outcome is Pending),
        ProgressEvent::Done { .. } => false,
    }
}

pub open spec fn event_node(ev: ProgressEvent) -> usize {
    match ev {
        ProgressEvent::Step { node, .. } => node,
        ProgressEvent::Done { node } => node,
    }
}

pub open spec fn event_step(ev: ProgressEvent) -> int {
    match ev {
        ProgressEvent::Step { step, .. } => step as int,
        ProgressEvent::Done { .. } => PROBE_STEPS as int,
    }
}

/// Runs the probes of one node in order, one at a time: hands out each
/// command, turns each result into a `Step` event, and ends with `Done`.
/// `emitted` is every event it has handed out so far.
pub struct NodeWorker {
    pub node: usize,
    pub commands: Vec<String>,
    pub next: usize,
    pub finished: bool,
    /// Why the scratch file could not be named, where it could not: the
    /// write probe is then recorded as failed instead of run.
    pub scratch_error: Option<String>,
    pub emitted: Ghost<Seq<ProgressEvent>>,
}

/// The scratch-name suffix a worker was given, empty where there is none.
pub open spec fn suffix_text(scratch: Result<String, String>) -> Seq<char> {
    match scratch {
        Ok(s) => s@,
        Err(_) => Seq::empty(),
    }
}

impl NodeWorker {
    pub open spec fn wf(&self) -> bool {
        &&& self.commands@.len() == PROBE_STEPS
        &&& self.next <= PROBE_STEPS
        &&& self.finished ==> self.next == PROBE_STEPS
        &&& self.emitted@.len() == self.next + if self.finished { 1int } else { 0int }
        &&& forall|j: int| 0 <= j < self.next ==> is_set(#[trigger] self.emitted@[j], self.node, j)
        &&& self.finished ==> self.emitted@[self.next as int] == (ProgressEvent::Done { node: self.node })
    }

    /// A worker for node `node`; `scratch` is the random suffix of the write
    /// probe's scratch file, or why none could be drawn.
    pub fn new(node: usize, mount: &str, timeout: u64, scratch: &Result<String, String>) -> (r: NodeWorker)
        ensures
            r.wf(),
            r.node == node,
            r.next == 0,
            !r.finished,
            forall|j: int| 0 <= j < PROBE_STEPS ==> #[trigger] r.commands@[j]@ == with_timeout(
                probe_command(j as nat, mount@, suffix_text(*scratch)),
                timeout as nat,
            ),
            r.scratch_error == match *scratch {
                Ok(_) => None::<String>,
                Err(e) => Some(e),
            },
    {
        let (suffix, scratch_error) = match scratch {
            Ok(s) => (s.as_str(), None),
            Err(e) => ("", Some(e.clone())),
        };
        assert(suffix@ == suffix_text(*scratch)) by {
            if scratch is Err {
                reveal_strlit("");
            }
        }
        let mut commands: Vec<String> = Vec::new();
        let mut j: usize = 0;
        while j < PROBE_STEPS
            invariant
                j <= PROBE_STEPS,
                commands@.len() == j,
                forall|i: int| 0 <= i < j ==> #[trigger] commands@[i]@ == with_timeout(
                    probe_command(i as nat, mount@, suffix@),
                    timeout as nat,
                ),
            decreases PROBE_STEPS - j,
        {
            let c = build_probe_command(j, mount, suffix);
            commands.push(wrap_timeout(c.as_str(), timeout));
            j = j + 1;
        }
        NodeWorker { node, commands, next: 0, finished: false, scratch_error, emitted: Ghost(Seq::empty()) }
    }

    /// The next probe can be run: one is left, and it is not a write probe
    /// without a scratch name.
    pub open spec fn runnable(&self) -> bool {
        self.next < PROBE_STEPS && !(self.next == WRITE_STEP && self.scratch_error is Some)
    }

    /// The command of the next probe, where it can be run.
    pub fn next_command(&self) -> (r: Option<&String>)
        requires
            self.wf(),
        ensures
            self.runnable() ==> r == Some(&self.commands@[self.next as int]),
            !self.runnable() ==> r is None,
    {
        if self.next < PROBE_STEPS && !(self.next == WRITE_STEP && self.scratch_error.is_some()) {
            Some(&self.commands[self.next])
        } else {
            None
        }
    }

    /// Records the write probe as failed, without running it, where no
    /// scratch name could be drawn.
    pub fn skip_write(&mut self) -> (ev: ProgressEvent)
        requires
            old(self).wf(),
            old(self).next == WRITE_STEP,
            old(self).scratch_error is Some,
        ensures
            final(self).wf(),
            final(self).node == old(self).node,
            final(self).commands == old(self).commands,
            final(self).next == old(self).next + 1,
            !final(self).finished,
            ev == (ProgressEvent::Step {
                node: old(self).node,
                step: old(self).next,
                outcome: step_outcome(
                    old(self).next as nat,
                    Err::<ExecOutput, String>(old(self).scratch_error->0),
                ),
            }),
            final(self).emitted@ == old(self).emitted@.push(ev),
    {
        let reason = match &self.scratch_error {
            Some(e) => e.clone(),
            None => String::new(),
        };
        self.record(Err(reason))
    }

    /// Classifies the result of the current probe and moves to the next one.
    pub fn record(&mut self, out: Result<ExecOutput, String>) -> (ev: ProgressEvent)
        requires
            old(self).wf(),
            old(self).next < PROBE_STEPS,
        ensures
            final(self).wf(),
            final(self).node == old(self).node,
            final(self).commands == old(self).commands,
            final(self).scratch_error == old(self).scratch_error,
            final(self).next == old(self).next + 1,
            !final(self).finished,
            ev == (ProgressEvent::Step {
                node: old(self).node,
                step: old(self).next,
                outcome: step_outcome(old(self).next as nat, out),
            }),
            final(self).emitted@ == old(self).emitted@.push(ev),
    {
        let step = self.next;
        let outcome = classify_step(step, out);
        let ev = ProgressEvent::Step { node: self.node, step, outcome };
        let ghost ev_g = ev;
        self.emitted = Ghost(self.emitted@.push(ev_g));
        self.next = step + 1;
        assert(is_set(self.emitted@[step as int], self.node, step as int));
        ev
    }

    /// The closing event, once every probe has been recorded.
    pub fn finish(&mut self) -> (ev: ProgressEvent)
        requires
            old(self).wf(),
            old(self).next == PROBE_STEPS,
            !old(self).finished,
        ensures
            final(self).wf(),
            final(self).node == old(self).node,
            final(self).next == old(self).next,
            final(self).finished,
            ev == (ProgressEvent::Done { node: old(self).node }),
            final(self).emitted@ == old(self).emitted@.push(ev),
    {
        self.finished = true;
        let ev = ProgressEvent::Done { node: self.node };
        self.emitted = Ghost(self.emitted@.push(ev));
        ev
    }
}

/// Every event a worker emits is about its own node; its `Step` events come in
/// strictly increasing step order, and `Done` is the last of them.
pub proof fn lemma_worker_events_ordered(w: NodeWorker)
    requires
        w.wf(),
    ensures
        forall|a: int| 0 <= a < w.emitted@.len() ==> event_node(#[trigger] w.emitted@[a]) == w.node,
        forall|a: int, b: int|
            0 <= a < b < w.emitted@.len() ==> event_step(#[trigger] w.emitted@[a]) < event_step(
                #[trigger] w.emitted@[b],
            ),
        forall|a: int|
            0 <= a < w.emitted@.len() && (#[trigger] w.emitted@[a]) is Done ==> a == w.emitted@.len() - 1,
{
    assert forall|a: int| 0 <= a < w.emitted@.len() implies event_node(#[trigger] w.emitted@[a]) == w.node
        && (a < w.next ==> event_step(w.emitted@[a]) == a && w.emitted@[a] is Step)
        && (a >= w.next ==> event_step(w.emitted@[a]) == PROBE_STEPS && w.emitted@[a] is Done) by {
        if a < w.next {
            assert(is_set(w.emitted@[a], w.node, a));
        }
    }
}

// ---------------------------------------------------------------- aggregator

pub open spec fn count_true(s: Seq<bool>) -> nat
    decreases s.len(),
{
    if s.len() == 0 {
        0
    } else {
        count_true(s.drop_last()) + if s.last() { 1nat } else { 0nat }
    }
}

proof fn lemma_count_bound(s: Seq<bool>)
    ensures
        count_true(s) <= s.len(),
        count_true(s) == s.len() ==> forall|i: int| 0 <= i < s.len() ==> #[trigger] s[i],
    decreases s.len(),
{
    if s.len() > 0 {
        lemma_count_bound(s.drop_last());
        assert forall|i: int| 0 <= i < s.len() && count_true(s) == s.len() implies #[trigger] s[i] by {
            if i < s.len() - 1 {
                assert(s.drop_last()[i] == s[i]);
            }
        }
    }
}

proof fn lemma_count_set(s: Seq<bool>, i: int)
    requires
        0 <= i < s.len(),
        !s[i],
    ensures
        count_true(s.update(i, true)) == count_true(s) + 1,
    decreases s.len(),
{
    if i < s.len() - 1 {
        lemma_count_set(s.drop_last(), i);
        assert(s.update(i, true).drop_last() =~= s.drop_last().update(i, true));
    } else {
        assert(s.update(i, true).drop_last() =~= s.drop_last());
    }
}

/// The only owner of the result matrix: a row of `PROBE_STEPS` cells per
/// node, stored row after row, and the count of nodes that reported `Done`.
pub struct Aggregator {
    pub cells: Vec<Outcome>,
    pub done: Vec<bool>,
    pub completed: usize,
    pub phase: RunPhase,
}

pub open spec fn cell_of(cells: Seq<Outcome>, node: int, step: int) -> Outcome {
    cells[node * PROBE_STEPS + step]
}

pub open spec fn row_complete_in(cells: Seq<Outcome>, node: int) -> bool {
    forall|j: int| 0 <= j < PROBE_STEPS ==> !(#[trigger] cell_of(cells, node, j) is Pending)
}

pub open spec fn rows_consistent(cells: Seq<Outcome>, done: Seq<bool>) -> bool {
    forall|i: int| 0 <= i < done.len() && #[trigger] done[i] ==> row_complete_in(cells, i)
}

impl Aggregator {
    pub open spec fn node_count(&self) -> nat {
        self.done@.len()
    }

    pub open spec fn cell(&self, node: int, step: int) -> Outcome {
        cell_of(self.cells@, node, step)
    }

    pub open spec fn row_complete(&self, node: int) -> bool {
        row_complete_in(self.cells@, node)
    }

    pub open spec fn wf(&self) -> bool {
        &&& self.cells@.len() == self.done@.len() * PROBE_STEPS
        &&& self.cells@.len() <= usize::MAX
        &&& self.completed == count_true(self.done@)
        &&& rows_consistent(self.cells@, self.done@)
        &&& self.phase is Done ==> self.completed == self.done@.len()
    }

    pub fn new(node_count: usize) -> (r: Aggregator)
        requires
            node_count * PROBE_STEPS <= usize::MAX,
        ensures
            r.wf(),
            r.node_count() == node_count,
            r.completed == 0,
            r.phase is Running,
            forall|i: int, j: int|
                0 <= i < node_count && 0 <= j < PROBE_STEPS ==> #[trigger] r.cell(i, j) is Pending,
            forall|i: int| 0 <= i < node_count ==> !#[trigger] r.done@[i],
    {
        let mut cells: Vec<Outcome> = Vec::new();
        let mut done: Vec<bool> = Vec::new();
        let total = node_count * PROBE_STEPS;
        let mut k: usize = 0;
        while k < total
            invariant
                k <= total,
                total == node_count * PROBE_STEPS,
                cells@.len() == k,
                forall|m: int| 0 <= m < k ==> #[trigger] cells@[m] is Pending,
            decreases total - k,
        {
            cells.push(Outcome::Pending);
            k = k + 1;
        }
        let mut i: usize = 0;
        while i < node_count
            invariant
                i <= node_count,
                done@.len() == i,
                forall|m: int| 0 <= m < i ==> !#[trigger] done@[m],
                count_true(done@) == 0,
            decreases node_count - i,
        {
            proof {
                assert(done@.push(false).drop_last() =~= done@);
            }
            done.push(false);
            i = i + 1;
        }
        let r = Aggregator { cells, done, completed: 0, phase: RunPhase::Running };
        assert forall|i: int, j: int| 0 <= i < node_count && 0 <= j < PROBE_STEPS implies #[trigger] r.cell(i, j) is Pending by {
            assert(0 <= i * PROBE_STEPS + j < node_count * PROBE_STEPS);
        }
        r
    }

    fn row_is_complete(&self, node: usize) -> (r: bool)
        requires
            self.wf(),
            node < self.done@.len(),
        ensures
            r == self.row_complete(node as int),
    {
        let mut j: usize = 0;
        while j < PROBE_STEPS
            invariant
                self.wf(),
                node < self.done@.len(),
                j <= PROBE_STEPS,
                forall|m: int| 0 <= m < j ==> !(#[trigger] cell_of(self.cells@, node as int, m) is Pending),
            decreases PROBE_STEPS - j,
        {
            assert(node * PROBE_STEPS + j < self.cells@.len()) by (nonlinear_arith)
                requires
                    node < self.done@.len(),
                    j < PROBE_STEPS,
                    self.cells@.len() == self.done@.len() * PROBE_STEPS,
            ;
            if let Outcome::Pending = self.cells[node * PROBE_STEPS + j] {
                assert(cell_of(self.cells@, node as int, j as int) is Pending);
                return false;
            }
            j = j + 1;
        }
        true
    }

    /// Applies one progress event. A `Step` overwrites its cell when the cell
    /// exists and the outcome is a result; a `Done` counts once per node, and
    /// only once every cell of that node's row holds a result. Anything else
    /// is ignored.
    pub fn apply(&mut self, ev: ProgressEvent)
        requires
            old(self).wf(),
        ensures
            final(self).wf(),
            final(self).phase == old(self).phase,
            final(self).done@.len() == old(self).done@.len(),
            match ev {
                ProgressEvent::Step { node, step, outcome } => {
                    &&& final(self).done@ == old(self).done@
                    &&& final(self).completed == old(self).completed
                    &&& if node < old(self).node_count() && step < PROBE_STEPS && !(outcome is Pending) {
                        final(self).cells@ == old(self).cells@.update(node * PROBE_STEPS + step, outcome)
                    } else {
                        final(self).cells@ == old(self).cells@
                    }
                },
                ProgressEvent::Done { node } => {
                    &&& final(self).cells@ == old(self).cells@
                    &&& if node < old(self).node_count() && !old(self).done@[node as int]
                        && old(self).row_complete(node as int) {
                        &&& final(self).done@ == old(self).done@.update(node as int, true)
                        &&& final(self).completed == old(self).completed + 1
                    } else {
                        &&& final(self).done@ == old(self).done@
                        &&& final(self).completed == old(self).completed
                    }
                },
            },
    {
        match ev {
            ProgressEvent::Step { node, step, outcome } => {
                if node < self.done.len() && step < PROBE_STEPS {
                    if let Outcome::Pending = outcome {
                    } else {
                        let ghost before = *self;
                        assert(node * PROBE_STEPS + step < self.cells@.len()) by (nonlinear_arith)
                            requires
                                node < self.done@.len(),
                                step < PROBE_STEPS,
                                self.cells@.len() == self.done@.len() * PROBE_STEPS,
                        ;
                        self.cells.set(node * PROBE_STEPS + step, outcome);
                        assert forall|i: int| 0 <= i < self.done@.len() && #[trigger] self.done@[i] implies row_complete_in(self.cells@, i) by {
                            assert(row_complete_in(before.cells@, i));
                            assert forall|j: int| 0 <= j < PROBE_STEPS implies !(#[trigger] cell_of(self.cells@, i, j) is Pending) by {
                                assert(!(cell_of(before.cells@, i, j) is Pending));
                                assert(0 <= i * PROBE_STEPS + j < self.cells@.len()) by (nonlinear_arith)
                                    requires
                                        0 <= i < self.done@.len(),
                                        0 <= j < PROBE_STEPS,
                                        self.cells@.len() == self.done@.len() * PROBE_STEPS,
                                ;
                            }
                        }
                    }
                }
            },
            ProgressEvent::Done { node } => {
                if node < self.done.len() && !self.done[node] && self.row_is_complete(node) {
                    proof {
                        lemma_count_set(self.done@, node as int);
                        lemma_count_bound(self.done@.update(node as int, true));
                    }
                    let ghost before = *self;
                    self.done.set(node, true);
                    self.completed = self.completed + 1;
                    assert forall|i: int| 0 <= i < self.done@.len() && #[trigger] self.done@[i] implies row_complete_in(self.cells@, i) by {
                        if i != node {
                            assert(before.done@[i]);
                        }
                    }
                }
            },
        }
    }

    /// Ends the tick: the quit key cancels the run; else the run is done once
    /// every node has reported `Done`; else it goes on.
    pub fn tick(&mut self, key: Option<char>, quit: char) -> (r: RunPhase)
        requires
            old(self).wf(),
            old(self).phase is Running,
        ensures
            final(self).wf(),
            final(self).cells == old(self).cells,
            final(self).done == old(self).done,
            final(self).completed == old(self).completed,
            r == final(self).phase,
            key == Some(quit) ==> r is Cancelled,
            key != Some(quit) && old(self).completed == old(self).node_count() ==> r is Done,
            key != Some(quit) && old(self).completed != old(self).node_count() ==> r is Running,
    {
        let cancel = match key {
            Some(c) => c == quit,
            None => false,
        };
        if cancel {
            self.phase = RunPhase::Cancelled;
            RunPhase::Cancelled
        } else if self.completed == self.done.len() {
            self.phase = RunPhase::Done;
            RunPhase::Done
        } else {
            RunPhase::Running
        }
    }

    pub fn is_running(&self) -> (r: bool)
        ensures
            r == self.phase is Running,
    {
        match self.phase {
            RunPhase::Running => true,
            _ => false,
        }
    }
}

/// Once a run is done, every cell of the matrix holds a result.
pub proof fn lemma_done_has_no_pending(a: Aggregator)
    requires
        a.wf(),
        a.phase is Done,
    ensures
        forall|i: int, j: int|
            0 <= i < a.node_count() && 0 <= j < PROBE_STEPS ==> !(#[trigger] a.cell(i, j) is Pending),
{
    lemma_count_bound(a.done@);
    assert forall|i: int, j: int| 0 <= i < a.node_count() && 0 <= j < PROBE_STEPS implies !(#[trigger] a.cell(i, j) is Pending) by {
        assert(a.done@[i]);
        assert(a.row_complete(i));
    }
}

/// The completion counter never exceeds the node count, and a run is done only
/// when every node's `Done` has been applied.
pub proof fn lemma_counter_bounded(a: Aggregator)
    requires
        a.wf(),
    ensures
        a.completed <= a.node_count(),
        a.phase is Done ==> forall|i: int| 0 <= i < a.node_count() ==> #[trigger] a.done@[i],
{
    lemma_count_bound(a.done@);
}

/// Output that is `OK` with white space around it passes a sentinel probe;
/// output whose trimmed form does not begin with `OK`, and a transport
/// failure, fail it.
pub proof fn lemma_sentinel_classification(out: Result<ExecOutput, String>)
    ensures
        out is Ok && trim_ws(out->Ok_0.stdout@) == "OK"@ ==> sentinel_outcome(out) is Passed,
        out is Ok && !has_prefix(trim_ws(out->Ok_0.stdout@), "OK"@) ==> sentinel_outcome(out) is Failed,
        out is Err ==> sentinel_outcome(out) is Failed,
{
    if out is Ok && trim_ws(out->Ok_0.stdout@) == "OK"@ {
        let t = trim_ws(out->Ok_0.stdout@);
        assert(t.subrange(0, t.len() as int) =~= t);
    }
}

// ---------------------------------------------------------------- rendering

/// How a cell reads in the live table.
pub open spec fn cell_text_spec(o: Outcome) -> Seq<char> {
    match o {
        Outcome::Pending => "..."@,
        Outcome::Passed => "OK"@,
        Outcome::Failed => "ERR"@,
        Outcome::FailedWith(e) => "ERR:"@ + e@,
    }
}

pub fn cell_text(o: &Outcome) -> (r: String)
    ensures
        r@ == cell_text_spec(*o),
{
    let mut s = String::new();
    match o {
        Outcome::Pending => push_text(&mut s, "..."),
        Outcome::Passed => push_text(&mut s, "OK"),
        Outcome::Failed => push_text(&mut s, "ERR"),
        Outcome::FailedWith(e) => {
            push_text(&mut s, "ERR:");
            push_text(&mut s, e.as_str());
        },
    }
    s
}

impl Aggregator {
    /// The cells of one node's row, as they read in the table.
    pub fn row_texts(&self, node: usize) -> (r: Vec<String>)
        requires
            self.wf(),
            node < self.node_count(),
        ensures
            r@.len() == PROBE_STEPS,
            forall|j: int| 0 <= j < PROBE_STEPS ==> #[trigger] r@[j]@ == cell_text_spec(self.cell(node as int, j)),
    {
        let mut r: Vec<String> = Vec::new();
        let mut j: usize = 0;
        while j < PROBE_STEPS
            invariant
                self.wf(),
                node < self.node_count(),
                j <= PROBE_STEPS,
                r@.len() == j,
                forall|m: int| 0 <= m < j ==> #[trigger] r@[m]@ == cell_text_spec(self.cell(node as int, m)),
            decreases PROBE_STEPS - j,
        {
            assert(node * PROBE_STEPS + j < self.cells@.len()) by (nonlinear_arith)
                requires
                    node < self.done@.len(),
                    j < PROBE_STEPS,
                    self.cells@.len() == self.done@.len() * PROBE_STEPS,
            ;
            r.push(cell_text(&self.cells[node * PROBE_STEPS + j]));
            j = j + 1;
        }
        r
    }

    /// `Completed: <done>/<total>`.
    pub fn footer(&self) -> (r: String)
        ensures
            r@ == "Completed: "@ + decimal(self.completed as nat) + "/"@ + decimal(self.done@.len()),
    {
        let mut s = String::new();
        push_text(&mut s, "Completed: ");
        push_decimal(&mut s, self.completed as u64);
        push_text(&mut s, "/");
        push_decimal(&mut s, self.done.len() as u64);
        s
    }
}

} // verus!
