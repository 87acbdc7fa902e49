use vstd::prelude::*;
use crate::catalog::CommandSpec;

verus! {

/// A request to run one node's command, made in one category.
pub struct ExecutionRequest {
    pub category: String,
    pub node: usize,
    pub command: CommandSpec,
}

/// What one run reports back.
pub struct CommandExecutionResult {
    pub success: bool,
    pub output: String,
    pub error: Option<String>,
    pub exit_code: Option<i32>,
}

/// A run's report without its exit code.
pub struct CommandResult {
    pub success: bool,
    pub output: String,
    pub error: Option<String>,
}

impl From<CommandExecutionResult> for CommandResult {
    fn from(r: CommandExecutionResult) -> (c: CommandResult) {
        CommandResult { success: r.success, output: r.output, error: r.error }
    }
}

impl vstd::std_specs::convert::FromSpecImpl<CommandExecutionResult> for CommandResult {
    open spec fn obeys_from_spec() -> bool {
        true
    }

    open spec fn from_spec(r: CommandExecutionResult) -> CommandResult {
        CommandResult { success: r.success, output: r.output, error: r.error }
    }
}

/// The text shown when a run printed nothing.
pub open spec fn placeholder(script: bool) -> Seq<char> {
    if script {
        "Script executed successfully"@
    } else {
        "Command executed successfully"@
    }
}

/// Standard output if there is any, else standard error if there is any, else the placeholder.
pub open spec fn displayed_output(stdout: Seq<char>, stderr: Seq<char>, script: bool) -> Seq<char> {
    if stdout.len() > 0 {
        stdout
    } else if stderr.len() > 0 {
        stderr
    } else {
        placeholder(script)
    }
}

/// The report of a process that ran: its success, what it printed, and on failure its
/// standard error.
pub fn compose_result(
    stdout: String,
    stderr: String,
    success: bool,
    exit_code: Option<i32>,
    script: bool,
) -> (r: CommandExecutionResult)
    ensures
        r.success == success,
        r.exit_code == exit_code,
        r.output@ == displayed_output(stdout@, stderr@, script),
        success ==> r.error is None,
        !success ==> (r.error matches Some(e) && e@ == stderr@),
{
    let error = if success {
        None
    } else {
        Some(stderr.clone())
    };
    let output = if stdout.as_str().unicode_len() > 0 {
        stdout
    } else if stderr.as_str().unicode_len() > 0 {
        stderr
    } else if script {
        "Script executed successfully".to_string()
    } else {
        "Command executed successfully".to_string()
    };
    CommandExecutionResult { success, output, error, exit_code }
}

pub open spec fn spawn_failure_prefix(script: bool) -> Seq<char> {
    if script {
        "Failed to execute script: "@
    } else {
        "Failed to execute command: "@
    }
}

/// The report of a process that could not be started, carrying the reason.
pub fn spawn_failure(reason: String, script: bool) -> (r: CommandExecutionResult)
    ensures
        !r.success,
        r.exit_code is None,
        r.output@ == spawn_failure_prefix(script) + reason@,
        r.error matches Some(e) && e@ == reason@,
{
    let mut output = if script {
        "Failed to execute script: ".to_string()
    } else {
        "Failed to execute command: ".to_string()
    };
    output.append(reason.as_str());
    CommandExecutionResult { success: false, output, error: Some(reason), exit_code: None }
}

/// The message shown for a finished run: a success line and the output, or a failure
/// line, the output and the error.
pub open spec fn report_of(r: CommandExecutionResult) -> Seq<char> {
    if r.success {
        "✅ Command executed successfully!\n\n"@ + r.output@
    } else {
        "❌ Command failed!\n\n"@ + r.output@ + "\n\nError: "@ + match r.error {
            Some(e) => e@,
            None => Seq::empty(),
        }
    }
}

/// Renders the message shown for a finished run.
pub fn report_text(r: &CommandExecutionResult) -> (t: String)
    ensures
        t@ == report_of(*r),
{
    if r.success {
        let mut t = "✅ Command executed successfully!\n\n".to_string();
        t.append(r.output.as_str());
        t
    } else {
        let mut t = "❌ Command failed!\n\n".to_string();
        t.append(r.output.as_str());
        t.append("\n\nError: ");
        match &r.error {
            Some(e) => t.append(e.as_str()),
            None => {
                assert(t@ + Seq::<char>::empty() =~= t@);
            },
        }
        t
    }
}

/// The status line for a finished run.
pub fn status_line(r: &CommandExecutionResult) -> (t: &'static str)
    ensures
        r.success ==> t@ == "Command completed successfully"@,
        !r.success ==> t@ == "Command failed"@,
{
    if r.success {
        "Command completed successfully"
    } else {
        "Command failed"
    }
}

/// A process's outcome as one text: on success the output under a success line, on
/// failure the output and the standard error under an error line.
pub open spec fn plain_outcome_of(stdout: Seq<char>, stderr: Seq<char>, success: bool) -> Result<
    Seq<char>,
    Seq<char>,
> {
    if success {
        Ok("Success:\n"@ + stdout)
    } else {
        Err("Error:\n"@ + stdout + "\nStderr: "@ + stderr)
    }
}

/// Renders a process's outcome as one text.
pub fn plain_outcome(stdout: &str, stderr: &str, success: bool) -> (r: Result<String, String>)
    ensures
        success ==> (r matches Ok(t) && plain_outcome_of(stdout@, stderr@, success) == Ok::<
            Seq<char>,
            Seq<char>,
        >(t@)),
        !success ==> (r matches Err(t) && plain_outcome_of(stdout@, stderr@, success) == Err::<
            Seq<char>,
            Seq<char>,
        >(t@)),
{
    if success {
        let mut t = "Success:\n".to_string();
        t.append(stdout);
        Ok(t)
    } else {
        let mut t = "Error:\n".to_string();
        t.append(stdout);
        t.append("\nStderr: ");
        t.append(stderr);
        Err(t)
    }
}

/// A finished run, tagged with the node it ran.
pub struct CompletedRun {
    pub node: usize,
    pub result: CommandExecutionResult,
}

/// Abstract state of the coordinator.
pub struct CoordinatorModel {
    /// Requests accepted and not yet handed to the worker, oldest first.
    pub queued: Seq<ExecutionRequest>,
    /// The node the worker is running, if any.
    pub in_flight: Option<usize>,
    /// Finished runs not yet collected, oldest first.
    pub done: Seq<CompletedRun>,
    /// The busy indicator.
    pub executing: bool,
}

/// One step taken on the coordinator other than a submission.
pub enum CoordinatorStep {
    Dispatch,
    Complete(CommandExecutionResult),
    Poll,
}

pub open spec fn option_seq(o: Option<usize>) -> Seq<usize> {
    match o {
        Some(n) => seq![n],
        None => Seq::empty(),
    }
}

impl CoordinatorModel {
    /// Every outstanding node, in the order its result will be collected.
    pub open spec fn pending(self) -> Seq<usize> {
        self.done.map_values(|d: CompletedRun| d.node) + option_seq(self.in_flight)
            + self.queued.map_values(|r: ExecutionRequest| r.node)
    }

    pub open spec fn after_submit(self, req: ExecutionRequest) -> CoordinatorModel {
        CoordinatorModel { queued: self.queued.push(req), executing: true, ..self }
    }

    pub open spec fn can_dispatch(self) -> bool {
        self.in_flight is None && self.queued.len() > 0
    }

    pub open spec fn after_dispatch(self) -> CoordinatorModel {
        if self.can_dispatch() {
            CoordinatorModel {
                queued: self.queued.drop_first(),
                in_flight: Some(self.queued[0].node),
                ..self
            }
        } else {
            self
        }
    }

    pub open spec fn after_complete(self, result: CommandExecutionResult) -> CoordinatorModel {
        match self.in_flight {
            Some(n) => CoordinatorModel {
                in_flight: None,
                done: self.done.push(CompletedRun { node: n, result }),
                ..self
            },
            None => self,
        }
    }

    pub open spec fn after_poll(self) -> CoordinatorModel {
        if self.done.len() > 0 {
            CoordinatorModel { done: self.done.drop_first(), executing: false, ..self }
        } else {
            self
        }
    }

    pub open spec fn after_step(self, step: CoordinatorStep) -> CoordinatorModel {
        match step {
            CoordinatorStep::Dispatch => self.after_dispatch(),
            CoordinatorStep::Complete(r) => self.after_complete(r),
            CoordinatorStep::Poll => self.after_poll(),
        }
    }

    /// The node whose result a step hands to the interactive layer, if any.
    pub open spec fn delivered_by(self, step: CoordinatorStep) -> Seq<usize> {
        match step {
            CoordinatorStep::Poll => if self.done.len() > 0 {
                seq![self.done[0].node]
            } else {
                Seq::empty()
            },
            _ => Seq::empty(),
        }
    }

    /// The state after a run of steps, and the nodes whose results were collected on the way.
    pub open spec fn run(self, steps: Seq<CoordinatorStep>) -> (CoordinatorModel, Seq<usize>)
        decreases steps.len(),
    {
        if steps.len() == 0 {
            (self, Seq::empty())
        } else {
            let (m, out) = self.after_step(steps[0]).run(steps.drop_first());
            (m, self.delivered_by(steps[0]) + out)
        }
    }
}

/// Serialises requests onto one worker: requests wait in a FIFO queue, at most one is
/// with the worker at a time, and finished runs wait to be collected in the order they
/// finished.
pub struct ExecutionCoordinator {
    queue: Vec<ExecutionRequest>,
    in_flight: Option<usize>,
    done: Vec<CompletedRun>,
    executing: bool,
}

impl View for ExecutionCoordinator {
    type V = CoordinatorModel;

    closed spec fn view(&self) -> CoordinatorModel {
        CoordinatorModel {
            queued: self.queue@,
            in_flight: self.in_flight,
            done: self.done@,
            executing: self.executing,
        }
    }
}

impl ExecutionCoordinator {
    pub fn new() -> (r: ExecutionCoordinator)
        ensures
            r@.queued.len() == 0,
            r@.in_flight is None,
            r@.done.len() == 0,
            !r@.executing,
    {
        ExecutionCoordinator { queue: Vec::new(), in_flight: None, done: Vec::new(), executing: false }
    }

    /// Accepts a request and returns at once.
    pub fn submit(&mut self, req: ExecutionRequest)
        ensures
            final(self)@ == old(self)@.after_submit(req),
    {
        self.queue.push(req);
        self.executing = true;
    }

    /// Hands the oldest waiting request to the worker, unless the worker is busy or
    /// nothing waits.
    pub fn dispatch(&mut self) -> (r: Option<ExecutionRequest>)
        ensures
            final(self)@ == old(self)@.after_dispatch(),
            old(self)@.can_dispatch() ==> r == Some(old(self)@.queued[0]),
            !old(self)@.can_dispatch() ==> r is None,
    {
        if self.in_flight.is_none() && self.queue.len() > 0 {
            let req = self.queue.remove(0);
            self.in_flight = Some(req.node);
            Some(req)
        } else {
            None
        }
    }

    /// Records the worker's report on the request it was running; without one running,
    /// nothing changes.
    pub fn complete(&mut self, result: CommandExecutionResult)
        ensures
            final(self)@ == old(self)@.after_complete(result),
    {
        match self.in_flight {
            Some(n) => {
                self.done.push(CompletedRun { node: n, result });
                self.in_flight = None;
            },
            None => {},
        }
    }

    /// Collects the oldest finished run, if any, without waiting. Collecting any run
    /// lowers the busy indicator, even while other requests are still outstanding.
    pub fn poll(&mut self) -> (r: Option<CompletedRun>)
        ensures
            final(self)@ == old(self)@.after_poll(),
            old(self)@.done.len() > 0 ==> r == Some(old(self)@.done[0]),
            old(self)@.done.len() == 0 ==> r is None,
    {
        if self.done.len() > 0 {
            let d = self.done.remove(0);
            self.executing = false;
            Some(d)
        } else {
            None
        }
    }

    pub fn is_executing(&self) -> (r: bool)
        ensures
            r == self@.executing,
    {
        self.executing
    }

    /// Whether a request is waiting to be handed to the worker right now.
    pub fn has_dispatchable(&self) -> (r: bool)
        ensures
            r == self@.can_dispatch(),
    {
        self.in_flight.is_none() && self.queue.len() > 0
    }
}

/// Accepting a request puts its node at the back of the outstanding nodes.
pub proof fn lemma_submit_appends(m: CoordinatorModel, req: ExecutionRequest)
    ensures
        m.after_submit(req).pending() == m.pending().push(req.node),
{
    let f = |r: ExecutionRequest| r.node;
    assert(m.queued.push(req).map_values(f) =~= m.queued.map_values(f).push(req.node));
    assert(m.after_submit(req).pending() =~= m.pending().push(req.node));
}

proof fn lemma_step_keeps_order(m: CoordinatorModel, step: CoordinatorStep)
    ensures
        m.pending() == m.delivered_by(step) + m.after_step(step).pending(),
{
    let f = |r: ExecutionRequest| r.node;
    let g = |d: CompletedRun| d.node;
    match step {
        CoordinatorStep::Dispatch => {
            if m.can_dispatch() {
                assert(m.queued.map_values(f) =~= seq![m.queued[0].node] + m.queued.drop_first().map_values(f));
                assert(m.pending() =~= m.after_dispatch().pending());
            }
        },
        CoordinatorStep::Complete(r) => {
            if let Some(n) = m.in_flight {
                assert(m.done.push(CompletedRun { node: n, result: r }).map_values(g) =~= m.done.map_values(g).push(n));
                assert(m.pending() =~= m.after_complete(r).pending());
            }
        },
        CoordinatorStep::Poll => {
            if m.done.len() > 0 {
                assert(m.done.map_values(g) =~= seq![m.done[0].node] + m.done.drop_first().map_values(g));
                assert(m.pending() =~= m.delivered_by(step) + m.after_poll().pending());
            } else {
                assert(m.pending() =~= m.delivered_by(step) + m.after_poll().pending());
            }
        },
    }
}

/// Whatever steps are taken, results are collected in the order their requests were
/// accepted: the nodes collected are a prefix of the outstanding nodes, and the rest
/// stay outstanding in the same order.
pub proof fn lemma_results_in_submission_order(m: CoordinatorModel, steps: Seq<CoordinatorStep>)
    ensures
        m.pending() == m.run(steps).1 + m.run(steps).0.pending(),
    decreases steps.len(),
{
    if steps.len() == 0 {
        assert(m.pending() =~= Seq::<usize>::empty() + m.pending());
    } else {
        let m1 = m.after_step(steps[0]);
        lemma_step_keeps_order(m, steps[0]);
        lemma_results_in_submission_order(m1, steps.drop_first());
        let out = m1.run(steps.drop_first());
        assert(m.pending() =~= (m.delivered_by(steps[0]) + out.1) + out.0.pending());
    }
}

/// A batch queued on an idle coordinator (as a session queues its selection): whatever
/// steps follow, the results collected belong to the batch's nodes, in batch order.
pub proof fn lemma_batch_collected_in_order(
    idle: CoordinatorModel,
    queued: CoordinatorModel,
    batch: Seq<usize>,
    steps: Seq<CoordinatorStep>,
)
    requires
        idle.pending().len() == 0,
        queued.pending() == idle.pending() + batch,
    ensures
        queued.run(steps).1.len() <= batch.len(),
        queued.run(steps).1 == batch.subrange(0, queued.run(steps).1.len() as int),
{
    assert(queued.pending() =~= batch);
    lemma_results_in_submission_order(queued, steps);
    let out = queued.run(steps).1;
    assert(batch.subrange(0, out.len() as int) =~= out);
}

/// A request accepted on an idle coordinator is delivered once the worker reports on
/// it: handing it to the worker, recording the worker's report `result` and one poll
/// collect exactly that report for that node, and leave nothing outstanding.
pub proof fn lemma_request_delivered(m: CoordinatorModel, req: ExecutionRequest, result: CommandExecutionResult)
    requires
        m.pending().len() == 0,
    ensures
        ({
            let s = m.after_submit(req);
            let w = s.after_dispatch().after_complete(result);
            &&& s.executing
            &&& s.can_dispatch()
            &&& w.done.len() == 1
            &&& w.done[0] == (CompletedRun { node: req.node, result })
            &&& w.after_poll().pending().len() == 0
            &&& !w.after_poll().executing
            &&& s.run(seq![CoordinatorStep::Dispatch, CoordinatorStep::Complete(result), CoordinatorStep::Poll]).1
                == seq![req.node]
        }),
{
    let g = |d: CompletedRun| d.node;
    let f = |r: ExecutionRequest| r.node;
    assert(m.done.map_values(g).len() == 0);
    assert(m.queued.map_values(f).len() == 0);
    assert(m.in_flight is None) by {
        if m.in_flight is Some {
            assert(option_seq(m.in_flight).len() == 1);
        }
    }
    let s = m.after_submit(req);
    assert(s.queued =~= seq![req]);
    let w = s.after_dispatch().after_complete(result);
    assert(w.done =~= seq![CompletedRun { node: req.node, result }]);
    let p = w.after_poll();
    assert(p.done =~= Seq::<CompletedRun>::empty());
    assert(p.queued.len() == 0);
    assert(p.pending() =~= Seq::<usize>::empty());
    let steps = seq![CoordinatorStep::Dispatch, CoordinatorStep::Complete(result), CoordinatorStep::Poll];
    assert(steps.drop_first() =~= seq![CoordinatorStep::Complete(result), CoordinatorStep::Poll]);
    assert(steps.drop_first().drop_first() =~= seq![CoordinatorStep::Poll]);
    assert(steps.drop_first().drop_first().drop_first() =~= Seq::<CoordinatorStep>::empty());
    let t1 = steps.drop_first();
    let t2 = t1.drop_first();
    let t3 = t2.drop_first();
    let s1 = s.after_step(steps[0]);
    let s2 = s1.after_step(t1[0]);
    let s3 = s2.after_step(t2[0]);
    assert(s3.run(t3).1 == Seq::<usize>::empty());
    assert(s2.delivered_by(t2[0]) =~= seq![req.node]);
    assert(s2.run(t2).1 =~= seq![req.node]);
    assert(s1.delivered_by(t1[0]) =~= Seq::<usize>::empty());
    assert(s1.run(t1).1 =~= seq![req.node]);
    assert(s.delivered_by(steps[0]) =~= Seq::<usize>::empty());
    assert(s.run(steps).1 =~= seq![req.node]);
}

/// Two requests accepted back to back on an idle coordinator: whatever happens next,
/// the first result collected is the first request's, and the second is the second's.
pub proof fn lemma_two_requests_in_order(
    m: CoordinatorModel,
    a: ExecutionRequest,
    b: ExecutionRequest,
    steps: Seq<CoordinatorStep>,
)
    requires
        m.pending().len() == 0,
    ensures
        ({
            let out = m.after_submit(a).after_submit(b).run(steps).1;
            &&& out.len() <= 2
            &&& out.len() >= 1 ==> out[0] == a.node
            &&& out.len() == 2 ==> out[1] == b.node
        }),
{
    let m2 = m.after_submit(a).after_submit(b);
    lemma_submit_appends(m, a);
    lemma_submit_appends(m.after_submit(a), b);
    assert(m2.pending() =~= seq![a.node, b.node]);
    lemma_results_in_submission_order(m2, steps);
    let out = m2.run(steps).1;
    assert(out.len() <= 2);
    if out.len() >= 1 {
        assert(m2.pending()[0] == out[0]);
    }
    if out.len() == 2 {
        assert(m2.pending()[1] == out[1]);
    }
}

} // verus!
