use vstd::prelude::*;

verus! {

/// Commands handed to the single worker that talks to the webhook.
pub enum DiscordWebhookCommand {
    /// Send a message
    SendMessage { from: String, recipients: Vec<String>, body: String },
    /// Stop the worker once everything handed off before has been delivered
    Shutdown,
}

impl DiscordWebhookCommand {
    /// Makes the command that sends one message.
    pub fn send_message(from: String, recipients: Vec<String>, body: String) -> (r: Self)
        ensures
            r == (DiscordWebhookCommand::SendMessage { from, recipients, body }),
    {
        DiscordWebhookCommand::SendMessage { from, recipients, body }
    }

    /// Makes the command that stops the worker.
    pub fn shutdown() -> (r: Self)
        ensures
            r == DiscordWebhookCommand::Shutdown,
    {
        DiscordWebhookCommand::Shutdown
    }
}

/// What a session is told about a mail it handed off.
#[derive(Debug)]
pub enum DeliveryOutcome {
    /// The webhook accepted the message made of the mail with this id
    QueuedWithId(String),
    /// The mail was not delivered
    Failed,
}

/// The outcome of one delivery attempt of the mail with id `id`.
pub open spec fn outcome_of(id: String, delivered: bool) -> DeliveryOutcome {
    if delivered {
        DeliveryOutcome::QueuedWithId(id)
    } else {
        DeliveryOutcome::Failed
    }
}

/// What the worker is to do next.
pub enum WorkerAction<R> {
    /// Post one message to the webhook, then report to `reply` and call `complete`
    Deliver { from: String, recipients: Vec<String>, body: String, reply: R },
    /// Nothing to do yet
    Wait,
    /// Shut down: everything handed off has been served
    Stop,
}

/// The abstract state of a dispatch queue.
pub ghost struct QueueState<R> {
    /// New commands are taken
    pub accepting: bool,
    /// A delivery has been handed to the worker and not completed
    pub busy: bool,
    /// Commands not yet handed to the worker, oldest first, each with its reply slot
    pub pending: Seq<(DiscordWebhookCommand, R)>,
}

/// A shutdown command, if queued, is the last one, and once one is queued nothing more is taken.
pub open spec fn state_wf<R>(s: QueueState<R>) -> bool {
    forall|i: int|
        0 <= i < s.pending.len() && (#[trigger] s.pending[i]).0 is Shutdown ==> i == s.pending.len()
            - 1 && !s.accepting
}

/// Handing off a command: taken (and, for a shutdown, the queue closes) while the queue
/// accepts; refused with the state unchanged after a shutdown.
pub open spec fn submit_step<R>(s: QueueState<R>, cmd: DiscordWebhookCommand, reply: R) -> (
    QueueState<R>,
    bool,
) {
    if !s.accepting {
        (s, false)
    } else {
        (
            QueueState {
                accepting: !(cmd is Shutdown),
                busy: s.busy,
                pending: s.pending.push((cmd, reply)),
            },
            true,
        )
    }
}

/// The action that a queued command turns into when the worker takes it.
pub open spec fn action_of<R>(c: (DiscordWebhookCommand, R)) -> WorkerAction<R> {
    match c.0 {
        DiscordWebhookCommand::SendMessage { from, recipients, body } => WorkerAction::Deliver {
            from,
            recipients,
            body,
            reply: c.1,
        },
        DiscordWebhookCommand::Shutdown => WorkerAction::Stop,
    }
}

/// The worker asks for work: nothing while a delivery is in flight; else the oldest
/// pending command; else stop if the queue was shut down, or wait.
pub open spec fn next_step<R>(s: QueueState<R>) -> (QueueState<R>, WorkerAction<R>) {
    if s.busy {
        (s, WorkerAction::Wait)
    } else if s.pending.len() == 0 {
        (s, if s.accepting { WorkerAction::Wait } else { WorkerAction::Stop })
    } else {
        (
            QueueState {
                accepting: s.accepting,
                busy: s.pending[0].0 is SendMessage,
                pending: s.pending.drop_first(),
            },
            action_of(s.pending[0]),
        )
    }
}

/// The worker reports the end of a delivery, whatever its result.
pub open spec fn complete_step<R>(s: QueueState<R>) -> QueueState<R> {
    QueueState { accepting: s.accepting, busy: false, pending: s.pending }
}

/// The serialization point between sessions and the webhook: commands from any number of
/// sessions are queued in hand-off order and given to one worker, one delivery at a time.
pub struct DispatchQueue<R> {
    accepting: bool,
    busy: bool,
    pending: Vec<(DiscordWebhookCommand, R)>,
}

impl<R> DispatchQueue<R> {
    pub closed spec fn state(&self) -> QueueState<R> {
        QueueState { accepting: self.accepting, busy: self.busy, pending: self.pending@ }
    }

    pub open spec fn wf(&self) -> bool {
        state_wf(self.state())
    }

    /// An open, idle queue with nothing pending.
    pub fn new() -> (r: Self)
        ensures
            r.wf(),
            r.state() == (QueueState::<R> { accepting: true, busy: false, pending: seq![] }),
    {
        DispatchQueue { accepting: true, busy: false, pending: Vec::new() }
    }

    /// Hands a command off to the worker; says whether it was taken.
    pub fn submit(&mut self, cmd: DiscordWebhookCommand, reply: R) -> (r: bool)
        requires
            old(self).wf(),
        ensures
            final(self).wf(),
            (final(self).state(), r) == submit_step(old(self).state(), cmd, reply),
    {
        if !self.accepting {
            return false;
        }
        let closes = match cmd {
            DiscordWebhookCommand::Shutdown => true,
            _ => false,
        };
        self.pending.push((cmd, reply));
        if closes {
            self.accepting = false;
        }
        true
    }

    /// Gives the worker its next action.
    pub fn next_action(&mut self) -> (r: WorkerAction<R>)
        requires
            old(self).wf(),
        ensures
            final(self).wf(),
            (final(self).state(), r) == next_step(old(self).state()),
    {
        if self.busy {
            return WorkerAction::Wait;
        }
        if self.pending.len() == 0 {
            if self.accepting {
                return WorkerAction::Wait;
            } else {
                return WorkerAction::Stop;
            }
        }
        let ghost s = self.state();
        let (cmd, reply) = self.pending.remove(0);
        proof {
            assert(self.pending@ =~= s.pending.drop_first());
        }
        match cmd {
            DiscordWebhookCommand::SendMessage { from, recipients, body } => {
                self.busy = true;
                WorkerAction::Deliver { from, recipients, body, reply }
            },
            DiscordWebhookCommand::Shutdown => WorkerAction::Stop,
        }
    }

    /// Ends the delivery in flight and gives the outcome to report for the mail `id`.
    pub fn complete(&mut self, id: String, delivered: bool) -> (r: DeliveryOutcome)
        requires
            old(self).wf(),
        ensures
            final(self).wf(),
            final(self).state() == complete_step(old(self).state()),
            r == outcome_of(id, delivered),
    {
        self.busy = false;
        if delivered {
            DeliveryOutcome::QueuedWithId(id)
        } else {
            DeliveryOutcome::Failed
        }
    }
}

/// The state after handing off `cmds` one after another.
pub open spec fn submit_all<R>(s: QueueState<R>, cmds: Seq<(DiscordWebhookCommand, R)>) -> QueueState<R>
    decreases cmds.len(),
{
    if cmds.len() == 0 {
        s
    } else {
        submit_all(submit_step(s, cmds[0].0, cmds[0].1).0, cmds.drop_first())
    }
}

/// The actions the worker is given in `n` rounds of asking for work and completing it.
pub open spec fn serve<R>(s: QueueState<R>, n: nat) -> Seq<WorkerAction<R>>
    decreases n,
{
    if n == 0 {
        seq![]
    } else {
        let (t, a) = next_step(s);
        seq![a] + serve(complete_step(t), (n - 1) as nat)
    }
}

pub open spec fn all_messages<R>(cmds: Seq<(DiscordWebhookCommand, R)>) -> bool {
    forall|i: int| 0 <= i < cmds.len() ==> (#[trigger] cmds[i]).0 is SendMessage
}

proof fn lemma_submit_all_open<R>(s: QueueState<R>, cmds: Seq<(DiscordWebhookCommand, R)>)
    requires
        s.accepting,
        all_messages(cmds),
    ensures
        submit_all(s, cmds) == (QueueState { accepting: true, busy: s.busy, pending: s.pending + cmds }),
    decreases cmds.len(),
{
    if cmds.len() == 0 {
        assert(s.pending + cmds =~= s.pending);
    } else {
        let t = submit_step(s, cmds[0].0, cmds[0].1).0;
        assert(all_messages(cmds.drop_first())) by {
            assert forall|i: int| 0 <= i < cmds.drop_first().len() implies (
            #[trigger] cmds.drop_first()[i]).0 is SendMessage by {
                assert(cmds.drop_first()[i] == cmds[i + 1]);
            }
        }
        lemma_submit_all_open(t, cmds.drop_first());
        assert(t.pending + cmds.drop_first() =~= s.pending + cmds);
    }
}

proof fn lemma_serve_pending<R>(s: QueueState<R>)
    requires
        !s.busy,
        all_messages(s.pending),
    ensures
        serve(s, s.pending.len()) == s.pending.map_values(|c: (DiscordWebhookCommand, R)| action_of(c)),
    decreases s.pending.len(),
{
    let m = s.pending.map_values(|c: (DiscordWebhookCommand, R)| action_of(c));
    if s.pending.len() == 0 {
        assert(serve(s, 0) =~= m);
    } else {
        assert(s.pending[0].0 is SendMessage);
        let (t, a) = next_step(s);
        let u = complete_step(t);
        assert(u.pending == s.pending.drop_first());
        assert(all_messages(u.pending)) by {
            assert forall|i: int| 0 <= i < u.pending.len() implies (#[trigger] u.pending[i]).0 is SendMessage by {
                assert(u.pending[i] == s.pending[i + 1]);
            }
        }
        lemma_serve_pending(u);
        assert(serve(s, s.pending.len()) == seq![a] + serve(u, u.pending.len()));
        assert(seq![a] + u.pending.map_values(|c: (DiscordWebhookCommand, R)| action_of(c)) =~= m);
    }
}

/// Delivery order is hand-off order: messages handed off to an open, idle queue are given
/// to the worker one by one in exactly the order they came, after what was pending before.
/// Since the order is kept across all sessions, each session's own mails keep their order.
pub proof fn lemma_delivery_order<R>(s: QueueState<R>, cmds: Seq<(DiscordWebhookCommand, R)>)
    requires
        state_wf(s),
        s.accepting,
        !s.busy,
        all_messages(cmds),
    ensures
        serve(submit_all(s, cmds), s.pending.len() + cmds.len()) == (s.pending + cmds).map_values(
            |c: (DiscordWebhookCommand, R)| action_of(c),
        ),
{
    lemma_submit_all_open(s, cmds);
    let t = submit_all(s, cmds);
    assert(all_messages(t.pending)) by {
        assert forall|i: int| 0 <= i < t.pending.len() implies (#[trigger] t.pending[i]).0 is SendMessage by {
            if i < s.pending.len() {
                assert(t.pending[i] == s.pending[i]);
            } else {
                assert(t.pending[i] == cmds[i - s.pending.len()]);
            }
        }
    }
    lemma_serve_pending(t);
}

/// A failed delivery does not poison the worker: the queue is left exactly as after a
/// successful one, only that mail is reported as failed, and a message handed off next is
/// taken and, once what was pending before it has been served, given to the worker.
pub proof fn lemma_failure_isolated<R>(
    s: QueueState<R>,
    id: String,
    cmd: DiscordWebhookCommand,
    reply: R,
)
    requires
        state_wf(s),
        s.accepting,
        cmd is SendMessage,
    ensures
        outcome_of(id, false) == DeliveryOutcome::Failed,
        outcome_of(id, true) == DeliveryOutcome::QueuedWithId(id),
        ({
            let t = complete_step(s);
            let (u, taken) = submit_step(t, cmd, reply);
            &&& !t.busy
            &&& taken
            &&& serve(u, u.pending.len()).last() == action_of((cmd, reply))
        }),
{
    let t = complete_step(s);
    let u = submit_step(t, cmd, reply).0;
    assert(all_messages(u.pending)) by {
        assert forall|i: int| 0 <= i < u.pending.len() implies (#[trigger] u.pending[i]).0 is SendMessage by {
            if i < s.pending.len() {
                assert(u.pending[i] == s.pending[i]);
                assert(!(s.pending[i].0 is Shutdown));
            }
        }
    }
    lemma_serve_pending(u);
}

/// After a shutdown is handed off, every later hand-off is refused at once with the queue
/// unchanged, and once what came before has been served the worker is told to stop.
pub proof fn lemma_shutdown_refuses<R>(
    s: QueueState<R>,
    shutdown_reply: R,
    cmd: DiscordWebhookCommand,
    reply: R,
)
    requires
        state_wf(s),
        s.accepting,
    ensures
        ({
            let (t, taken) = submit_step(s, DiscordWebhookCommand::Shutdown, shutdown_reply);
            &&& taken
            &&& !t.accepting
            &&& submit_step(t, cmd, reply) == (t, false)
            &&& state_wf(t)
            &&& serve(complete_step(t), t.pending.len()).last() == WorkerAction::<R>::Stop
        }),
{
    let t = submit_step(s, DiscordWebhookCommand::Shutdown, shutdown_reply).0;
    assert(state_wf(t)) by {
        assert forall|i: int| 0 <= i < t.pending.len() && (#[trigger] t.pending[i]).0 is Shutdown implies i
            == t.pending.len() - 1 && !t.accepting by {
            if i < s.pending.len() {
                assert(t.pending[i] == s.pending[i]);
            }
        }
    }
    lemma_serve_until_stop(complete_step(t));
}

proof fn lemma_serve_until_stop<R>(s: QueueState<R>)
    requires
        state_wf(s),
        !s.busy,
        s.pending.len() > 0,
        s.pending.last().0 is Shutdown,
    ensures
        serve(s, s.pending.len()).last() == WorkerAction::<R>::Stop,
    decreases s.pending.len(),
{
    let (t, a) = next_step(s);
    let u = complete_step(t);
    if s.pending.len() == 1 {
        assert(serve(u, 0) =~= Seq::<WorkerAction<R>>::empty());
        assert(serve(s, 1) =~= seq![a]);
    } else {
        assert(u.pending == s.pending.drop_first());
        assert(state_wf(u)) by {
            assert forall|i: int| 0 <= i < u.pending.len() && (#[trigger] u.pending[i]).0 is Shutdown implies i
                == u.pending.len() - 1 && !u.accepting by {
                assert(u.pending[i] == s.pending[i + 1]);
            }
        }
        lemma_serve_until_stop(u);
        assert(serve(s, s.pending.len()) == seq![a] + serve(u, u.pending.len()));
    }
}

} // verus!
