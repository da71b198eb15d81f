//! The Debug Adapter Protocol as data: messages, responses, the command each
//! debugger operation sends, and the numbering of requests awaiting their
//! responses. Running the adapter process and moving the messages are
//! outside the library; arguments and bodies are JSON text.
use vstd::prelude::*;

verus! {

/// A DAP message.
#[derive(Debug)]
pub enum DAPMessage {
    Request { seq: usize, command: String, arguments: Option<String> },
    Response {
        seq: usize,
        request_seq: usize,
        success: bool,
        command: String,
        message: Option<String>,
        body: Option<String>,
    },
    Event { seq: usize, event: String, body: Option<String> },
}

/// A DAP response.
#[derive(Debug)]
pub struct DAPResponse {
    pub success: bool,
    pub message: Option<String>,
    pub body: Option<String>,
}

/// What the debugger asks of an adapter.
#[derive(Debug, Clone, Copy, PartialEq, Eq, Structural)]
pub enum DebugOperation {
    Initialize,
    Launch,
    Attach,
    Pause,
    Resume,
    StepOver,
    StepInto,
    StepOut,
    SetBreakpoints,
    StackTrace,
    Scopes,
    Variables,
    Evaluate,
    Terminate,
    Disconnect,
}

/// The DAP command of an operation.
pub open spec fn command_of(op: DebugOperation) -> Seq<char> {
    match op {
        DebugOperation::Initialize => "initialize"@,
        DebugOperation::Launch => "launch"@,
        DebugOperation::Attach => "attach"@,
        DebugOperation::Pause => "pause"@,
        DebugOperation::Resume => "continue"@,
        DebugOperation::StepOver => "next"@,
        DebugOperation::StepInto => "stepIn"@,
        DebugOperation::StepOut => "stepOut"@,
        DebugOperation::SetBreakpoints => "setBreakpoints"@,
        DebugOperation::StackTrace => "stackTrace"@,
        DebugOperation::Scopes => "scopes"@,
        DebugOperation::Variables => "variables"@,
        DebugOperation::Evaluate => "evaluate"@,
        DebugOperation::Terminate => "terminate"@,
        DebugOperation::Disconnect => "disconnect"@,
    }
}

/// The DAP command of an operation; see `command_of`.
pub fn command_name(op: DebugOperation) -> (s: &'static str)
    ensures s@ == command_of(op),
{
    match op {
        DebugOperation::Initialize => "initialize",
        DebugOperation::Launch => "launch",
        DebugOperation::Attach => "attach",
        DebugOperation::Pause => "pause",
        DebugOperation::Resume => "continue",
        DebugOperation::StepOver => "next",
        DebugOperation::StepInto => "stepIn",
        DebugOperation::StepOut => "stepOut",
        DebugOperation::SetBreakpoints => "setBreakpoints",
        DebugOperation::StackTrace => "stackTrace",
        DebugOperation::Scopes => "scopes",
        DebugOperation::Variables => "variables",
        DebugOperation::Evaluate => "evaluate",
        DebugOperation::Terminate => "terminate",
        DebugOperation::Disconnect => "disconnect",
    }
}

/// The numbering of a client's requests: each request gets the next
/// sequence number and waits until its response comes.
pub struct RequestSequencer {
    next_seq: usize,
    pending: Vec<usize>,
}

impl RequestSequencer {
    /// The number the next request gets.
    pub closed spec fn next_seq_view(&self) -> usize {
        self.next_seq
    }

    /// The numbers of the requests awaiting a response, in the order sent.
    pub closed spec fn pending_view(&self) -> Seq<usize> {
        self.pending@
    }

    /// Every pending number was given out: it is below the next one.
    pub closed spec fn wf(&self) -> bool {
        self.next_seq >= 1 && forall|i: int| 0 <= i < self.pending@.len() ==> #[trigger] self.pending@[i] < self.next_seq
    }

    /// A sequencer whose first request is numbered 1.
    pub fn new() -> (s: Self)
        ensures s.wf(), s.next_seq_view() == 1, s.pending_view().len() == 0,
    {
        RequestSequencer { next_seq: 1, pending: Vec::new() }
    }

    /// The next request: numbered with the next number, which then waits.
    pub fn request(&mut self, command: &str, arguments: Option<String>) -> (m: DAPMessage)
        requires
            old(self).wf(),
            old(self).next_seq_view() < usize::MAX,
        ensures
            final(self).wf(),
            m matches DAPMessage::Request { seq, command: c, arguments: a } && seq == old(self).next_seq_view()
                && c@ == command@ && a == arguments,
            !old(self).pending_view().contains(old(self).next_seq_view()),
            final(self).pending_view() == old(self).pending_view().push(old(self).next_seq_view()),
            final(self).next_seq_view() == old(self).next_seq_view() + 1,
    {
        let seq = self.next_seq;
        proof {
            if self.pending@.contains(seq) {
                let i = choose|i: int| 0 <= i < self.pending@.len() && self.pending@[i] == seq;
                assert(self.pending@[i] < self.next_seq);
            }
        }
        self.next_seq = self.next_seq + 1;
        self.pending.push(seq);
        DAPMessage::Request { seq, command: crate::text::owned(command), arguments }
    }

    /// A response to request `request_seq` came: whether it was awaited; it
    /// no longer waits.
    pub fn complete(&mut self, request_seq: usize) -> (awaited: bool)
        requires old(self).wf(),
        ensures
            final(self).wf(),
            awaited == old(self).pending_view().contains(request_seq),
            !final(self).pending_view().contains(request_seq),
            final(self).next_seq_view() == old(self).next_seq_view(),
            forall|s: usize| s != request_seq ==> (#[trigger] final(self).pending_view().contains(s)
                <==> old(self).pending_view().contains(s)),
    {
        let ghost before = self.pending@;
        let mut kept: Vec<usize> = Vec::new();
        let mut found = false;
        let mut i: usize = 0;
        while i < self.pending.len()
            invariant
                i <= self.pending@.len(),
                self.pending@ == before,
                forall|j: int| 0 <= j < kept@.len() ==> #[trigger] kept@[j] != request_seq,
                forall|q: usize| #[trigger] kept@.contains(q) <==> (q != request_seq
                    && exists|j: int| 0 <= j < i && before[j] == q),
                found <==> exists|j: int| 0 <= j < i && before[j] == request_seq,
                forall|j: int| 0 <= j < kept@.len() ==> #[trigger] kept@[j] < self.next_seq,
                self.wf(),
            decreases self.pending.len() - i,
        {
            let s = self.pending[i];
            if s == request_seq {
                found = true;
                proof {
                    assert forall|q: usize| #[trigger] kept@.contains(q) <==> (q != request_seq
                        && exists|j: int| 0 <= j < i + 1 && before[j] == q) by {
                        if q != request_seq && exists|j: int| 0 <= j < i + 1 && before[j] == q {
                            let j = choose|j: int| 0 <= j < i + 1 && before[j] == q;
                            assert(j != i);
                        }
                    }
                }
            } else {
                let ghost k = kept@;
                kept.push(s);
                proof {
                    assert forall|q: usize| #[trigger] kept@.contains(q) <==> (q != request_seq
                        && exists|j: int| 0 <= j < i + 1 && before[j] == q) by {
                        if kept@.contains(q) {
                            let j = choose|j: int| 0 <= j < kept@.len() && kept@[j] == q;
                            if j < k.len() {
                                assert(k[j] == q);
                                assert(k.contains(q));
                            } else {
                                assert(before[i as int] == q);
                            }
                        }
                        if q != request_seq && exists|j: int| 0 <= j < i + 1 && before[j] == q {
                            let j = choose|j: int| 0 <= j < i + 1 && before[j] == q;
                            if j < i {
                                assert(k.contains(q));
                                let w = choose|w: int| 0 <= w < k.len() && k[w] == q;
                                assert(kept@[w] == q);
                            } else {
                                assert(kept@[k.len() as int] == q);
                            }
                        }
                    }
                    if exists|j: int| 0 <= j < i + 1 && before[j] == request_seq {
                        let j = choose|j: int| 0 <= j < i + 1 && before[j] == request_seq;
                        assert(j != i);
                    }
                }
            }
            i = i + 1;
        }
        self.pending = kept;
        found
    }
}

} // verus!
