//! Shell sessions in pods: what is asked for, what was said, and how it ends.
use vstd::prelude::*;
use vstd::utf8::{decode_utf8, valid_utf8};
use crate::objects::{copy_or_empty, text_or};
use crate::scan::{char_index, cut_at, lemma_char_index_bound};
use crate::text::{copy_texts, lemma_texts_push, texts};

verus! {

broadcast use lemma_texts_push;

// ---------------------------------------------------------------------------
// Requests
// ---------------------------------------------------------------------------

/// What is to be run in which container.
#[derive(Debug)]
pub struct ExecRequest {
    pub pod_name: String,
    pub namespace: String,
    pub container: Option<String>,
    /// The command; an empty one asks for a shell.
    pub command: Vec<String>,
    pub tty: bool,
}

impl ExecRequest {
    /// Asks for a shell in a pod.
    pub fn shell(pod_name: &str, namespace: &str) -> (r: Self)
        ensures
            r.pod_name@ == pod_name@,
            r.namespace@ == namespace@,
            r.container is None,
            r.command@.len() == 0,
            r.tty,
    {
        ExecRequest {
            pod_name: pod_name.to_owned(),
            namespace: namespace.to_owned(),
            container: None,
            command: Vec::new(),
            tty: true,
        }
    }

    /// Asks for a command in a pod.
    pub fn with_command(pod_name: &str, namespace: &str, command: Vec<String>) -> (r: Self)
        ensures
            r.pod_name@ == pod_name@,
            r.namespace@ == namespace@,
            r.container is None,
            r.command == command,
            !r.tty,
    {
        ExecRequest {
            pod_name: pod_name.to_owned(),
            namespace: namespace.to_owned(),
            container: None,
            command,
            tty: false,
        }
    }

    /// The same request for a container.
    pub fn container(self, name: &str) -> (r: Self)
        ensures
            r.container is Some,
            r.container->0@ == name@,
            r == (ExecRequest { container: r.container, ..self }),
    {
        ExecRequest { container: Some(name.to_owned()), ..self }
    }

    /// The same request with or without a terminal.
    pub fn tty(self, tty: bool) -> (r: Self)
        ensures
            r == (ExecRequest { tty, ..self }),
    {
        ExecRequest { tty, ..self }
    }
}

/// The shells that are tried, in this order.
pub open spec fn shells() -> Seq<Seq<char>> {
    seq!["/bin/bash"@, "/bin/sh"@]
}

/// The shells that are tried, in this order.
pub fn shell_candidates() -> (r: Vec<String>)
    ensures
        texts(r@) == shells(),
{
    let mut v: Vec<String> = Vec::new();
    v.push("/bin/bash".to_owned());
    v.push("/bin/sh".to_owned());
    proof {
        assert(texts(v@) =~= shells());
    }
    v
}

/// The commands that are tried for a request: its own, or each of the shells.
pub open spec fn commands_of(req: ExecRequest) -> Seq<Seq<Seq<char>>> {
    if req.command@.len() == 0 {
        shells().map_values(|s: Seq<char>| seq![s])
    } else {
        seq![texts(req.command@)]
    }
}

/// Commands as values.
pub open spec fn commands_model(s: Seq<Vec<String>>) -> Seq<Seq<Seq<char>>> {
    s.map_values(|c: Vec<String>| texts(c@))
}

/// The commands that are tried for a request, in this order.
pub fn exec_commands(req: &ExecRequest) -> (r: Vec<Vec<String>>)
    ensures
        commands_model(r@) == commands_of(*req),
{
    let mut out: Vec<Vec<String>> = Vec::new();
    if req.command.len() == 0 {
        let all = shell_candidates();
        proof {
            assert(texts(all@).len() == all@.len());
            assert(all@[0]@ == texts(all@)[0]);
            assert(all@[1]@ == texts(all@)[1]);
        }
        let mut first: Vec<String> = Vec::new();
        first.push(all[0].clone());
        let mut second: Vec<String> = Vec::new();
        second.push(all[1].clone());
        proof {
            assert(texts(first@) =~= seq![shells()[0]]);
            assert(texts(second@) =~= seq![shells()[1]]);
        }
        out.push(first);
        out.push(second);
    } else {
        out.push(copy_texts(&req.command));
    }
    proof {
        assert(commands_model(out@) =~= commands_of(*req));
    }
    out
}

/// How a process is attached to. With a terminal, what goes wrong comes with
/// the rest.
#[derive(Debug, Clone, Copy, PartialEq, Eq, Structural)]
pub struct AttachPlan {
    pub stdin: bool,
    pub stdout: bool,
    pub stderr: bool,
    pub tty: bool,
}

/// How a process is attached to.
pub fn attach_plan(tty: bool) -> (r: AttachPlan)
    ensures
        r == (AttachPlan { stdin: true, stdout: true, stderr: !tty, tty }),
{
    AttachPlan { stdin: true, stdout: true, stderr: !tty, tty }
}

/// What is done next to start a command.
#[derive(Debug)]
pub enum ExecStep {
    /// Try the command at this position.
    Try(usize),
    /// Give up and say why.
    GiveUp(ExecMessage),
}

/// Decides what is done after a number of commands have failed, the last of
/// them with the given error.
pub fn exec_step(commands: usize, failed: usize, last_error: Option<&str>) -> (r: ExecStep)
    ensures
        if failed < commands {
            r matches ExecStep::Try(i) && i == failed
        } else {
            r matches ExecStep::GiveUp(ExecMessage::Error(e)) && e@ == "exec failed: "@ + (
            match last_error {
                Some(cause) => cause@,
                None => "no commands to try"@,
            })
        },
{
    if failed < commands {
        ExecStep::Try(failed)
    } else {
        let mut message = "exec failed: ".to_owned();
        match last_error {
            Some(cause) => {
                message.append(cause);
            },
            None => {
                message.append("no commands to try");
            },
        }
        ExecStep::GiveUp(ExecMessage::Error(message))
    }
}

// ---------------------------------------------------------------------------
// Messages
// ---------------------------------------------------------------------------

/// What comes from a running process.
#[derive(Debug, Clone)]
pub enum ExecMessage {
    Stdout(Vec<u8>),
    Stderr(Vec<u8>),
    /// The process ended; where it ended badly, with the reason.
    Exited(Option<String>),
    Error(String),
}

/// The size of a terminal.
#[derive(Debug, Clone, Copy, PartialEq, Eq, Structural)]
pub struct TerminalSize {
    pub cols: u16,
    pub rows: u16,
}

/// What a read from a process brought.
#[derive(Debug)]
pub enum ReadResult {
    /// Nothing is left to read.
    End,
    Data(Vec<u8>),
    Failed(String),
}

/// What a read from a process means: the message to pass on, and whether
/// reading goes on.
pub fn on_read(from_stdout: bool, result: ReadResult) -> (r: (Option<ExecMessage>, bool))
    ensures
        match result {
            ReadResult::End => r.0 is None && !r.1,
            ReadResult::Data(bytes) => r.1 && r.0 == Some(
                if from_stdout {
                    ExecMessage::Stdout(bytes)
                } else {
                    ExecMessage::Stderr(bytes)
                },
            ),
            ReadResult::Failed(cause) => {
                &&& !r.1
                &&& r.0 matches Some(ExecMessage::Error(e))
                &&& e@ == (if from_stdout {
                    "stdout read: "@
                } else {
                    "stderr read: "@
                }) + cause@
            },
        },
{
    match result {
        ReadResult::End => (None, false),
        ReadResult::Data(bytes) => if from_stdout {
            (Some(ExecMessage::Stdout(bytes)), true)
        } else {
            (Some(ExecMessage::Stderr(bytes)), true)
        },
        ReadResult::Failed(cause) => {
            let prefix = if from_stdout {
                "stdout read: "
            } else {
                "stderr read: "
            };
            let mut message = prefix.to_owned();
            message.append(cause.as_str());
            (Some(ExecMessage::Error(message)), false)
        },
    }
}

/// The text that `std` makes of bytes that need not be UTF-8.
pub uninterp spec fn lossy_text(bytes: Seq<u8>) -> Seq<char>;

/// `std`: `String::from_utf8_lossy`, and the text of what it gives as an owned
/// one. Bytes that are UTF-8 are the text that they encode. Of other bytes only
/// that the text depends on them alone is said: which of them make up one
/// replacement character takes more than a few lines.
#[verifier::external_body]
fn decode_lossy(bytes: &Vec<u8>) -> (r: String)
    ensures
        r@ == lossy_text(bytes@),
        valid_utf8(bytes@) ==> r@ == decode_utf8(bytes@),
{
    String::from_utf8_lossy(bytes).into_owned()
}

// ---------------------------------------------------------------------------
// Sessions
// ---------------------------------------------------------------------------

/// A session in a pod.
#[derive(Debug)]
pub struct ExecSession {
    /// Whether the process still runs.
    pub active: bool,
    pub pod_name: String,
    /// Empty where no container was asked for.
    pub container_name: String,
    pub namespace: String,
    pub output_lines: Vec<String>,
    /// What is being typed.
    pub input_line: String,
}

/// What a session has shown, and whether it runs.
#[verifier::ext_equal]
pub struct ScreenModel {
    pub lines: Seq<Seq<char>>,
    pub active: bool,
}

/// The parts of a text between line feeds that are not empty.
pub open spec fn output_parts(s: Seq<char>) -> Seq<Seq<char>>
    decreases s.len(),
{
    let n = char_index(s, '\n');
    if n >= s.len() || n < 0 {
        if s.len() == 0 {
            Seq::empty()
        } else {
            seq![s]
        }
    } else {
        (if n == 0 {
            Seq::empty()
        } else {
            seq![s.take(n)]
        }) + output_parts(s.skip(n + 1))
    }
}

/// How the end of a process is shown.
pub open spec fn end_marker(reason: Option<String>) -> Seq<char> {
    match reason {
        Some(r) => "[session exited: "@ + r@ + "]"@,
        None => "[session exited]"@,
    }
}

/// What a message adds to a session.
pub open spec fn shown(s: ScreenModel, msg: ExecMessage) -> ScreenModel {
    match msg {
        ExecMessage::Stdout(bytes) => ScreenModel {
            lines: s.lines + output_parts(lossy_text(bytes@)),
            active: s.active,
        },
        ExecMessage::Stderr(bytes) => ScreenModel {
            lines: s.lines + output_parts(lossy_text(bytes@)),
            active: s.active,
        },
        ExecMessage::Exited(reason) => ScreenModel {
            lines: s.lines.push(end_marker(reason)),
            active: false,
        },
        ExecMessage::Error(e) => ScreenModel {
            lines: s.lines.push("[error: "@ + e@ + "]"@),
            active: false,
        },
    }
}

/// What the first messages add to a session.
pub open spec fn all_shown(s: ScreenModel, msgs: Seq<ExecMessage>, n: int) -> ScreenModel
    decreases n,
{
    if n <= 0 {
        s
    } else {
        shown(all_shown(s, msgs, n - 1), msgs[n - 1])
    }
}

/// Whether two sessions are of the same container and hold the same input.
pub open spec fn same_target(a: ExecSession, b: ExecSession) -> bool {
    a.pod_name == b.pod_name && a.container_name == b.container_name && a.namespace == b.namespace
        && a.input_line == b.input_line
}

/// Text around a text.
fn bracketed(before: &str, s: &str) -> (r: String)
    ensures
        r@ == before@ + s@ + "]"@,
{
    let mut out = before.to_owned();
    out.append(s);
    out.append("]");
    out
}

impl ExecSession {
    /// What the session has shown, and whether it runs.
    pub open spec fn screen(self) -> ScreenModel {
        ScreenModel { lines: texts(self.output_lines@), active: self.active }
    }

    /// The session of a request, before anything was said.
    pub fn new(req: &ExecRequest) -> (r: Self)
        ensures
            r.active,
            r.pod_name@ == req.pod_name@,
            r.container_name@ == text_or(req.container, Seq::empty()),
            r.namespace@ == req.namespace@,
            r.output_lines@.len() == 0,
            r.input_line@.len() == 0,
    {
        let input_line = String::new();
        ExecSession {
            active: true,
            pod_name: req.pod_name.clone(),
            container_name: copy_or_empty(&req.container),
            namespace: req.namespace.clone(),
            output_lines: Vec::new(),
            input_line,
        }
    }

    /// Adds what the process said, line by line; empty lines are left out.
    pub fn push_output(&mut self, text: &str)
        ensures
            texts(final(self).output_lines@) == texts(old(self).output_lines@) + output_parts(
                text@,
            ),
            final(self).active == old(self).active,
            same_target(*final(self), *old(self)),
        decreases text@.len(),
    {
        let ghost before = texts(self.output_lines@);
        let (head, tail) = cut_at(text, '\n');
        proof {
            lemma_char_index_bound(text@, '\n');
            assert(text@.take(text@.len() as int) =~= text@);
        }
        let empty = head.as_str().is_empty();
        if !empty {
            self.output_lines.push(head);
        }
        let ghost so_far = texts(self.output_lines@);
        proof {
            assert(so_far =~= before + (if empty {
                Seq::empty()
            } else {
                seq![head@]
            }));
        }
        match tail {
            None => {
                proof {
                    assert(so_far =~= before + output_parts(text@));
                }
            },
            Some(rest) => {
                self.push_output(rest.as_str());
                proof {
                    assert(texts(self.output_lines@) =~= before + output_parts(text@));
                }
            },
        }
    }

    /// Takes one message in.
    pub fn on_message(&mut self, msg: &ExecMessage)
        ensures
            final(self).screen() == shown(old(self).screen(), *msg),
            same_target(*final(self), *old(self)),
    {
        match msg {
            ExecMessage::Stdout(bytes) => {
                let text = decode_lossy(bytes);
                self.push_output(text.as_str());
            },
            ExecMessage::Stderr(bytes) => {
                let text = decode_lossy(bytes);
                self.push_output(text.as_str());
            },
            ExecMessage::Exited(reason) => {
                self.active = false;
                let marker = match reason {
                    Some(r) => bracketed("[session exited: ", r.as_str()),
                    None => "[session exited]".to_owned(),
                };
                self.output_lines.push(marker);
            },
            ExecMessage::Error(e) => {
                self.active = false;
                self.output_lines.push(bracketed("[error: ", e.as_str()));
            },
        }
    }

    /// Takes all pending messages in, in their order, and hands them on.
    pub fn poll_messages(&mut self, pending: Vec<ExecMessage>) -> (r: Vec<ExecMessage>)
        ensures
            final(self).screen() == all_shown(
                old(self).screen(),
                pending@,
                pending@.len() as int,
            ),
            same_target(*final(self), *old(self)),
            r == pending,
    {
        let mut i: usize = 0;
        while i < pending.len()
            invariant
                i <= pending@.len(),
                self.screen() == all_shown(old(self).screen(), pending@, i as int),
                same_target(*self, *old(self)),
            decreases pending@.len() - i,
        {
            self.on_message(&pending[i]);
            i += 1;
        }
        pending
    }

    /// Ends the session.
    pub fn close(&mut self)
        ensures
            *final(self) == (ExecSession { active: false, ..*old(self) }),
    {
        self.active = false;
    }

    /// The heading of the session.
    pub fn title(&self) -> (r: String)
        ensures
            r@ == "exec: "@ + self.namespace@ + "/"@ + self.pod_name@ + (
            if self.container_name@.len() == 0 {
                Seq::empty()
            } else {
                " ("@ + self.container_name@ + ")"@
            }),
    {
        let mut out = "exec: ".to_owned();
        out.append(self.namespace.as_str());
        out.append("/");
        out.append(self.pod_name.as_str());
        let ghost head = out@;
        if !self.container_name.as_str().is_empty() {
            out.append(" (");
            out.append(self.container_name.as_str());
            out.append(")");
            proof {
                assert(out@ =~= head + (" ("@ + self.container_name@ + ")"@));
            }
        } else {
            proof {
                assert(head + Seq::<char>::empty() =~= head);
            }
        }
        out
    }

    /// How many lines were shown.
    pub fn line_count(&self) -> (r: usize)
        ensures
            r == self.output_lines@.len(),
    {
        self.output_lines.len()
    }
}

/// Messages only add lines: what was shown stays.
pub proof fn law_output_only_grows(s: ScreenModel, msgs: Seq<ExecMessage>, n: int)
    requires
        0 <= n <= msgs.len(),
    ensures
        ({
            let after = all_shown(s, msgs, n).lines;
            after.len() >= s.lines.len() && after.take(s.lines.len() as int) == s.lines
        }),
    decreases n,
{
    if n > 0 {
        law_output_only_grows(s, msgs, n - 1);
        let before = all_shown(s, msgs, n - 1).lines;
        let after = all_shown(s, msgs, n).lines;
        assert(after.take(s.lines.len() as int) =~= before.take(s.lines.len() as int));
    } else {
        assert(s.lines.take(s.lines.len() as int) =~= s.lines);
    }
}

/// A session that has ended stays ended.
pub proof fn law_ended_stays_ended(s: ScreenModel, msgs: Seq<ExecMessage>, n: int)
    requires
        !s.active,
    ensures
        !all_shown(s, msgs, n).active,
    decreases n,
{
    if n > 0 {
        law_ended_stays_ended(s, msgs, n - 1);
    }
}

/// A session runs on exactly as long as no message says that it ended or failed.
pub proof fn law_runs_until_end(s: ScreenModel, msgs: Seq<ExecMessage>, n: int)
    requires
        s.active,
        0 <= n <= msgs.len(),
    ensures
        all_shown(s, msgs, n).active <==> forall|i: int|
            0 <= i < n ==> (#[trigger] msgs[i] is Stdout || msgs[i] is Stderr),
    decreases n,
{
    if n > 0 {
        law_runs_until_end(s, msgs, n - 1);
        assert(msgs[n - 1] == msgs[n - 1]);
    }
}

/// No empty line is shown of what a process says, and none holds a line feed.
pub proof fn law_no_empty_output(s: Seq<char>, i: int)
    requires
        0 <= i < output_parts(s).len(),
    ensures
        output_parts(s)[i].len() > 0,
        !output_parts(s)[i].contains('\n'),
    decreases s.len(),
{
    lemma_char_index_bound(s, '\n');
    let n = char_index(s, '\n');
    if n < s.len() {
        let k: int = if n == 0 {
            0
        } else {
            1
        };
        if i >= k {
            law_no_empty_output(s.skip(n + 1), i - k);
        } else {
            assert(output_parts(s)[i] == s.take(n));
        }
    }
}

} // verus!
