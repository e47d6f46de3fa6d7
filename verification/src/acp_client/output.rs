//! What an agent process wrote before its session began, for the report of a
//! failed start.

use crate::split::{cat, cat3, cat4, join, joined, opt_text, texts};
use crate::text::{from_utf8_lossy, trim, trimmed, utf8_lossy};
use vstd::prelude::*;
use vstd::string::*;

verus! {

/// How many bytes of each output are kept.
pub const STARTUP_OUTPUT_LIMIT: usize = 4096;

/// The beginning of an output.
#[derive(Debug)]
pub struct CapturedOutput {
    pub bytes: Vec<u8>,
    pub truncated: bool,
}

/// What is kept of an output: its first bytes, and whether there were more.
pub open spec fn captured(all: Seq<u8>) -> (Seq<u8>, bool) {
    if all.len() > STARTUP_OUTPUT_LIMIT {
        (all.take(STARTUP_OUTPUT_LIMIT as int), true)
    } else {
        (all, false)
    }
}

impl View for CapturedOutput {
    type V = (Seq<u8>, bool);

    open spec fn view(&self) -> (Seq<u8>, bool) {
        (self.bytes@, self.truncated)
    }
}

/// What an output shows: its text without surrounding white space, marked where
/// it was cut off; nothing where only white space is left.
pub open spec fn rendered(text: Seq<char>, truncated: bool) -> Option<Seq<char>> {
    if trim(text).len() == 0 {
        None
    } else if truncated {
        Some(trim(text) + "\n...[truncated]"@)
    } else {
        Some(trim(text))
    }
}

/// Shows a text that was written, marked where it was cut off.
pub fn render_text(text: &str, truncated: bool) -> (r: Option<String>)
    ensures
        opt_text(r) == rendered(text@, truncated),
{
    let t = trimmed(text);
    if t.unicode_len() == 0 {
        None
    } else if truncated {
        Some(cat(t, "\n...[truncated]"))
    } else {
        Some(t.to_string())
    }
}

impl CapturedOutput {
    /// An output of which nothing has come yet.
    pub fn new() -> (r: Self)
        ensures
            r@ == captured(Seq::empty()),
            r.wf(),
    {
        CapturedOutput { bytes: Vec::new(), truncated: false }
    }

    /// No more is kept than the limit.
    pub open spec fn wf(&self) -> bool {
        self.bytes@.len() <= STARTUP_OUTPUT_LIMIT
    }

    /// Takes the next bytes of the output, as far as there is room.
    pub fn push(&mut self, chunk: &[u8])
        requires
            old(self).wf(),
        ensures
            final(self).wf(),
            final(self).bytes@ == captured(old(self).bytes@ + chunk@).0,
            final(self).truncated == (old(self).truncated || captured(old(self).bytes@ + chunk@).1),
    {
        let ghost all = self.bytes@ + chunk@;
        let mut i: usize = 0;
        while i < chunk.len() && self.bytes.len() < STARTUP_OUTPUT_LIMIT
            invariant
                i <= chunk@.len(),
                self.bytes@.len() <= STARTUP_OUTPUT_LIMIT,
                self.bytes@ == old(self).bytes@ + chunk@.take(i as int),
                self.truncated == old(self).truncated,
            decreases chunk@.len() - i,
        {
            self.bytes.push(chunk[i]);
            i += 1;
        }
        proof {
            assert(all.take(self.bytes@.len() as int) == self.bytes@);
            assert(all.take(all.len() as int) == all);
        }
        if i < chunk.len() {
            self.truncated = true;
        }
    }

    /// The output as text.
    pub fn render(&self) -> (r: Option<String>)
        ensures
            opt_text(r) == rendered(utf8_lossy(self.bytes@), self.truncated),
    {
        let text = from_utf8_lossy(self.bytes.as_slice());
        render_text(text.as_str(), self.truncated)
    }

    /// Takes a line of the output, unless it is blank.
    pub fn push_line(&mut self, line: &str)
        requires
            old(self).wf(),
        ensures
            final(self).wf(),
            trim(line@).len() == 0 ==> final(self)@ == old(self)@,
            trim(line@).len() > 0 ==> final(self).bytes@ == captured(
                old(self).bytes@ + vstd::utf8::encode_utf8(line@),
            ).0 && final(self).truncated == (old(self).truncated || captured(
                old(self).bytes@ + vstd::utf8::encode_utf8(line@),
            ).1),
    {
        if trimmed(line).unicode_len() > 0 {
            self.push(line.as_bytes());
        }
    }
}

/// However an output arrives, what is kept of it is its beginning: keeping two
/// pieces one after the other keeps the same as keeping them at once.
pub proof fn captured_in_pieces(a: Seq<u8>, b: Seq<u8>)
    ensures
        captured(captured(a).0 + b).0 == captured(a + b).0,
        (captured(a).1 || captured(captured(a).0 + b).1) == captured(a + b).1,
{
    if a.len() > STARTUP_OUTPUT_LIMIT {
        let limit = STARTUP_OUTPUT_LIMIT as int;
        assert((a.take(limit) + b).take(limit) == (a + b).take(limit));
        assert(captured(a.take(limit) + b).0 == a.take(limit));
        assert((a + b).take(limit) == a.take(limit));
    }
}

/// What is known of an agent process while it starts.
#[derive(Debug)]
pub struct StartupDiagnostics {
    pub command: String,
    pub args: Vec<String>,
    pub stdout: CapturedOutput,
    pub stderr: CapturedOutput,
}

/// A command with its arguments, as it would be typed.
pub open spec fn command_line(command: Seq<char>, args: Seq<Seq<char>>) -> Seq<char> {
    if args.len() == 0 {
        command
    } else {
        command + " "@ + joined(args, " "@)
    }
}

/// One output in the report of a failed start.
pub open spec fn output_section(heading: Seq<char>, output: Option<Seq<char>>) -> Seq<char> {
    match output {
        Some(text) => heading + text,
        None => Seq::empty(),
    }
}

/// The report of a failed start.
pub open spec fn failure_report(
    stage: Seq<char>,
    error: Seq<char>,
    line: Seq<char>,
    stdout: Option<Seq<char>>,
    stderr: Option<Seq<char>>,
) -> Seq<char> {
    "Agent startup failed while "@ + stage + ": "@ + error + ("\nCommand: "@ + line)
        + output_section("\nstdout:\n"@, stdout) + output_section("\nstderr:\n"@, stderr)
}

/// The report of a failed start, from what the two outputs show.
pub fn report_failure(
    stage: &str,
    error: &str,
    line: &str,
    stdout: Option<String>,
    stderr: Option<String>,
) -> (r: String)
    ensures
        r@ == failure_report(stage@, error@, line@, opt_text(stdout), opt_text(stderr)),
{
    let mut message = cat4("Agent startup failed while ", stage, ": ", error);
    message.append(cat("\nCommand: ", line).as_str());
    let ghost head = message@;
    if let Some(text) = stdout {
        message.append(cat("\nstdout:\n", text.as_str()).as_str());
    }
    proof {
        assert(head + Seq::<char>::empty() == head);
    }
    let ghost middle = message@;
    if let Some(text) = stderr {
        message.append(cat("\nstderr:\n", text.as_str()).as_str());
    }
    proof {
        assert(middle + Seq::<char>::empty() == middle);
    }
    message
}

impl StartupDiagnostics {
    /// A process of which nothing has been heard yet.
    pub fn new(command: String, args: Vec<String>) -> (r: Self)
        ensures
            r.command == command,
            r.args == args,
            r.stdout@ == captured(Seq::empty()),
            r.stderr@ == captured(Seq::empty()),
            r.wf(),
    {
        StartupDiagnostics {
            command,
            args,
            stdout: CapturedOutput::new(),
            stderr: CapturedOutput::new(),
        }
    }

    /// No more is kept of either output than the limit.
    pub open spec fn wf(&self) -> bool {
        self.stdout.wf() && self.stderr.wf()
    }

    /// Says why the agent did not start, with the command and what it wrote.
    pub fn format_failure(&self, stage: &str, error: &str) -> (r: String)
        ensures
            r@ == failure_report(
                stage@,
                error@,
                command_line(self.command@, texts(self.args@)),
                rendered(utf8_lossy(self.stdout.bytes@), self.stdout.truncated),
                rendered(utf8_lossy(self.stderr.bytes@), self.stderr.truncated),
            ),
    {
        let line = self.command_line();
        let stdout = self.render_output(&self.stdout);
        let stderr = self.render_output(&self.stderr);
        report_failure(stage, error, line.as_str(), stdout, stderr)
    }

    /// The command with its arguments.
    pub fn command_line(&self) -> (r: String)
        ensures
            r@ == command_line(self.command@, texts(self.args@)),
    {
        if self.args.len() == 0 {
            self.command.clone()
        } else {
            let args = join(&self.args, " ");
            cat3(self.command.as_str(), " ", args.as_str())
        }
    }

    /// One of the outputs as text.
    pub fn render_output(&self, output: &CapturedOutput) -> (r: Option<String>)
        ensures
            opt_text(r) == rendered(utf8_lossy(output.bytes@), output.truncated),
    {
        output.render()
    }
}

/// Of an output its first 4096 bytes are kept, or all of it where it is shorter,
/// and it counts as cut off just where there was more.
pub proof fn the_beginning_of_an_output_is_kept(all: Seq<u8>)
    ensures
        captured(all).0 == all.take(
            if all.len() > 4096 {
                4096
            } else {
                all.len() as int
            },
        ),
        captured(all).1 == (all.len() > 4096),
{
    assert(all.take(all.len() as int) == all);
}

/// What an output shows is its text without white space around it, marked just
/// where it was cut off; one of white space shows nothing.
pub proof fn outputs_are_shown_trimmed(text: Seq<char>)
    ensures
        trim(text).len() == 0 ==> rendered(text, false) is None && rendered(text, true) is None,
        trim(text).len() > 0 ==> rendered(text, false) == Some(trim(text)) && rendered(text, true)
            == Some(trim(text) + "\n...[truncated]"@),
{
}

/// A command is written with its arguments behind it, in their order, with one
/// blank between each two.
pub proof fn commands_are_written_with_their_arguments(command: Seq<char>, args: Seq<Seq<char>>)
    ensures
        command_line(command, args) == joined(seq![command] + args, " "@),
    decreases args.len(),
{
    let all = seq![command] + args;
    if args.len() == 0 {
        assert(all == seq![command]);
    } else {
        crate::split::lemma_joined_front(command, args, " "@);
    }
}

/// The report of a failed start says at what stage and why it failed, with the
/// command, and then what the agent wrote, in its two outputs, as far as it wrote
/// anything.
pub proof fn failed_starts_are_reported_in_full(
    stage: Seq<char>,
    error: Seq<char>,
    line: Seq<char>,
    stdout: Seq<char>,
    stderr: Seq<char>,
)
    ensures
        ({
            let head = "Agent startup failed while "@ + stage + ": "@ + error + ("\nCommand: "@
                + line);
            let out = "\nstdout:\n"@ + stdout;
            let err = "\nstderr:\n"@ + stderr;
            &&& failure_report(stage, error, line, None, None) == head
            &&& failure_report(stage, error, line, Some(stdout), None) == head + out
            &&& failure_report(stage, error, line, None, Some(stderr)) == head + err
            &&& failure_report(stage, error, line, Some(stdout), Some(stderr)) == head + out + err
        }),
{
    let head = "Agent startup failed while "@ + stage + ": "@ + error + ("\nCommand: "@ + line);
    let out = "\nstdout:\n"@ + stdout;
    assert(head + Seq::<char>::empty() == head);
    assert(head + out + Seq::<char>::empty() == head + out);
}

/// An output begins empty; a line that shows nothing is not kept, and what is pushed
/// stands behind what was there, as long as there is room.
pub proof fn outputs_grow_by_what_is_pushed(
    fresh: CapturedOutput,
    o: &mut CapturedOutput,
    chunk: &[u8],
    line: &str,
)
    ensures
        call_ensures(CapturedOutput::new, (), fresh) ==> fresh.bytes@.len() == 0 && !fresh.truncated,
        call_ensures(CapturedOutput::push, (o, chunk), ()) && old(o).bytes@.len() + chunk@.len()
            <= STARTUP_OUTPUT_LIMIT ==> final(o).bytes@ == old(o).bytes@ + chunk@ && final(o).truncated == old(o).truncated,
        call_ensures(CapturedOutput::push, (o, chunk), ()) && old(o).bytes@.len() + chunk@.len()
            > STARTUP_OUTPUT_LIMIT ==> final(o).truncated && final(o).bytes@ == (old(o).bytes@
            + chunk@).take(STARTUP_OUTPUT_LIMIT as int),
        call_ensures(CapturedOutput::push_line, (o, line), ()) && trim(line@).len() == 0 ==> final(o)@ == old(o)@,
        call_ensures(CapturedOutput::push_line, (o, line), ()) && trim(line@).len() > 0 && old(
            o,
        ).bytes@.len() + vstd::utf8::encode_utf8(line@).len() <= STARTUP_OUTPUT_LIMIT ==> final(o).bytes@ == old(o).bytes@ + vstd::utf8::encode_utf8(line@),
{
}

/// An output is shown without the white space around it, and not at all where there is
/// nothing else; a failure names the stage, the reason and the command.
pub proof fn failures_show_the_output(
    text: &str,
    truncated: bool,
    shown: Option<String>,
    stage: &str,
    error: &str,
    line: &str,
    none: Option<String>,
    report: String,
)
    ensures
        call_ensures(render_text, (text, truncated), shown) && trim(text@).len() == 0
            ==> shown is None,
        call_ensures(render_text, (text, truncated), shown) && trim(text@).len() > 0 && !truncated
            ==> shown is Some && shown->0@ == trim(text@),
        call_ensures(render_text, (text, truncated), shown) && trim(text@).len() > 0 && truncated
            ==> shown is Some && shown->0@ == trim(text@) + "\n...[truncated]"@,
        call_ensures(report_failure, (stage, error, line, none, none), report) && none is None
            ==> report@ == "Agent startup failed while "@ + stage@ + ": "@ + error@ + (
        "\nCommand: "@ + line@),
{
    let text = "Agent startup failed while "@ + stage@ + ": "@ + error@ + ("\nCommand: "@ + line@);
    assert(text + Seq::<char>::empty() + Seq::<char>::empty() == text);
}

}
