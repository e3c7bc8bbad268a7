//! What a finished process left, and how a failure of one is reported.
use crate::decimal::{signed_decimal, signed_decimal_exec};
use crate::scan::{join, join_exec, trim, trim_exec};
use crate::text::{concat2, concat3, lossy_string, lossy_text, texts};
use vstd::prelude::*;

verus! {

/// The exit code of a finished process, if it has one, and what it wrote.
#[derive(Debug)]
pub struct ProcessOutput {
    pub code: Option<i32>,
    pub stdout: Vec<u8>,
    pub stderr: Vec<u8>,
}

impl ProcessOutput {
    /// A process succeeded if it left with the code zero.
    pub open spec fn succeeded(&self) -> bool {
        self.code == Some(0i32)
    }

    pub fn success(&self) -> (success: bool)
        ensures
            success == self.succeeded(),
    {
        match self.code {
            Some(code) => code == 0,
            None => false,
        }
    }

    /// What the process wrote to its standard output, without blanks around it.
    pub open spec fn stdout_text(&self) -> Seq<char> {
        trim(lossy_text(self.stdout@))
    }

    /// What the process wrote to its standard error, without blanks around it.
    pub open spec fn stderr_text(&self) -> Seq<char> {
        trim(lossy_text(self.stderr@))
    }

    pub fn stdout_string(&self) -> (text: String)
        ensures
            text@ == self.stdout_text(),
    {
        trim_exec(lossy_string(self.stdout.as_slice()).as_str())
    }

    pub fn stderr_string(&self) -> (text: String)
        ensures
            text@ == self.stderr_text(),
    {
        trim_exec(lossy_string(self.stderr.as_slice()).as_str())
    }
}

/// An exit code as a report shows it.
pub open spec fn code_text(code: Option<i32>) -> Seq<char> {
    match code {
        Some(code) => "Some("@ + signed_decimal(code as int) + ")"@,
        None => "None"@,
    }
}

pub fn code_string(code: Option<i32>) -> (text: String)
    ensures
        text@ == code_text(code),
{
    match code {
        Some(code) => concat3("Some(", signed_decimal_exec(code as i64).as_str(), ")"),
        None => "None".to_string(),
    }
}

/// The report of a command that failed.
pub open spec fn command_error_text(label: Seq<char>, output: ProcessOutput) -> Seq<char> {
    label + " failed with status "@ + code_text(output.code) + "\nstdout:\n"@
        + output.stdout_text() + "\nstderr:\n"@ + output.stderr_text()
}

pub fn command_error(label: &str, output: &ProcessOutput) -> (text: String)
    ensures
        text@ == command_error_text(label@, *output),
{
    let mut text = concat3(label, " failed with status ", code_string(output.code).as_str());
    text.append("\nstdout:\n");
    text.append(output.stdout_string().as_str());
    text.append("\nstderr:\n");
    text.append(output.stderr_string().as_str());
    text
}

/// The label of a Docker command in a report.
pub open spec fn docker_label(args: Seq<Seq<char>>) -> Seq<char> {
    "docker "@ + join(args, " "@)
}

pub fn docker_error(args: &[String], output: &ProcessOutput) -> (text: String)
    ensures
        text@ == command_error_text(docker_label(texts(args@)), *output),
{
    let label = concat2("docker ", join_exec(args, " ").as_str());
    command_error(label.as_str(), output)
}

/// The report of a Docker command that failed after its output was passed on as it came.
pub fn docker_status_error(args: &[String], code: Option<i32>) -> (text: String)
    ensures
        text@ == docker_label(texts(args@)) + " failed with status "@ + code_text(code),
{
    let label = concat2("docker ", join_exec(args, " ").as_str());
    concat3(label.as_str(), " failed with status ", code_string(code).as_str())
}

// Laws.

/// A process succeeded exactly where its code is zero. The report of one that failed names the
/// command, then its code, and then what it wrote to its standard output and to its standard
/// error, each without the white space around it.
pub proof fn failures_are_reported_whole(label: Seq<char>, output: ProcessOutput)
    ensures
        output.succeeded() <==> (output.code matches Some(code) && code == 0),
        output.code matches Some(code) ==> command_error_text(label, output) == label
            + " failed with status "@ + ("Some("@ + signed_decimal(code as int) + ")"@)
            + "\nstdout:\n"@ + trim(lossy_text(output.stdout@)) + "\nstderr:\n"@ + trim(
            lossy_text(output.stderr@),
        ),
        output.code is None ==> command_error_text(label, output) == label
            + " failed with status "@ + "None"@ + "\nstdout:\n"@ + trim(lossy_text(output.stdout@))
            + "\nstderr:\n"@ + trim(lossy_text(output.stderr@)),
{
}

/// A Docker command is named by Docker and its arguments, with a blank between each two of them.
pub proof fn docker_commands_are_named_by_their_arguments(args: Seq<Seq<char>>)
    ensures
        docker_label(args) == "docker "@ + join(args, seq![' ']),
{
    reveal_strlit(" ");
    assert(" "@ =~= seq![' ']);
}

} // verus!
