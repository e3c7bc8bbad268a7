//! ADB commands: their arguments for a run on the host and in the container, the quoting of
//! words for a shell, and the order in which the commands of one job run.
use crate::docker_command::{
    command_error, command_error_text, docker_error, docker_label, ProcessOutput,
};
use crate::names::{AndroidSpec, SpecView};
use crate::scan::{join, join_exec};
use crate::text::{
    append_texts, begins_with, chars_of, concat2, concat3, copy_texts, same_text, texts,
};
use vstd::prelude::*;

verus! {

/// The device that ADB sees inside the container.
pub const CONTAINER_ADB_SERIAL: &'static str = "emulator-5554";

/// Where an APK is put inside the container before it is installed.
pub const CONTAINER_INSTALL_APK_PATH: &'static str = "/tmp/docker-git-install.apk";

// Modes.

/// Where ADB runs.
#[derive(Clone, Copy, Debug, Eq, PartialEq, Structural)]
pub enum AdbMode {
    Auto,
    Host,
    Container,
}

/// The name of a mode.
pub open spec fn mode_text(mode: AdbMode) -> Seq<char> {
    match mode {
        AdbMode::Auto => "auto"@,
        AdbMode::Host => "host"@,
        AdbMode::Container => "container"@,
    }
}

impl AdbMode {
    pub fn as_str(self) -> (name: &'static str)
        ensures
            name@ == mode_text(self),
    {
        match self {
            AdbMode::Auto => "auto",
            AdbMode::Host => "host",
            AdbMode::Container => "container",
        }
    }
}

/// Reads the name of a mode.
pub fn parse_adb_mode(value: &str) -> (mode: Result<AdbMode, String>)
    ensures
        match mode {
            Ok(mode) => value@ == mode_text(mode),
            Err(message) => {
                &&& message@ == "ADB mode must be one of: auto, host, container"@
                &&& forall|mode: AdbMode| value@ != #[trigger] mode_text(mode)
            },
        },
{
    if same_text(value, "auto") {
        Ok(AdbMode::Auto)
    } else if same_text(value, "host") {
        Ok(AdbMode::Host)
    } else if same_text(value, "container") {
        Ok(AdbMode::Container)
    } else {
        Err("ADB mode must be one of: auto, host, container".to_string())
    }
}

/// A mode is read back from its name.
pub proof fn mode_names_are_distinct(left: AdbMode, right: AdbMode)
    requires
        mode_text(left) == mode_text(right),
    ensures
        left == right,
{
    reveal_strlit("auto");
    reveal_strlit("host");
    reveal_strlit("container");
    assert("auto"@[0] == 'a' && "host"@[0] == 'h' && "container"@[0] == 'c');
}

// Shell quoting.

/// `value` with each quote replaced by one that is safe between single quotes: the quoting is
/// closed, the quote stands between double quotes, and the quoting is opened again.
pub open spec fn escaped(value: Seq<char>) -> Seq<char>
    decreases value.len(),
{
    if value.len() == 0 {
        Seq::empty()
    } else if value.last() == '\'' {
        escaped(value.drop_last()) + seq!['\'', '"', '\'', '"', '\'']
    } else {
        escaped(value.drop_last()).push(value.last())
    }
}

/// `value` as one word for a shell.
pub open spec fn quoted(value: Seq<char>) -> Seq<char> {
    seq!['\''] + escaped(value) + seq!['\'']
}

/// `values` as words for a shell.
pub open spec fn quoted_words(values: Seq<Seq<char>>) -> Seq<char> {
    join(values.map_values(|value: Seq<char>| quoted(value)), " "@)
}

pub fn shell_quote(value: &str) -> (word: String)
    ensures
        word@ == quoted(value@),
{
    let chars = chars_of(value);
    let mut word = String::new();
    word.push('\'');
    for i in 0..chars.len()
        invariant
            chars@ == value@,
            word@ =~= seq!['\''] + escaped(value@.take(i as int)),
    {
        let c = chars[i];
        if c == '\'' {
            word.append("'\"'\"'");
            proof {
                reveal_strlit("'\"'\"'");
                assert("'\"'\"'"@ =~= seq!['\'', '"', '\'', '"', '\'']);
            }
        } else {
            word.push(c);
        }
        assert(value@.take(i + 1).drop_last() =~= value@.take(i as int));
    }
    assert(value@.take(value@.len() as int) =~= value@);
    word.push('\'');
    assert(word@ =~= quoted(value@));
    word
}

pub fn shell_join(values: &[String]) -> (words: String)
    ensures
        words@ == quoted_words(texts(values@)),
{
    let mut parts: Vec<String> = Vec::new();
    for i in 0..values.len()
        invariant
            parts@.len() == i,
            forall|k: int| 0 <= k < i ==> (#[trigger] parts@[k])@ == quoted(values@[k]@),
    {
        parts.push(shell_quote(values[i].as_str()));
    }
    assert(texts(parts@) =~= texts(values@).map_values(|value: Seq<char>| quoted(value)));
    join_exec(parts.as_slice(), " ")
}

// How a shell reads words.

/// The quoting in which a shell stands while it reads.
pub enum ShellMode {
    Plain,
    Single,
    Double,
}

/// What a shell has read of a command: the finished words and the one that it is in, if any.
/// The last field tells whether a character was met that asks for more than words.
pub struct ShellReader {
    pub done: Seq<Seq<char>>,
    pub word: Option<Seq<char>>,
    pub mode: ShellMode,
    pub plain_words: bool,
}

/// The word that a shell is in, empty where it is in none.
pub open spec fn open_word(reader: ShellReader) -> Seq<char> {
    match reader.word {
        Some(word) => word,
        None => Seq::empty(),
    }
}

/// The characters that stand for themselves outside any quotes.
pub open spec fn is_plain_char(c: char) -> bool {
    crate::names::is_alphanumeric(c) || c == '-' || c == '_' || c == '.' || c == '/' || c == ':'
}

/// Reads one character as the POSIX shell does: blanks part words; between single quotes each
/// character stands for itself; between double quotes each but the quote itself, the dollar,
/// the backquote and the backslash does.
pub open spec fn shell_step(reader: ShellReader, c: char) -> ShellReader {
    match reader.mode {
        ShellMode::Plain => if c == ' ' {
            match reader.word {
                Some(word) => ShellReader { done: reader.done.push(word), word: None, ..reader },
                None => reader,
            }
        } else if c == '\'' {
            ShellReader { word: Some(open_word(reader)), mode: ShellMode::Single, ..reader }
        } else if c == '"' {
            ShellReader { word: Some(open_word(reader)), mode: ShellMode::Double, ..reader }
        } else {
            ShellReader {
                word: Some(open_word(reader).push(c)),
                plain_words: reader.plain_words && is_plain_char(c),
                ..reader
            }
        },
        ShellMode::Single => if c == '\'' {
            ShellReader { mode: ShellMode::Plain, ..reader }
        } else {
            ShellReader { word: Some(open_word(reader).push(c)), ..reader }
        },
        ShellMode::Double => if c == '"' {
            ShellReader { mode: ShellMode::Plain, ..reader }
        } else {
            ShellReader {
                word: Some(open_word(reader).push(c)),
                plain_words: reader.plain_words && c != '$' && c != '`' && c != '\\',
                ..reader
            }
        },
    }
}

/// Reads a text character by character.
pub open spec fn shell_read(reader: ShellReader, text: Seq<char>) -> ShellReader
    decreases text.len(),
{
    if text.len() == 0 {
        reader
    } else {
        shell_step(shell_read(reader, text.drop_last()), text.last())
    }
}

/// The words that a shell makes of a text, if the text holds nothing but words.
pub open spec fn shell_words(text: Seq<char>) -> Option<Seq<Seq<char>>> {
    let start = ShellReader {
        done: Seq::empty(),
        word: None,
        mode: ShellMode::Plain,
        plain_words: true,
    };
    let end = shell_read(start, text);
    if !end.plain_words || end.mode !is Plain {
        None
    } else {
        match end.word {
            Some(word) => Some(end.done.push(word)),
            None => Some(end.done),
        }
    }
}

proof fn lemma_shell_read_concat(reader: ShellReader, first: Seq<char>, second: Seq<char>)
    ensures
        shell_read(reader, first + second) == shell_read(shell_read(reader, first), second),
    decreases second.len(),
{
    if second.len() == 0 {
        assert(first + second =~= first);
    } else {
        assert((first + second).drop_last() =~= first + second.drop_last());
        lemma_shell_read_concat(reader, first, second.drop_last());
    }
}

proof fn lemma_shell_read_one(reader: ShellReader, c: char)
    ensures
        shell_read(reader, seq![c]) == shell_step(reader, c),
{
    assert(seq![c].drop_last() =~= Seq::empty());
    assert(shell_read(reader, Seq::empty()) == reader);
}

proof fn lemma_shell_read_escaped(reader: ShellReader, value: Seq<char>)
    requires
        reader.mode is Single,
        reader.word is Some,
    ensures
        shell_read(reader, escaped(value)) == (ShellReader {
            word: Some(reader.word->0 + value),
            ..reader
        }),
    decreases value.len(),
{
    if value.len() == 0 {
        assert(reader.word->0 + value =~= reader.word->0);
    } else {
        let front = value.drop_last();
        lemma_shell_read_escaped(reader, front);
        let middle = shell_read(reader, escaped(front));
        assert((reader.word->0 + front).push(value.last()) =~= reader.word->0 + value);
        if value.last() == '\'' {
            let five = seq!['\'', '"', '\'', '"', '\''];
            lemma_shell_read_concat(reader, escaped(front), five);
            assert(five =~= seq!['\''] + seq!['"'] + seq!['\''] + seq!['"'] + seq!['\'']);
            let s1 = seq!['\''];
            let s2 = s1 + seq!['"'];
            let s3 = s2 + seq!['\''];
            let s4 = s3 + seq!['"'];
            lemma_shell_read_concat(middle, s4, seq!['\'']);
            lemma_shell_read_concat(middle, s3, seq!['"']);
            lemma_shell_read_concat(middle, s2, seq!['\'']);
            lemma_shell_read_concat(middle, s1, seq!['"']);
            lemma_shell_read_one(middle, '\'');
            let m1 = shell_step(middle, '\'');
            lemma_shell_read_one(m1, '"');
            let m2 = shell_step(m1, '"');
            lemma_shell_read_one(m2, '\'');
            let m3 = shell_step(m2, '\'');
            lemma_shell_read_one(m3, '"');
            let m4 = shell_step(m3, '"');
            lemma_shell_read_one(m4, '\'');
        } else {
            assert(escaped(value).drop_last() =~= escaped(front));
        }
    }
}

proof fn lemma_shell_read_quoted(reader: ShellReader, value: Seq<char>)
    requires
        reader.mode is Plain,
        reader.word is None,
    ensures
        shell_read(reader, quoted(value)) == (ShellReader { word: Some(value), ..reader }),
{
    let opened = shell_step(reader, '\'');
    lemma_shell_read_one(reader, '\'');
    lemma_shell_read_concat(reader, seq!['\''] + escaped(value), seq!['\'']);
    lemma_shell_read_concat(reader, seq!['\''], escaped(value));
    lemma_shell_read_escaped(opened, value);
    assert(Seq::<char>::empty() + value =~= value);
    lemma_shell_read_one(shell_read(opened, escaped(value)), '\'');
}

proof fn lemma_shell_read_words(values: Seq<Seq<char>>)
    requires
        values.len() > 0,
    ensures
        shell_read(
            ShellReader {
                done: Seq::empty(),
                word: None,
                mode: ShellMode::Plain,
                plain_words: true,
            },
            quoted_words(values),
        ) == (ShellReader {
            done: values.drop_last(),
            word: Some(values.last()),
            mode: ShellMode::Plain,
            plain_words: true,
        }),
    decreases values.len(),
{
    let start = ShellReader {
        done: Seq::empty(),
        word: None,
        mode: ShellMode::Plain,
        plain_words: true,
    };
    let parts = values.map_values(|value: Seq<char>| quoted(value));
    if values.len() == 1 {
        lemma_shell_read_quoted(start, values[0]);
        assert(values.drop_last() =~= Seq::empty());
    } else {
        let front = values.drop_last();
        lemma_shell_read_words(front);
        assert(parts.drop_last() =~= front.map_values(|value: Seq<char>| quoted(value)));
        reveal_strlit(" ");
        assert(" "@ =~= seq![' ']);
        let head = quoted_words(front);
        lemma_shell_read_concat(start, head + seq![' '], quoted(values.last()));
        lemma_shell_read_concat(start, head, seq![' ']);
        let read = shell_read(start, head);
        lemma_shell_read_one(read, ' ');
        assert(front.drop_last().push(front.last()) =~= front);
        lemma_shell_read_quoted(shell_step(read, ' '), values.last());
    }
}

/// A shell reads back, word for word, the texts that were quoted for it, whatever they hold.
pub proof fn quoting_is_undone_by_a_shell(values: Seq<Seq<char>>)
    ensures
        shell_words(quoted_words(values)) == Some(values),
{
    if values.len() > 0 {
        lemma_shell_read_words(values);
        assert(values.drop_last().push(values.last()) =~= values);
    } else {
        assert(values =~= Seq::empty());
    }
}


// Arguments.

/// The ADB arguments that launch an app: the given activity of the package, or its launcher
/// activity where none is given.
pub open spec fn launch_args(package: Seq<char>, activity: Option<Seq<char>>) -> Seq<Seq<char>> {
    match activity {
        Some(activity) if activity.len() > 0 => seq![
            "shell"@,
            "am"@,
            "start"@,
            "-n"@,
            package + "/"@ + activity,
        ],
        _ => seq![
            "shell"@,
            "monkey"@,
            "-p"@,
            package,
            "-c"@,
            "android.intent.category.LAUNCHER"@,
            "1"@,
        ],
    }
}

/// The text of an optional `str`.
pub open spec fn opt_str(text: Option<&str>) -> Option<Seq<char>> {
    match text {
        Some(text) => Some(text@),
        None => None,
    }
}

pub fn launch_app_adb_args(package_name: &str, activity: Option<&str>) -> (args: Vec<String>)
    ensures
        texts(args@) == launch_args(package_name@, opt_str(activity)),
{
    if let Some(activity) = activity {
        if !activity.is_empty() {
            let args = vec![
                "shell".to_string(),
                "am".to_string(),
                "start".to_string(),
                "-n".to_string(),
                concat3(package_name, "/", activity),
            ];
            assert(texts(args@) =~= launch_args(package_name@, Some(activity@)));
            return args;
        }
    }
    let args = vec![
        "shell".to_string(),
        "monkey".to_string(),
        "-p".to_string(),
        package_name.to_string(),
        "-c".to_string(),
        "android.intent.category.LAUNCHER".to_string(),
        "1".to_string(),
    ];
    assert(texts(args@) =~= launch_args(package_name@, opt_str(activity)));
    args
}

/// Whether ADB must be told which device is meant: not where the command is `devices`, nor
/// where the arguments name a device themselves.
pub open spec fn needs_serial(args: Seq<Seq<char>>) -> bool {
    !(args.len() > 0 && args[0] == "devices"@) && !args.contains("-s"@)
}

pub fn should_add_container_serial(adb_args: &[String]) -> (needs: bool)
    ensures
        needs == needs_serial(texts(adb_args@)),
{
    let ghost all = texts(adb_args@);
    if adb_args.len() > 0 && same_text(adb_args[0].as_str(), "devices") {
        assert(all[0] == "devices"@);
        return false;
    }
    for i in 0..adb_args.len()
        invariant
            all == texts(adb_args@),
            forall|k: int| 0 <= k < i ==> #[trigger] all[k] != "-s"@,
    {
        if same_text(adb_args[i].as_str(), "-s") {
            assert(all[i as int] == "-s"@);
            return false;
        }
    }
    true
}

pub fn should_add_host_serial(adb_args: &[String]) -> (needs: bool)
    ensures
        needs == needs_serial(texts(adb_args@)),
{
    should_add_container_serial(adb_args)
}

/// `args` for a device, which is named before them where that is needed.
pub open spec fn targeted(serial: Seq<char>, args: Seq<Seq<char>>) -> Seq<Seq<char>> {
    if needs_serial(args) {
        seq!["-s"@, serial] + args
    } else {
        args
    }
}

pub fn host_targeted_adb_args(endpoint: &str, adb_args: &[String]) -> (args: Vec<String>)
    ensures
        texts(args@) == targeted(endpoint@, texts(adb_args@)),
{
    let mut args: Vec<String> = Vec::new();
    if should_add_host_serial(adb_args) {
        args.push("-s".to_string());
        args.push(endpoint.to_string());
        assert(texts(args@) =~= seq!["-s"@, endpoint@]);
    } else {
        assert(texts(args@) =~= Seq::empty());
    }
    append_texts(&mut args, adb_args);
    assert(texts(args@) =~= targeted(endpoint@, texts(adb_args@)));
    args
}

/// The Docker arguments that run ADB inside the container with `args` as they are.
pub open spec fn container_proxy(container: Seq<char>, args: Seq<Seq<char>>) -> Seq<Seq<char>> {
    seq!["exec"@, container, "adb"@] + args
}

/// The Docker arguments that run ADB inside the container for its device.
pub open spec fn container_targeted(container: Seq<char>, args: Seq<Seq<char>>) -> Seq<Seq<char>> {
    container_proxy(container, targeted(CONTAINER_ADB_SERIAL@, args))
}

pub fn container_adb_proxy_args(container_name: &str, adb_args: &[String]) -> (args: Vec<String>)
    ensures
        texts(args@) == container_proxy(container_name@, texts(adb_args@)),
{
    let mut args = vec!["exec".to_string(), container_name.to_string(), "adb".to_string()];
    assert(texts(args@) =~= seq!["exec"@, container_name@, "adb"@]);
    append_texts(&mut args, adb_args);
    args
}

pub fn container_targeted_adb_args(container_name: &str, adb_args: &[String]) -> (args: Vec<String>)
    ensures
        texts(args@) == container_targeted(container_name@, texts(adb_args@)),
{
    let inner = host_targeted_adb_args(CONTAINER_ADB_SERIAL, adb_args);
    container_adb_proxy_args(container_name, inner.as_slice())
}

/// The Docker arguments that copy an APK into the container.
pub open spec fn copy_args(apk_path: Seq<char>, container: Seq<char>) -> Seq<Seq<char>> {
    seq!["cp"@, apk_path, container + ":"@ + CONTAINER_INSTALL_APK_PATH@]
}

pub fn docker_cp_args(apk_path: &str, container_name: &str) -> (args: Vec<String>)
    ensures
        texts(args@) == copy_args(apk_path@, container_name@),
{
    let args = vec![
        "cp".to_string(),
        apk_path.to_string(),
        concat3(container_name, ":", CONTAINER_INSTALL_APK_PATH),
    ];
    assert(texts(args@) =~= copy_args(apk_path@, container_name@));
    args
}

/// An ADB job on the host as one shell command, with the ADB arguments as they are.
pub open spec fn host_proxy_line(endpoint: Seq<char>, args: Seq<Seq<char>>) -> Seq<char> {
    "adb connect "@ + quoted(endpoint) + " && "@ + (if args.len() == 0 {
        "adb"@
    } else {
        "adb "@ + quoted_words(args)
    })
}

/// A shell command.
pub open spec fn shell_command(line: Seq<char>) -> Seq<Seq<char>> {
    seq!["sh"@, "-c"@, line]
}

fn shell_command_exec(line: String) -> (command: Vec<String>)
    ensures
        texts(command@) == shell_command(line@),
{
    let command = vec!["sh".to_string(), "-c".to_string(), line];
    assert(texts(command@) =~= shell_command(line@));
    command
}

pub fn host_adb_proxy_command(endpoint: &str, adb_args: &[String]) -> (command: Vec<String>)
    ensures
        texts(command@) == shell_command(host_proxy_line(endpoint@, texts(adb_args@))),
{
    let mut line = concat3("adb connect ", shell_quote(endpoint).as_str(), " && ");
    let adb_command = if adb_args.len() == 0 {
        "adb".to_string()
    } else {
        concat2("adb ", shell_join(adb_args).as_str())
    };
    line.append(adb_command.as_str());
    shell_command_exec(line)
}

/// An ADB job for the device at `endpoint` on the host as one shell command.
pub open spec fn host_targeted_line(endpoint: Seq<char>, args: Seq<Seq<char>>) -> Seq<char> {
    "adb connect "@ + quoted(endpoint) + " && adb "@ + quoted_words(targeted(endpoint, args))
}

pub fn host_targeted_adb_command(endpoint: &str, adb_args: &[String]) -> (command: Vec<String>)
    ensures
        texts(command@) == shell_command(host_targeted_line(endpoint@, texts(adb_args@))),
{
    let mut line = concat3("adb connect ", shell_quote(endpoint).as_str(), " && adb ");
    let args = host_targeted_adb_args(endpoint, adb_args);
    line.append(shell_join(args.as_slice()).as_str());
    shell_command_exec(line)
}

pub fn container_adb_proxy_command(container_name: &str, adb_args: &[String]) -> (command: Vec<
    String,
>)
    ensures
        texts(command@) == seq!["docker"@] + container_proxy(container_name@, texts(adb_args@)),
{
    let mut command = vec!["docker".to_string()];
    assert(texts(command@) =~= seq!["docker"@]);
    append_texts(&mut command, container_adb_proxy_args(container_name, adb_args).as_slice());
    command
}

pub fn container_targeted_adb_command(container_name: &str, adb_args: &[String]) -> (command: Vec<
    String,
>)
    ensures
        texts(command@) == seq!["docker"@] + container_targeted(container_name@, texts(adb_args@)),
{
    let mut command = vec!["docker".to_string()];
    assert(texts(command@) =~= seq!["docker"@]);
    append_texts(&mut command, container_targeted_adb_args(container_name, adb_args).as_slice());
    command
}

/// ADB is told of one device at most by the library: arguments that name a device, and those
/// that were made for one, are left as they are.
pub proof fn targeting_is_idempotent(serial: Seq<char>, other: Seq<char>, args: Seq<Seq<char>>)
    ensures
        targeted(other, targeted(serial, args)) == targeted(serial, args),
        args.contains("-s"@) ==> targeted(serial, args) == args,
        args.len() > 0 && args[0] == "devices"@ ==> targeted(serial, args) == args,
{
    if needs_serial(args) {
        assert((seq!["-s"@, serial] + args)[0] == "-s"@);
    }
}

// Jobs.

/// The program that a command calls.
#[derive(Clone, Copy, Debug, Eq, PartialEq, Structural)]
pub enum Program {
    Adb,
    Docker,
}

/// How far a job has come.
#[derive(Clone, Copy, Debug, Eq, PartialEq, Structural)]
pub enum JobStage {
    /// ADB of the host is asked whether it reaches the endpoint.
    Probe,
    /// ADB of the host connects to the endpoint.
    Connect,
    /// ADB of the host does the work.
    HostRun,
    /// A file is copied into the container.
    Copy,
    /// ADB of the container does the work.
    ContainerRun,
}

/// The commands of an ADB job, and how far it has come.
#[derive(Debug)]
pub struct AdbJob {
    pub stage: JobStage,
    pub endpoint: String,
    pub host_args: Vec<String>,
    /// The Docker arguments that copy a file into the container first, or none.
    pub copy_args: Vec<String>,
    pub container_args: Vec<String>,
}

/// What is to be done of a job.
pub struct JobView {
    pub stage: JobStage,
    pub endpoint: Seq<char>,
    pub host_args: Seq<Seq<char>>,
    pub copy_args: Seq<Seq<char>>,
    pub container_args: Seq<Seq<char>>,
}

impl View for AdbJob {
    type V = JobView;

    open spec fn view(&self) -> JobView {
        JobView {
            stage: self.stage,
            endpoint: self.endpoint@,
            host_args: texts(self.host_args@),
            copy_args: texts(self.copy_args@),
            container_args: texts(self.container_args@),
        }
    }
}

/// The stage at which a job goes into the container.
pub open spec fn container_stage(copy_args: Seq<Seq<char>>) -> JobStage {
    if copy_args.len() > 0 {
        JobStage::Copy
    } else {
        JobStage::ContainerRun
    }
}

/// The stage at which a job begins.
pub open spec fn first_stage(mode: AdbMode, copy_args: Seq<Seq<char>>) -> JobStage {
    match mode {
        AdbMode::Auto => JobStage::Probe,
        AdbMode::Host => JobStage::Connect,
        AdbMode::Container => container_stage(copy_args),
    }
}

/// The command that a job runs at its stage.
pub open spec fn job_command(job: JobView) -> (Program, Seq<Seq<char>>) {
    match job.stage {
        JobStage::Probe | JobStage::Connect => (Program::Adb, seq!["connect"@, job.endpoint]),
        JobStage::HostRun => (Program::Adb, job.host_args),
        JobStage::Copy => (Program::Docker, job.copy_args),
        JobStage::ContainerRun => (Program::Docker, job.container_args),
    }
}

/// What follows a command of a job.
pub enum JobStep {
    /// The job goes on.
    Next(AdbJob),
    /// The job is done, and this is what its command left.
    Done(ProcessOutput),
    /// The job cannot go on.
    Failed(String),
}

/// What follows a command of a job, given what the command left, or the error with which it
/// could not be started.
pub enum JobStepView {
    Next(JobView),
    Done(ProcessOutput),
    Failed(Seq<char>),
}

impl View for JobStep {
    type V = JobStepView;

    open spec fn view(&self) -> JobStepView {
        match self {
            JobStep::Next(job) => JobStepView::Next(job@),
            JobStep::Done(output) => JobStepView::Done(*output),
            JobStep::Failed(message) => JobStepView::Failed(message@),
        }
    }
}

/// The rules by which a job goes on: a probe that fails sends it into the container; a connection
/// or a copy that fails ends it; the output of the work itself is handed out, failed or not.
pub open spec fn job_step(job: JobView, outcome: Result<ProcessOutput, String>) -> JobStepView {
    match (job.stage, outcome) {
        (JobStage::Probe, Ok(output)) if output.succeeded() => JobStepView::Next(
            JobView { stage: JobStage::Connect, ..job },
        ),
        (JobStage::Probe, _) => JobStepView::Next(
            JobView { stage: container_stage(job.copy_args), ..job },
        ),
        (_, Err(message)) => JobStepView::Failed(message@),
        (JobStage::Connect, Ok(output)) => if output.succeeded() {
            JobStepView::Next(JobView { stage: JobStage::HostRun, ..job })
        } else {
            JobStepView::Failed(command_error_text("adb connect"@, output))
        },
        (JobStage::Copy, Ok(output)) => if output.succeeded() {
            JobStepView::Next(JobView { stage: JobStage::ContainerRun, ..job })
        } else {
            JobStepView::Failed(command_error_text(docker_label(job.copy_args), output))
        },
        (_, Ok(output)) => JobStepView::Done(output),
    }
}

/// The job that passes `args` to ADB as they are.
pub open spec fn proxy_job(spec: SpecView, mode: AdbMode, args: Seq<Seq<char>>) -> JobView {
    JobView {
        stage: first_stage(mode, Seq::empty()),
        endpoint: spec.adb_endpoint,
        host_args: args,
        copy_args: Seq::empty(),
        container_args: container_proxy(spec.android_container_name, args),
    }
}

/// The job that passes `args` to ADB for the device of the project.
pub open spec fn targeted_job(spec: SpecView, mode: AdbMode, args: Seq<Seq<char>>) -> JobView {
    JobView {
        stage: first_stage(mode, Seq::empty()),
        endpoint: spec.adb_endpoint,
        host_args: targeted(spec.adb_endpoint, args),
        copy_args: Seq::empty(),
        container_args: container_targeted(spec.android_container_name, args),
    }
}

/// The job that installs an APK of the host, which is copied into the container where ADB runs
/// there.
pub open spec fn install_job(spec: SpecView, mode: AdbMode, apk_path: Seq<char>) -> JobView {
    JobView {
        stage: first_stage(mode, copy_args(apk_path, spec.android_container_name)),
        endpoint: spec.adb_endpoint,
        host_args: targeted(spec.adb_endpoint, seq!["install"@, apk_path]),
        copy_args: copy_args(apk_path, spec.android_container_name),
        container_args: container_targeted(
            spec.android_container_name,
            seq!["install"@, CONTAINER_INSTALL_APK_PATH@],
        ),
    }
}

fn first_stage_exec(mode: AdbMode, copies: bool) -> (stage: JobStage)
    ensures
        forall|copy_args: Seq<Seq<char>>|
            (copy_args.len() > 0) == copies ==> stage == #[trigger] first_stage(mode, copy_args),
{
    match mode {
        AdbMode::Auto => JobStage::Probe,
        AdbMode::Host => JobStage::Connect,
        AdbMode::Container => if copies {
            JobStage::Copy
        } else {
            JobStage::ContainerRun
        },
    }
}

/// Starts the job of `adb`: a proxy for ADB.
pub fn run_adb_proxy_command(spec: &AndroidSpec, mode: AdbMode, adb_args: &[String]) -> (job:
    AdbJob)
    ensures
        job@ == proxy_job(spec@, mode, texts(adb_args@)),
{
    let job = AdbJob {
        stage: first_stage_exec(mode, false),
        endpoint: spec.adb_endpoint.clone(),
        host_args: copy_texts(adb_args),
        copy_args: Vec::new(),
        container_args: container_adb_proxy_args(spec.android_container_name.as_str(), adb_args),
    };
    assert(job@.copy_args =~= Seq::empty());
    job
}

/// Starts a job for the device of the project.
pub fn run_targeted_adb_command(spec: &AndroidSpec, mode: AdbMode, adb_args: &[String]) -> (job:
    AdbJob)
    ensures
        job@ == targeted_job(spec@, mode, texts(adb_args@)),
{
    let job = AdbJob {
        stage: first_stage_exec(mode, false),
        endpoint: spec.adb_endpoint.clone(),
        host_args: host_targeted_adb_args(spec.adb_endpoint.as_str(), adb_args),
        copy_args: Vec::new(),
        container_args: container_targeted_adb_args(
            spec.android_container_name.as_str(),
            adb_args,
        ),
    };
    assert(job@.copy_args =~= Seq::empty());
    job
}

/// Starts the job that installs an APK.
pub fn run_install_apk(spec: &AndroidSpec, mode: AdbMode, apk_path: &str) -> (job: AdbJob)
    ensures
        job@ == install_job(spec@, mode, apk_path@),
{
    let host = vec!["install".to_string(), apk_path.to_string()];
    let inside = vec!["install".to_string(), CONTAINER_INSTALL_APK_PATH.to_string()];
    assert(texts(host@) =~= seq!["install"@, apk_path@]);
    assert(texts(inside@) =~= seq!["install"@, CONTAINER_INSTALL_APK_PATH@]);
    AdbJob {
        stage: first_stage_exec(mode, true),
        endpoint: spec.adb_endpoint.clone(),
        host_args: host_targeted_adb_args(spec.adb_endpoint.as_str(), host.as_slice()),
        copy_args: docker_cp_args(apk_path, spec.android_container_name.as_str()),
        container_args: container_targeted_adb_args(
            spec.android_container_name.as_str(),
            inside.as_slice(),
        ),
    }
}

impl AdbJob {
    /// The command to run next.
    pub fn command(&self) -> (command: (Program, Vec<String>))
        ensures
            (command.0, texts(command.1@)) == job_command(self@),
    {
        match self.stage {
            JobStage::Probe | JobStage::Connect => {
                let args = vec!["connect".to_string(), self.endpoint.clone()];
                assert(texts(args@) =~= seq!["connect"@, self.endpoint@]);
                (Program::Adb, args)
            },
            JobStage::HostRun => (Program::Adb, copy_texts(self.host_args.as_slice())),
            JobStage::Copy => (Program::Docker, copy_texts(self.copy_args.as_slice())),
            JobStage::ContainerRun => (Program::Docker, copy_texts(self.container_args.as_slice())),
        }
    }

    /// Takes in what the command left, or the error with which it could not be started.
    pub fn advance(self, outcome: Result<ProcessOutput, String>) -> (step: JobStep)
        ensures
            step@ == job_step(self@, outcome),
    {
        match self.stage {
            JobStage::Probe => {
                let reached = match &outcome {
                    Ok(output) => output.success(),
                    Err(_) => false,
                };
                let stage = if reached {
                    JobStage::Connect
                } else if self.copy_args.len() > 0 {
                    JobStage::Copy
                } else {
                    JobStage::ContainerRun
                };
                JobStep::Next(AdbJob { stage, ..self })
            },
            JobStage::Connect => match outcome {
                Ok(output) => if output.success() {
                    JobStep::Next(AdbJob { stage: JobStage::HostRun, ..self })
                } else {
                    JobStep::Failed(command_error("adb connect", &output))
                },
                Err(message) => JobStep::Failed(message),
            },
            JobStage::Copy => match outcome {
                Ok(output) => if output.success() {
                    JobStep::Next(AdbJob { stage: JobStage::ContainerRun, ..self })
                } else {
                    JobStep::Failed(docker_error(self.copy_args.as_slice(), &output))
                },
                Err(message) => JobStep::Failed(message),
            },
            _ => match outcome {
                Ok(output) => JobStep::Done(output),
                Err(message) => JobStep::Failed(message),
            },
        }
    }
}

/// The exit code that `adb` hands on.
pub fn proxied_exit_code(output: &ProcessOutput) -> (code: i32)
    ensures
        code == (match output.code {
            Some(code) => code,
            None => 1,
        }),
{
    match output.code {
        Some(code) => code,
        None => 1,
    }
}

/// How many commands a job may still run.
pub open spec fn commands_left(stage: JobStage) -> nat {
    match stage {
        JobStage::Probe => 3,
        JobStage::Connect => 2,
        JobStage::Copy => 2,
        JobStage::HostRun => 1,
        JobStage::ContainerRun => 1,
    }
}

/// Each command brings a job nearer to its end, whatever the command leaves.
pub proof fn jobs_end(job: JobView, outcome: Result<ProcessOutput, String>)
    ensures
        job_step(job, outcome) matches JobStepView::Next(next) ==> commands_left(next.stage)
            < commands_left(job.stage),
{
}

/// A job in the container calls Docker alone, and one on the host calls ADB alone, from the
/// first command to the last.
pub proof fn jobs_keep_to_their_side(job: JobView, outcome: Result<ProcessOutput, String>)
    ensures
        job.stage is Copy || job.stage is ContainerRun ==> job_command(job).0 is Docker && (
        job_step(job, outcome) matches JobStepView::Next(next) ==> next.stage is ContainerRun),
        job.stage is Connect || job.stage is HostRun ==> job_command(job).0 is Adb && (job_step(
            job,
            outcome,
        ) matches JobStepView::Next(next) ==> next.stage is HostRun),
{
}

/// Where ADB of the host cannot be started, or cannot connect, an automatic job does what a job
/// in the container does.
pub proof fn automatic_jobs_fall_back_to_the_container(
    job: JobView,
    outcome: Result<ProcessOutput, String>,
)
    requires
        job.stage is Probe,
        outcome matches Ok(output) ==> !output.succeeded(),
    ensures
        job_step(job, outcome) == JobStepView::Next(
            JobView { stage: first_stage(AdbMode::Container, job.copy_args), ..job },
        ),
{
}

/// An app is launched by its package: at the activity that is given, or at its launcher activity
/// where none is given or an empty one is. The package is handed on as it is, and so is the
/// activity.
pub proof fn apps_are_launched_by_their_package(package: Seq<char>, activity: Seq<char>)
    ensures
        launch_args(package, Some(Seq::empty())) == launch_args(package, None),
        launch_args(package, None).contains(package),
        launch_args(package, None) == seq![
            "shell"@, "monkey"@, "-p"@, package, "-c"@, "android.intent.category.LAUNCHER"@, "1"@,
        ],
        activity.len() > 0 ==> launch_args(package, Some(activity)) == seq![
            "shell"@, "am"@, "start"@, "-n"@, package + seq!['/'] + activity,
        ],
{
    reveal_strlit("/");
    assert("/"@ =~= seq!['/']);
    assert(launch_args(package, None)[3] == package);
}

/// ADB gets the arguments as they are, at the end and in their order. A device is named before
/// them unless they name one themselves or ask for the devices.
pub proof fn arguments_are_handed_on(serial: Seq<char>, args: Seq<Seq<char>>)
    ensures
        ({
            let named = (args.len() > 0 && args[0] == "devices"@) || args.contains("-s"@);
            let all = targeted(serial, args);
            &&& all.skip(all.len() - args.len()) == args
            &&& named ==> all == args
            &&& !named ==> all.len() == args.len() + 2 && all[0] == "-s"@ && all[1] == serial
        }),
{
    let all = targeted(serial, args);
    assert(all.skip(all.len() - args.len()) =~= args);
}

/// What a job does in a container, Docker does in the container of that name: it runs ADB there
/// with the arguments of the job, for the device of the container where none is named.
pub proof fn containers_run_the_arguments(container: Seq<char>, args: Seq<Seq<char>>)
    ensures
        ({
            let plain = container_proxy(container, args);
            &&& plain.take(3) == seq!["exec"@, container, "adb"@]
            &&& plain.skip(3) == args
        }),
        ({
            let meant = container_targeted(container, args);
            &&& meant.take(3) == seq!["exec"@, container, "adb"@]
            &&& meant.skip(3) == targeted("emulator-5554"@, args)
        }),
{
    assert(container_proxy(container, args).take(3) =~= seq!["exec"@, container, "adb"@]);
    assert(container_proxy(container, args).skip(3) =~= args);
    let inner = targeted("emulator-5554"@, args);
    assert(container_proxy(container, inner).take(3) =~= seq!["exec"@, container, "adb"@]);
    assert(container_proxy(container, inner).skip(3) =~= inner);
}

/// Whether Docker is told to do something in a container: to run ADB there, or to copy a file to
/// it.
pub open spec fn is_docker_for(args: Seq<Seq<char>>, container: Seq<char>) -> bool {
    ||| args.len() >= 3 && args[0] == "exec"@ && args[1] == container && args[2] == "adb"@
    ||| args.len() == 3 && args[0] == "cp"@ && begins_with(args[2], container + seq![':'])
}

/// Whether the commands of a job are for a container and an endpoint, at every stage.
pub open spec fn is_job_for(job: JobView, container: Seq<char>, endpoint: Seq<char>) -> bool {
    &&& job.endpoint == endpoint
    &&& is_docker_for(job.container_args, container)
    &&& job.copy_args.len() == 0 || is_docker_for(job.copy_args, container)
}

/// The commands of a job for a project name the Android container of the project, each of them
/// that calls Docker, and its endpoint, each of them that connects ADB.
pub proof fn jobs_are_for_their_project(
    spec: SpecView,
    mode: AdbMode,
    args: Seq<Seq<char>>,
    apk_path: Seq<char>,
)
    ensures
        is_job_for(proxy_job(spec, mode, args), spec.android_container_name, spec.adb_endpoint),
        is_job_for(targeted_job(spec, mode, args), spec.android_container_name, spec.adb_endpoint),
        is_job_for(install_job(spec, mode, apk_path), spec.android_container_name, spec.adb_endpoint),
{
    let container = spec.android_container_name;
    reveal_strlit(":");
    assert(":"@ =~= seq![':']);
    let target = container + ":"@ + CONTAINER_INSTALL_APK_PATH@;
    assert(target.take(container.len() + 1int) =~= container + seq![':']);
}

/// A job on its way keeps to its container and its endpoint, whatever its commands leave, and the
/// commands that it calls are theirs.
pub proof fn jobs_stay_for_their_project(
    job: JobView,
    container: Seq<char>,
    endpoint: Seq<char>,
    outcome: Result<ProcessOutput, String>,
)
    requires
        is_job_for(job, container, endpoint),
    ensures
        job_step(job, outcome) matches JobStepView::Next(next) ==> is_job_for(
            next,
            container,
            endpoint,
        ) && next.host_args == job.host_args && next.container_args == job.container_args
            && next.copy_args == job.copy_args,
        job_command(job).0 is Docker && (job.stage is Copy ==> job.copy_args.len() > 0)
            ==> is_docker_for(job_command(job).1, container),
        job.stage is Probe || job.stage is Connect ==> job_command(job) == (
            Program::Adb,
            seq!["connect"@, endpoint],
        ),
{
}

/// The same work is done on either side: ADB gets the arguments of a proxy as they are, and those
/// of another job for the device of the project, on the host as in the container.
pub proof fn both_sides_do_the_same(spec: SpecView, mode: AdbMode, args: Seq<Seq<char>>)
    ensures
        proxy_job(spec, mode, args).host_args == args,
        proxy_job(spec, mode, args).container_args.skip(3) == args,
        targeted_job(spec, mode, args).host_args == targeted(spec.adb_endpoint, args),
        targeted_job(spec, mode, args).container_args.skip(3) == targeted("emulator-5554"@, args),
        proxy_job(spec, mode, args).copy_args.len() == 0,
        targeted_job(spec, mode, args).copy_args.len() == 0,
{
    containers_run_the_arguments(spec.android_container_name, args);
}

/// An app is installed from its own path on the host. In the container it is installed from the
/// very path that it is copied to.
pub proof fn installs_use_the_copied_file(spec: SpecView, mode: AdbMode, apk_path: Seq<char>)
    ensures
        ({
            let job = install_job(spec, mode, apk_path);
            let inside = "/tmp/docker-git-install.apk"@;
            &&& job.host_args == targeted(spec.adb_endpoint, seq!["install"@, apk_path])
            &&& job.copy_args == seq!["cp"@, apk_path, spec.android_container_name + seq![':'] + inside]
            &&& job.container_args.skip(3) == targeted(
                "emulator-5554"@,
                seq!["install"@, inside],
            )
        }),
{
    reveal_strlit(":");
    assert(":"@ =~= seq![':']);
    containers_run_the_arguments(
        spec.android_container_name,
        seq!["install"@, CONTAINER_INSTALL_APK_PATH@],
    );
}

/// Whether a job has come to a command of the given program with the given arguments.
pub open spec fn comes_to(step: JobStepView, program: Program, args: Seq<Seq<char>>) -> bool {
    step matches JobStepView::Next(next) && job_command(next) == (program, args)
}

/// A job begins where its mode says: on the host with a connection, in the container with the copy
/// of its file where it has one and else with its command, and where it is to find out with a
/// connection that it may fail.
pub proof fn jobs_begin_by_their_mode(job: JobView, mode: AdbMode)
    requires
        job.stage == first_stage(mode, job.copy_args),
    ensures
        mode is Container && job.copy_args.len() == 0 ==> job_command(job) == (
            Program::Docker,
            job.container_args,
        ),
        mode is Container && job.copy_args.len() > 0 ==> job_command(job) == (
            Program::Docker,
            job.copy_args,
        ),
        mode is Host || mode is Auto ==> job_command(job) == (
            Program::Adb,
            seq!["connect"@, job.endpoint],
        ),
        mode is Auto <==> job.stage is Probe,
        mode is Host <==> job.stage is Connect,
{
}

/// After a connection ADB of the host does the work, after a copy ADB of the container does, and
/// what the work leaves is handed out, whether it failed or not. A connection or a copy that fails
/// ends the job with a report, and so does a command that cannot be started, except where a job
/// finds out whether the host can connect.
pub proof fn jobs_come_to_their_work(job: JobView, output: ProcessOutput, message: String)
    ensures
        ({
            let good = output.code == Some(0i32);
            let after = job_step(job, Ok(output));
            let not_started = job_step(job, Err(message));
            &&& job.stage is Probe && good ==> comes_to(
                after,
                Program::Adb,
                seq!["connect"@, job.endpoint],
            ) && after->Next_0.stage is Connect
            &&& job.stage is Probe && !good ==> after == not_started
            &&& job.stage is Probe && job.copy_args.len() == 0 ==> comes_to(
                not_started,
                Program::Docker,
                job.container_args,
            )
            &&& job.stage is Probe && job.copy_args.len() > 0 ==> comes_to(
                not_started,
                Program::Docker,
                job.copy_args,
            ) && not_started->Next_0.stage is Copy
            &&& job.stage is Connect && good ==> comes_to(after, Program::Adb, job.host_args)
            &&& job.stage is Connect && !good ==> after == JobStepView::Failed(
                command_error_text("adb connect"@, output),
            )
            &&& job.stage is Copy && good ==> comes_to(after, Program::Docker, job.container_args)
            &&& job.stage is Copy && !good ==> after == JobStepView::Failed(
                command_error_text(docker_label(job.copy_args), output),
            )
            &&& job.stage is HostRun || job.stage is ContainerRun ==> after == JobStepView::Done(
                output,
            )
            &&& job.stage !is Probe ==> not_started == JobStepView::Failed(message@)
        }),
{
}

/// A shell reads the command of the host back: it connects ADB to the endpoint, and where that
/// succeeds it calls ADB with the arguments.
pub proof fn host_commands_are_read_by_a_shell(endpoint: Seq<char>, args: Seq<Seq<char>>)
    ensures
        shell_words(quoted(endpoint)) == Some(seq![endpoint]),
        shell_command(host_targeted_line(endpoint, args)) == seq![
            "sh"@,
            "-c"@,
            "adb connect "@ + quoted(endpoint) + " && adb "@ + quoted_words(
                targeted(endpoint, args),
            ),
        ],
        shell_words(quoted_words(targeted(endpoint, args))) == Some(targeted(endpoint, args)),
        args.len() > 0 ==> host_proxy_line(endpoint, args) == "adb connect "@ + quoted(endpoint)
            + " && "@ + ("adb "@ + quoted_words(args)),
        args.len() == 0 ==> host_proxy_line(endpoint, args) == "adb connect "@ + quoted(endpoint)
            + " && "@ + "adb"@,
        shell_words(quoted_words(args)) == Some(args),
{
    quoting_is_undone_by_a_shell(targeted(endpoint, args));
    quoting_is_undone_by_a_shell(args);
    quoting_is_undone_by_a_shell(seq![endpoint]);
    let one = seq![endpoint];
    let parts = one.map_values(|value: Seq<char>| quoted(value));
    assert(parts =~= seq![quoted(endpoint)]);
    assert(quoted_words(one) == quoted(endpoint));
}

/// Modes go by these names.
pub proof fn modes_go_by_their_names(mode: AdbMode)
    ensures
        mode_text(AdbMode::Auto) == "auto"@,
        mode_text(AdbMode::Host) == "host"@,
        mode_text(AdbMode::Container) == "container"@,
{
}

/// What follows a command of a job is seen as it is.
pub proof fn steps_are_seen_as_they_are(job: AdbJob, output: ProcessOutput, text: String)
    ensures
        JobStep::Next(job)@ == JobStepView::Next(job@),
        JobStep::Done(output)@ == JobStepView::Done(output),
        JobStep::Failed(text)@ == JobStepView::Failed(text@),
{
}

} // verus!
