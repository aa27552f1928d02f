use vstd::prelude::*;
use vstd::string::StringExecFns;

use crate::model::Language;

verus! {

/// How one test case of a submission went.
#[derive(Debug, Clone, Copy, PartialEq, Eq, Structural)]
pub enum CaseResultKind {
    Correct,
    Wrong,
    RuntimeError,
    TimeLimitExceeded,
    MemoryLimitExceeded,
}

/// The verdict of one test case, with what it used.
#[derive(Debug, Clone, Copy, PartialEq, Eq, Structural)]
pub struct CaseResult {
    pub kind: CaseResultKind,
    pub memory_usage: u64,
    /// In milliseconds.
    pub time: u64,
}

/// The label shown for a case kind.
pub open spec fn kind_label(kind: CaseResultKind) -> Seq<char> {
    match kind {
        CaseResultKind::Correct => "Correct ✅"@,
        CaseResultKind::Wrong => "Wrong ❌"@,
        CaseResultKind::RuntimeError => "Runtime error 💥"@,
        CaseResultKind::TimeLimitExceeded => "Timeout ⌛"@,
        CaseResultKind::MemoryLimitExceeded => "Memory limit exceeded"@,
    }
}

impl CaseResultKind {
    pub fn as_str(self) -> (r: &'static str)
        ensures
            r@ == kind_label(self),
    {
        match self {
            CaseResultKind::Correct => "Correct ✅",
            CaseResultKind::Wrong => "Wrong ❌",
            CaseResultKind::RuntimeError => "Runtime error 💥",
            CaseResultKind::TimeLimitExceeded => "Timeout ⌛",
            CaseResultKind::MemoryLimitExceeded => "Memory limit exceeded",
        }
    }
}

impl CaseResult {
    /// The label shown for this case's verdict.
    pub fn as_str(self) -> (r: &'static str)
        ensures
            r@ == kind_label(self.kind),
    {
        self.kind.as_str()
    }
}

/// The verdict on a whole submission: one result per test case, in the order
/// of the test cases, or the reason the program could not be run at all.
#[derive(Debug, Clone, PartialEq, Eq)]
pub enum TestResponse {
    Completed(Vec<CaseResult>),
    InvalidProgram(String),
}

/// The mathematical value of a `TestResponse`.
pub enum TestResponseView {
    Completed(Seq<CaseResult>),
    InvalidProgram(Seq<char>),
}

impl View for TestResponse {
    type V = TestResponseView;

    open spec fn view(&self) -> TestResponseView {
        match self {
            TestResponse::Completed(cases) => TestResponseView::Completed(cases@),
            TestResponse::InvalidProgram(reason) => TestResponseView::InvalidProgram(reason@),
        }
    }
}

/// The character that stands for a case kind in the stored form of a verdict.
pub open spec fn kind_char(kind: CaseResultKind) -> char {
    match kind {
        CaseResultKind::Correct => 'c',
        CaseResultKind::Wrong => 'w',
        CaseResultKind::RuntimeError => 'r',
        CaseResultKind::TimeLimitExceeded => 't',
        CaseResultKind::MemoryLimitExceeded => 'm',
    }
}

/// The case kind that a character stands for, if any.
pub open spec fn kind_of_char(c: char) -> Option<CaseResultKind> {
    if c == 'c' {
        Some(CaseResultKind::Correct)
    } else if c == 'w' {
        Some(CaseResultKind::Wrong)
    } else if c == 'r' {
        Some(CaseResultKind::RuntimeError)
    } else if c == 't' {
        Some(CaseResultKind::TimeLimitExceeded)
    } else if c == 'm' {
        Some(CaseResultKind::MemoryLimitExceeded)
    } else {
        None
    }
}

pub fn case_result_to_char(kind: CaseResultKind) -> (c: char)
    ensures
        c == kind_char(kind),
        kind_of_char(c) == Some(kind),
{
    match kind {
        CaseResultKind::Correct => 'c',
        CaseResultKind::Wrong => 'w',
        CaseResultKind::RuntimeError => 'r',
        CaseResultKind::TimeLimitExceeded => 't',
        CaseResultKind::MemoryLimitExceeded => 'm',
    }
}

pub fn case_result_from_char(c: char) -> (r: Option<CaseResultKind>)
    ensures
        r == kind_of_char(c),
        r matches Some(kind) ==> kind_char(kind) == c,
{
    match c {
        'c' => Some(CaseResultKind::Correct),
        'w' => Some(CaseResultKind::Wrong),
        'r' => Some(CaseResultKind::RuntimeError),
        't' => Some(CaseResultKind::TimeLimitExceeded),
        'm' => Some(CaseResultKind::MemoryLimitExceeded),
        _ => None,
    }
}

/// A failure of the sandboxing machinery itself, with a message that says
/// which step failed. A program that does not compile is no such failure: it
/// is the verdict `InvalidProgram`.
#[derive(Debug, Clone, PartialEq, Eq)]
pub enum Error {
    Internal(String),
}

pub open spec fn error_message(e: Error) -> Seq<char> {
    match e {
        Error::Internal(m) => m@,
    }
}

impl Error {
    /// The failure of the step `context` with the cause `error`:
    /// `while <context>: <error>`.
    pub fn internal(context: &str, error: &str) -> (r: Error)
        ensures
            error_message(r) == "while "@ + context@ + ": "@ + error@,
    {
        let mut m = String::from_str("while ");
        m.append(context);
        m.append(": ");
        m.append(error);
        proof {
            reveal_strlit("while ");
            reveal_strlit(": ");
        }
        Error::Internal(m)
    }
}

/// A request to judge `code` against the test cases `tests`.
#[derive(Debug, Clone, PartialEq, Eq)]
pub struct Test {
    pub language: Language,
    /// In milliseconds.
    pub time_limit: u32,
    pub code: String,
    pub tests: String,
    /// The source of a script that decides whether an output is correct, in
    /// place of an exact comparison.
    pub custom_judger: Option<String>,
}

/// What the runner inside the image is asked to do.
#[derive(Debug, Clone, PartialEq, Eq)]
pub enum Command {
    Test(Test),
    /// Report the toolchain version of each language, indexed by the
    /// language's stored number.
    Versions,
}

// ---------------------------------------------------------------------------
// Building the image
// ---------------------------------------------------------------------------

/// The text of the first capture group of the leftmost match of the regular
/// expression `pattern` in `haystack`; `None` when the pattern is not valid,
/// nothing matches, or the group takes no part in the match.
pub uninterp spec fn regex_first_group(pattern: Seq<char>, haystack: Seq<char>) -> Option<
    Seq<char>,
>;

/// Relies on `regex::Regex::new`, `Regex::captures` and `Captures::get`: the
/// first group of the leftmost match, which is a part of `haystack`.
#[verifier::external_body]
fn first_capture(pattern: &str, haystack: &str) -> (r: Option<String>)
    ensures
        match r {
            Some(g) => regex_first_group(pattern@, haystack@) == Some(g@),
            None => regex_first_group(pattern@, haystack@) is None,
        },
{
    match regex::Regex::new(pattern) {
        Ok(re) => re.captures(haystack).and_then(|c| c.get(1)).map(|m| m.as_str().to_string()),
        Err(_) => None,
    }
}

/// The line that the image builder prints on success, with the image's
/// identifier as its group.
pub open spec fn build_marker() -> Seq<char> {
    "Successfully built ([a-f0-9]+)"@
}

/// The image identifier announced by `line`, if it announces one.
pub open spec fn announced_id(line: Seq<char>) -> Option<Seq<char>> {
    regex_first_group(build_marker(), line)
}

/// The identifier announced by the first announcing line among `lines`.
pub open spec fn first_announced_id(lines: Seq<Seq<char>>) -> Option<Seq<char>>
    decreases lines.len(),
{
    if lines.len() == 0 {
        None
    } else {
        match first_announced_id(lines.drop_last()) {
            Some(id) => Some(id),
            None => announced_id(lines.last()),
        }
    }
}

pub open spec fn opt_view(o: Option<String>) -> Option<Seq<char>> {
    match o {
        Some(s) => Some(s@),
        None => None,
    }
}

/// A build whose output never announces an image identifier yields none, so
/// `image_id_from_build` refuses it whatever the exit status.
pub proof fn lemma_no_announcement_no_image(lines: Seq<Seq<char>>)
    requires
        forall|i: int| 0 <= i < lines.len() ==> announced_id(#[trigger] lines[i]) is None,
    ensures
        first_announced_id(lines) is None,
    decreases lines.len(),
{
    if lines.len() > 0 {
        let t = lines.drop_last();
        assert(announced_id(lines[lines.len() - 1]) is None);
        assert forall|i: int| 0 <= i < t.len() implies announced_id(#[trigger] t[i]) is None by {
            assert(t[i] == lines[i]);
        }
        lemma_no_announcement_no_image(t);
    }
}

/// Reads one line of the builder's output: the identifier found so far, or
/// else the one this line announces.
pub fn scan_build_line(found: Option<String>, line: &str) -> (r: Option<String>)
    ensures
        opt_view(r) == match found {
            Some(f) => Some(f@),
            None => announced_id(line@),
        },
{
    if found.is_some() {
        return found;
    }
    let pattern = "Successfully built ([a-f0-9]+)";
    proof {
        reveal_strlit("Successfully built ([a-f0-9]+)");
    }
    first_capture(pattern, line)
}

/// Why the image could not be built.
#[derive(Debug, Clone, Copy, PartialEq, Eq, Structural)]
pub enum BuildError {
    /// The builder exited with a failure status.
    Failed,
    /// The builder never announced the identifier of what it built.
    NoImageId,
}

/// Decides the outcome of an image build from the builder's output lines and
/// whether it exited successfully. Serving needs an image, so either error is
/// fatal to whoever starts the service.
pub fn image_id_from_build(lines: &Vec<String>, succeeded: bool) -> (r: Result<String, BuildError>)
    ensures
        !succeeded ==> r == Err::<String, BuildError>(BuildError::Failed),
        succeeded ==> match first_announced_id(lines@.map_values(|l: String| l@)) {
            Some(id) => (r matches Ok(s) && s@ == id),
            None => r == Err::<String, BuildError>(BuildError::NoImageId),
        },
{
    let ghost views = lines@.map_values(|l: String| l@);
    let mut found: Option<String> = None;
    let mut i: usize = 0;
    while i < lines.len()
        invariant
            i <= lines@.len(),
            views == lines@.map_values(|l: String| l@),
            opt_view(found) == first_announced_id(views.take(i as int)),
        decreases lines@.len() - i,
    {
        found = scan_build_line(found, lines[i].as_str());
        proof {
            assert(views.take(i + 1).drop_last() =~= views.take(i as int));
            assert(views.take(i + 1).last() == lines@[i as int]@);
        }
        i = i + 1;
    }
    assert(views.take(i as int) =~= views);
    if !succeeded {
        return Err(BuildError::Failed);
    }
    match found {
        Some(id) => Ok(id),
        None => Err(BuildError::NoImageId),
    }
}

// ---------------------------------------------------------------------------
// Running a container
// ---------------------------------------------------------------------------

/// The directory inside the container where the command file is mounted.
pub open spec fn mount_option(dir: Seq<char>) -> Seq<char> {
    "type=bind,source="@ + dir + ",destination=/input,readonly"@
}

/// The arguments of the container engine that run `image_id` once: removed
/// after exit, 100 MiB of memory at most, no network, and `dir` mounted read
/// only where the runner looks for its command.
pub open spec fn run_args_spec(image_id: Seq<char>, dir: Seq<char>) -> Seq<Seq<char>> {
    seq![
        "run"@,
        "--rm"@,
        "--memory=100m"@,
        "--network=none"@,
        "--mount"@,
        mount_option(dir),
        image_id,
    ]
}

/// Two runs whose temporary directories differ mount different directories:
/// the only files a run's container sees are those of its own directory.
pub proof fn lemma_runs_mount_own_directory(image_id: Seq<char>, dir1: Seq<char>, dir2: Seq<char>)
    requires
        dir1 != dir2,
    ensures
        run_args_spec(image_id, dir1)[5] != run_args_spec(image_id, dir2)[5],
{
    let prefix = "type=bind,source="@;
    let suffix = ",destination=/input,readonly"@;
    if mount_option(dir1) == mount_option(dir2) {
        assert(mount_option(dir1).len() == prefix.len() + dir1.len() + suffix.len());
        assert(dir1 =~= mount_option(dir1).subrange(
            prefix.len() as int,
            (prefix.len() + dir1.len()) as int,
        ));
        assert(dir2 =~= mount_option(dir2).subrange(
            prefix.len() as int,
            (prefix.len() + dir2.len()) as int,
        ));
    }
}

pub fn docker_run_args(image_id: &str, dir: &str) -> (r: Vec<String>)
    ensures
        r@.map_values(|a: String| a@) == run_args_spec(image_id@, dir@),
{
    let mut mount = String::from_str("type=bind,source=");
    mount.append(dir);
    mount.append(",destination=/input,readonly");
    proof {
        reveal_strlit("run");
        reveal_strlit("--rm");
        reveal_strlit("--memory=100m");
        reveal_strlit("--network=none");
        reveal_strlit("--mount");
        reveal_strlit("type=bind,source=");
        reveal_strlit(",destination=/input,readonly");
    }
    let r = vec![
        String::from_str("run"),
        String::from_str("--rm"),
        String::from_str("--memory=100m"),
        String::from_str("--network=none"),
        String::from_str("--mount"),
        mount,
        String::from_str(image_id),
    ];
    assert(r@.map_values(|a: String| a@) =~= run_args_spec(image_id@, dir@));
    r
}

/// The response of a finished container run: its standard output when it
/// exited successfully, else an error that carries the exit status and the
/// standard error text.
pub fn container_output(success: bool, status: &str, stdout: Vec<u8>, stderr: &str) -> (r: Result<
    Vec<u8>,
    Error,
>)
    ensures
        success ==> r == Ok::<Vec<u8>, Error>(stdout),
        !success ==> (r matches Err(e) && error_message(e) == "while running docker: got bad status "@
            + status@ + ". stderr: "@ + stderr@),
{
    if success {
        Ok(stdout)
    } else {
        let mut m = String::from_str("while running docker: got bad status ");
        m.append(status);
        m.append(". stderr: ");
        m.append(stderr);
        proof {
            reveal_strlit("while running docker: got bad status ");
            reveal_strlit(". stderr: ");
        }
        Err(Error::Internal(m))
    }
}

// ---------------------------------------------------------------------------
// The sandbox
// ---------------------------------------------------------------------------

/// A built image, with the toolchain versions that it reported. Both are set
/// once when the service starts and only read afterwards, so concurrent runs
/// share them without locking.
pub struct Sandbox {
    image_id: String,
    versions: Vec<String>,
}

impl Sandbox {
    pub closed spec fn image_id_view(&self) -> Seq<char> {
        self.image_id@
    }

    pub closed spec fn versions_view(&self) -> Seq<Seq<char>> {
        self.versions@.map_values(|v: String| v@)
    }

    /// A sandbox for the built image `image_id`, whose runner reported
    /// `versions`, one per language in the order of their stored numbers.
    pub fn from_parts(image_id: String, versions: Vec<String>) -> (r: Sandbox)
        ensures
            r.image_id_view() == image_id@,
            r.versions_view() == versions@.map_values(|v: String| v@),
    {
        Sandbox { image_id, versions }
    }

    pub fn image_id(&self) -> (r: &str)
        ensures
            r@ == self.image_id_view(),
    {
        self.image_id.as_str()
    }

    /// The indices of these strings are the stored numbers of the languages
    /// that they belong to.
    pub fn versions(&self) -> (r: &[String])
        ensures
            r@.map_values(|v: String| v@) == self.versions_view(),
    {
        self.versions.as_slice()
    }
}

} // verus!
