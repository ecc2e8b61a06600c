//! Authentication of the process at the other end of a named pipe.

use vstd::prelude::*;

use crate::failure;
use crate::failure::Failure;
use crate::failure::FailureView;
use crate::text;

verus! {

// ---------------------------------------------------------------------------------------------
// Paths
// ---------------------------------------------------------------------------------------------

fn to_ascii_lower(character: char) -> (lower: char)
    ensures
        lower == text::ascii_lower(character),
{
    if 'A' <= character && character <= 'Z' {
        (character as u8 + 32) as char
    } else {
        character
    }
}

/// Whether two texts differ in nothing but the case of ASCII letters.
pub open spec fn same_but_for_case(left: Seq<char>, right: Seq<char>) -> bool {
    &&& left.len() == right.len()
    &&& forall|i: int|
        0 <= i < left.len() ==> text::ascii_lower(#[trigger] left[i]) == text::ascii_lower(right[i])
}

/// Compares two paths without regard to the case of ASCII letters.
pub fn paths_equal_case_insensitive(left: &str, right: &str) -> (equal: bool)
    ensures
        equal == same_but_for_case(left@, right@),
{
    let a = text::to_chars(left);
    let b = text::to_chars(right);
    if a.len() != b.len() {
        return false;
    }
    let mut index: usize = 0;
    while index < a.len()
        invariant
            index <= a@.len(),
            a@.len() == b@.len(),
            a@ == left@,
            b@ == right@,
            forall|i: int|
                0 <= i < index ==> text::ascii_lower(#[trigger] left@[i]) == text::ascii_lower(right@[i]),
        decreases a.len() - index,
    {
        if to_ascii_lower(a[index]) != to_ascii_lower(b[index]) {
            proof {
                assert(text::ascii_lower(left@[index as int]) != text::ascii_lower(right@[index as int]));
            }
            return false;
        }
        index += 1;
    }
    true
}

/// Paths that are equal but for case stay so under any chain of comparisons.
pub proof fn path_equality_is_an_equivalence(a: Seq<char>, b: Seq<char>, c: Seq<char>)
    ensures
        same_but_for_case(a, a),
        same_but_for_case(a, b) ==> same_but_for_case(b, a),
        same_but_for_case(a, b) && same_but_for_case(b, c) ==> same_but_for_case(a, c),
{
    if same_but_for_case(a, b) {
        assert forall|i: int| 0 <= i < b.len() implies text::ascii_lower(#[trigger] b[i])
            == text::ascii_lower(a[i]) by {
            assert(text::ascii_lower(a[i]) == text::ascii_lower(b[i]));
        }
        if same_but_for_case(b, c) {
            assert forall|i: int| 0 <= i < a.len() implies text::ascii_lower(#[trigger] a[i])
                == text::ascii_lower(c[i]) by {
                assert(text::ascii_lower(b[i]) == text::ascii_lower(c[i]));
            }
        }
    }
}

/// Whether the name of a path component ends in a way that Windows drops.
pub open spec fn ends_loosely(component: Seq<char>) -> bool {
    component.len() > 0 && (component.last() == '.' || component.last() == ' ')
}

/// A path component whose name ends in a dot or a space.
#[derive(Clone, Copy, Debug, PartialEq, Eq, Structural)]
pub struct LooseComponent;

impl LooseComponent {
    /// Describes the error.
    pub fn message(&self) -> (message: String)
        ensures
            message@ == "executable path contains a trailing dot or space"@,
    {
        "executable path contains a trailing dot or space".to_owned()
    }
}

/// Refuses a path if the name of one of its components ends in a dot or a space. `components` are
/// the named components: no prefix, root, `.` or `..`.
pub fn validate_path_components(components: &Vec<String>) -> (result: Result<(), LooseComponent>)
    ensures
        result is Ok <==> forall|i: int|
            0 <= i < components@.len() ==> !ends_loosely((#[trigger] components@[i])@),
{
    let mut index: usize = 0;
    while index < components.len()
        invariant
            index <= components@.len(),
            forall|i: int| 0 <= i < index ==> !ends_loosely((#[trigger] components@[i])@),
        decreases components.len() - index,
    {
        let chars = text::to_chars(components[index].as_str());
        let length: usize = chars.len();
        if length > 0 && (chars[length - 1] == '.' || chars[length - 1] == ' ') {
            proof {
                assert(ends_loosely(components@[index as int]@));
            }
            return Err(LooseComponent);
        }
        index += 1;
    }
    Ok(())
}

/// The attribute of a file that stands for another one.
pub const FILE_ATTRIBUTE_REPARSE_POINT: u32 = 0x400;

/// How many characters a path without links and short names may have.
pub const MAX_CANONICAL_LENGTH: usize = 32_768;

/// Why a program has no path without links and short names.
#[derive(Clone, Copy, Debug, PartialEq, Eq, Structural)]
pub enum CanonicalError {
    LooseComponent,
    ReparsePoint,
    NotNormalized,
}

/// The text of a [`CanonicalError`].
pub open spec fn canonical_error_text(error: CanonicalError) -> Seq<char> {
    match error {
        CanonicalError::LooseComponent => "executable path contains a trailing dot or space"@,
        CanonicalError::ReparsePoint => "executable path is a reparse point"@,
        CanonicalError::NotNormalized => "failed to normalize executable path"@,
    }
}

impl CanonicalError {
    /// Describes the error.
    pub fn message(&self) -> (message: String)
        ensures
            message@ == canonical_error_text(*self),
    {
        match self {
            CanonicalError::LooseComponent =>
                "executable path contains a trailing dot or space".to_owned(),
            CanonicalError::ReparsePoint => "executable path is a reparse point".to_owned(),
            CanonicalError::NotNormalized => "failed to normalize executable path".to_owned(),
        }
    }
}

/// What is to be done to find out a path without links and short names.
#[derive(Clone, Copy, Debug, PartialEq, Eq, Structural)]
pub enum CanonicalStep {
    /// Open the file itself, whatever it stands for, and find out its attributes.
    Inspect,
    /// Ask for the path, and how many characters it has.
    Normalize,
    /// Take that many characters.
    Take { length: usize },
    /// The file is refused.
    Rejected { error: CanonicalError },
}

/// Whether the attributes are those of a file that stands for another one.
pub open spec fn is_reparse_point(attributes: u32) -> bool {
    attributes & FILE_ATTRIBUTE_REPARSE_POINT != 0
}

/// What is to be done to find out a path without links and short names. `attributes` and `length`
/// are what the system gave, once it was asked.
pub open spec fn canonical_step(
    components: Seq<Seq<char>>,
    attributes: Option<u32>,
    length: Option<u32>,
) -> CanonicalStep {
    if exists|i: int| 0 <= i < components.len() && ends_loosely(#[trigger] components[i]) {
        CanonicalStep::Rejected { error: CanonicalError::LooseComponent }
    } else if attributes is None {
        CanonicalStep::Inspect
    } else if is_reparse_point(attributes->0) {
        CanonicalStep::Rejected { error: CanonicalError::ReparsePoint }
    } else if length is None {
        CanonicalStep::Normalize
    } else if length->0 == 0 || length->0 > MAX_CANONICAL_LENGTH {
        CanonicalStep::Rejected { error: CanonicalError::NotNormalized }
    } else {
        CanonicalStep::Take { length: length->0 as usize }
    }
}

/// Decides what is to be done to find out a path without links and short names.
pub fn canonicalize_without_reparse(
    components: &Vec<String>,
    attributes: Option<u32>,
    length: Option<u32>,
) -> (step: CanonicalStep)
    ensures
        step == canonical_step(components.deep_view(), attributes, length),
{
    if validate_path_components(components).is_err() {
        proof {
            let loose = choose|i: int|
                0 <= i < components@.len() && ends_loosely((#[trigger] components@[i])@);
            assert(ends_loosely(components.deep_view()[loose]));
        }
        return CanonicalStep::Rejected { error: CanonicalError::LooseComponent };
    }
    match attributes {
        None => CanonicalStep::Inspect,
        Some(bits) => {
            if bits & FILE_ATTRIBUTE_REPARSE_POINT != 0 {
                return CanonicalStep::Rejected { error: CanonicalError::ReparsePoint };
            }
            match length {
                None => CanonicalStep::Normalize,
                Some(count) => if count == 0 || count > MAX_CANONICAL_LENGTH as u32 {
                    CanonicalStep::Rejected { error: CanonicalError::NotNormalized }
                } else {
                    CanonicalStep::Take { length: count as usize }
                },
            }
        },
    }
}

/// A path is taken only from a file that stands for itself, and only if no component of the path
/// that was asked for ends in a way that the system would overlook.
pub proof fn canonical_paths_are_direct(
    components: Seq<Seq<char>>,
    attributes: Option<u32>,
    length: Option<u32>,
)
    requires
        canonical_step(components, attributes, length) is Take,
    ensures
        forall|i: int| 0 <= i < components.len() ==> !ends_loosely(#[trigger] components[i]),
        attributes is Some,
        !is_reparse_point(attributes->0),
        length is Some,
        0 < length->0 <= MAX_CANONICAL_LENGTH,
{
}

// ---------------------------------------------------------------------------------------------
// Command lines
// ---------------------------------------------------------------------------------------------

/// Why a command line names no executable.
#[derive(Clone, Copy, Debug, PartialEq, Eq, Structural)]
pub enum CommandLineError {
    /// There is none.
    NoExecutable,
    /// It is quoted, and the quotation does not end.
    UnterminatedQuote,
}

/// The text of a [`CommandLineError`].
pub open spec fn command_line_error_text(error: CommandLineError) -> Seq<char> {
    match error {
        CommandLineError::NoExecutable => "service command line has no executable path"@,
        CommandLineError::UnterminatedQuote =>
            "service command line has an unterminated executable quote"@,
    }
}

impl CommandLineError {
    /// Describes the error.
    pub fn message(&self) -> (message: String)
        ensures
            message@ == command_line_error_text(*self),
    {
        match self {
            CommandLineError::NoExecutable =>
                "service command line has no executable path".to_owned(),
            CommandLineError::UnterminatedQuote =>
                "service command line has an unterminated executable quote".to_owned(),
        }
    }
}

/// Some backslashes.
pub open spec fn backslashes(count: nat) -> Seq<char> {
    Seq::new(count, |i: int| '\\')
}

/// What a quotation holds from here to its end, given how many backslashes come right before. A
/// quotation mark ends it unless an odd number of backslashes comes before; before a quotation
/// mark, two backslashes stand for one, and elsewhere each stands for itself.
pub open spec fn quotation(rest: Seq<char>, slashes: nat) -> Option<Seq<char>>
    decreases rest.len(),
{
    if rest.len() == 0 {
        None
    } else if rest[0] == '\\' {
        quotation(rest.skip(1), slashes + 1)
    } else if rest[0] == '"' {
        if slashes % 2 == 0 {
            Some(backslashes(slashes / 2))
        } else {
            match quotation(rest.skip(1), 0) {
                Some(after) => Some(backslashes(slashes / 2) + seq!['"'] + after),
                None => None,
            }
        }
    } else {
        match quotation(rest.skip(1), 0) {
            Some(after) => Some(backslashes(slashes) + seq![rest[0]] + after),
            None => None,
        }
    }
}

/// The executable that a command line names.
pub open spec fn executable_of(command_line: Seq<char>) -> Result<Seq<char>, CommandLineError> {
    let rest = text::trim_start(command_line);
    if rest.len() == 0 {
        Err(CommandLineError::NoExecutable)
    } else if rest[0] == '"' {
        match quotation(rest.skip(1), 0) {
            None => Err(CommandLineError::UnterminatedQuote),
            Some(executable) => if executable.len() == 0 {
                Err(CommandLineError::NoExecutable)
            } else {
                Ok(executable)
            },
        }
    } else {
        Ok(rest.take(text::leading_word(rest) as int))
    }
}

fn push_backslashes(text: &mut Vec<char>, count: usize)
    ensures
        final(text)@ == old(text)@ + backslashes(count as nat),
{
    let ghost before = text@;
    let mut done: usize = 0;
    proof {
        assert(before + backslashes(0) =~= before);
    }
    while done < count
        invariant
            done <= count,
            text@ == before + backslashes(done as nat),
        decreases count - done,
    {
        text.push('\\');
        done += 1;
        proof {
            assert(text@ =~= before + backslashes(done as nat));
        }
    }
}

fn read_quotation(chars: &[char], from: usize) -> (result: Option<Vec<char>>)
    requires
        from <= chars@.len(),
    ensures
        match result {
            Some(executable) => quotation(chars@.skip(from as int), 0) == Some(executable@),
            None => quotation(chars@.skip(from as int), 0) is None,
        },
{
    let mut executable: Vec<char> = Vec::new();
    let mut slashes: usize = 0;
    let mut index: usize = from;
    let ghost whole = quotation(chars@.skip(from as int), 0);
    proof {
        if whole is Some {
            assert(executable@ + whole->0 =~= whole->0);
        }
    }
    while index < chars.len()
        invariant
            from <= index <= chars@.len(),
            slashes <= index - from,
            whole == quotation(chars@.skip(from as int), 0),
            match quotation(chars@.skip(index as int), slashes as nat) {
                Some(after) => whole == Some(executable@ + after),
                None => whole is None,
            },
        decreases chars.len() - index,
    {
        let ghost rest = chars@.skip(index as int);
        let ghost before = executable@;
        let character = chars[index];
        proof {
            assert(rest[0] == character);
            assert(rest.skip(1) =~= chars@.skip(index + 1));
        }
        if character == '\\' {
            slashes += 1;
        } else if character == '"' {
            push_backslashes(&mut executable, slashes / 2);
            if slashes % 2 == 0 {
                return Some(executable);
            }
            executable.push('"');
            proof {
                let part = backslashes((slashes / 2) as nat) + seq!['"'];
                assert(executable@ =~= before + part);
                let after = quotation(rest.skip(1), 0);
                if after is Some {
                    assert(before + (part + after->0) =~= executable@ + after->0);
                }
            }
            slashes = 0;
        } else {
            push_backslashes(&mut executable, slashes);
            executable.push(character);
            proof {
                let part = backslashes(slashes as nat) + seq![character];
                assert(executable@ =~= before + part);
                let after = quotation(rest.skip(1), 0);
                if after is Some {
                    assert(before + (part + after->0) =~= executable@ + after->0);
                }
            }
            slashes = 0;
        }
        index += 1;
    }
    None
}

/// Takes the executable out of a command line.
pub fn executable_from_command_line(command_line: &str) -> (result: Result<
    String,
    CommandLineError,
>)
    ensures
        match result {
            Ok(executable) => executable_of(command_line@) == Ok::<Seq<char>, CommandLineError>(
                executable@,
            ),
            Err(error) => executable_of(command_line@) == Err::<Seq<char>, CommandLineError>(
                error,
            ),
        },
{
    let chars = text::to_chars(command_line);
    let start: usize = text::skip_whitespace(chars.as_slice(), 0);
    proof {
        assert(chars@.skip(0) =~= chars@);
    }
    let ghost rest = text::trim_start(chars@);
    if start >= chars.len() {
        return Err(CommandLineError::NoExecutable);
    }
    if chars[start] == '"' {
        proof {
            assert(rest.skip(1) =~= chars@.skip(start + 1));
        }
        return match read_quotation(chars.as_slice(), start + 1) {
            None => Err(CommandLineError::UnterminatedQuote),
            Some(executable) => if executable.len() == 0 {
                Err(CommandLineError::NoExecutable)
            } else {
                Ok(text::from_chars(executable.as_slice()))
            },
        };
    }
    let end: usize = text::skip_word(chars.as_slice(), start);
    let executable = text::slice_chars(chars.as_slice(), start, end);
    proof {
        assert(executable@ =~= rest.take(text::leading_word(rest) as int));
    }
    Ok(text::from_chars(executable.as_slice()))
}

proof fn lemma_plain_quotation(path: Seq<char>, rest: Seq<char>, slashes: nat)
    requires
        forall|i: int| 0 <= i < path.len() ==> #[trigger] path[i] != '"',
        path.len() == 0 ==> slashes == 0,
        path.len() > 0 ==> path.last() != '\\',
    ensures
        quotation(path + seq!['"'] + rest, slashes) == Some(backslashes(slashes) + path),
    decreases path.len(),
{
    let whole = path + seq!['"'] + rest;
    if path.len() == 0 {
        assert(whole[0] == '"');
        assert(backslashes(0) + path =~= backslashes(0));
    } else {
        let tail = path.skip(1);
        assert(whole[0] == path[0]);
        assert(whole.skip(1) =~= tail + seq!['"'] + rest);
        if path.len() > 1 {
            assert(tail.last() == path.last());
        }
        assert forall|i: int| 0 <= i < tail.len() implies #[trigger] tail[i] != '"' by {
            assert(path[i + 1] != '"');
        }
        if path[0] == '\\' {
            assert(tail.len() > 0);
            lemma_plain_quotation(tail, rest, slashes + 1);
            assert(backslashes(slashes + 1) + tail =~= backslashes(slashes) + path);
        } else {
            lemma_plain_quotation(tail, rest, 0);
            assert(backslashes(slashes) + seq![path[0]] + (backslashes(0) + tail) =~= backslashes(
                slashes,
            ) + path);
        }
    }
}

/// A quoted path without quotation marks, that does not end in a backslash, is the executable of
/// every command line that begins with it.
pub proof fn quoted_executables_are_read_back(path: Seq<char>, rest: Seq<char>)
    requires
        path.len() > 0,
        path.last() != '\\',
        forall|i: int| 0 <= i < path.len() ==> #[trigger] path[i] != '"',
    ensures
        executable_of(seq!['"'] + path + seq!['"'] + rest) == Ok::<Seq<char>, CommandLineError>(
            path,
        ),
{
    let whole = seq!['"'] + path + seq!['"'] + rest;
    assert(whole[0] == '"');
    assert(!text::whitespace('"'));
    assert(text::leading_whitespace(whole) == 0);
    assert(text::trim_start(whole) =~= whole);
    assert(whole.skip(1) =~= path + seq!['"'] + rest);
    lemma_plain_quotation(path, rest, 0);
    assert(backslashes(0) + path =~= path);
}

// ---------------------------------------------------------------------------------------------
// The identity of a server
// ---------------------------------------------------------------------------------------------

/// Why a server is not authenticated.
#[derive(Debug, PartialEq, Eq)]
pub enum ServiceIdentityError {
    /// The pipe could not be opened.
    PipeUnavailable,
    /// The service is still starting.
    ServiceStarting,
    /// The service went away during authentication.
    ServiceRestarting,
    /// The identity could not be found out.
    IdentityQueryFailed { source: Failure },
    /// The server runs under another account.
    UnexpectedIdentity { observed_account: String },
    /// The server is another program.
    UnexpectedExecutable { observed_path: String },
}

/// The deep view of a [`ServiceIdentityError`].
#[verifier::ext_equal]
pub enum IdentityErrorView {
    PipeUnavailable,
    ServiceStarting,
    ServiceRestarting,
    IdentityQueryFailed { source: FailureView },
    UnexpectedIdentity { observed_account: Seq<char> },
    UnexpectedExecutable { observed_path: Seq<char> },
}

impl DeepView for ServiceIdentityError {
    type V = IdentityErrorView;

    open spec fn deep_view(&self) -> IdentityErrorView {
        match self {
            ServiceIdentityError::PipeUnavailable => IdentityErrorView::PipeUnavailable,
            ServiceIdentityError::ServiceStarting => IdentityErrorView::ServiceStarting,
            ServiceIdentityError::ServiceRestarting => IdentityErrorView::ServiceRestarting,
            ServiceIdentityError::IdentityQueryFailed { source } =>
                IdentityErrorView::IdentityQueryFailed { source: source.deep_view() },
            ServiceIdentityError::UnexpectedIdentity { observed_account } =>
                IdentityErrorView::UnexpectedIdentity { observed_account: observed_account@ },
            ServiceIdentityError::UnexpectedExecutable { observed_path } =>
                IdentityErrorView::UnexpectedExecutable { observed_path: observed_path@ },
        }
    }
}

/// The text of a [`ServiceIdentityError`].
pub open spec fn identity_error_text(error: IdentityErrorView) -> Seq<char> {
    match error {
        IdentityErrorView::PipeUnavailable => "service pipe is unavailable"@,
        IdentityErrorView::ServiceStarting => "service is starting"@,
        IdentityErrorView::ServiceRestarting => "service is restarting"@,
        IdentityErrorView::IdentityQueryFailed { source } => "service identity query failed: "@
            + failure::outermost(source.causes),
        IdentityErrorView::UnexpectedIdentity { observed_account } =>
            "unexpected service identity: observed account "@ + observed_account,
        IdentityErrorView::UnexpectedExecutable { observed_path } =>
            "unexpected service executable: observed path "@ + observed_path,
    }
}

fn join(first: &str, second: &str) -> (joined: String)
    ensures
        joined@ == first@ + second@,
{
    let mut joined = first.to_owned();
    joined.append(second);
    joined
}

impl ServiceIdentityError {
    /// Describes the error.
    pub fn message(&self) -> (message: String)
        ensures
            message@ == identity_error_text(self.deep_view()),
    {
        match self {
            ServiceIdentityError::PipeUnavailable => "service pipe is unavailable".to_owned(),
            ServiceIdentityError::ServiceStarting => "service is starting".to_owned(),
            ServiceIdentityError::ServiceRestarting => "service is restarting".to_owned(),
            ServiceIdentityError::IdentityQueryFailed { source } => {
                let reason = source.summary();
                join("service identity query failed: ", reason.as_str())
            },
            ServiceIdentityError::UnexpectedIdentity { observed_account } => join(
                "unexpected service identity: observed account ",
                observed_account.as_str(),
            ),
            ServiceIdentityError::UnexpectedExecutable { observed_path } => join(
                "unexpected service executable: observed path ",
                observed_path.as_str(),
            ),
        }
    }
}

/// An authenticated server.
#[derive(Clone, Debug, PartialEq, Eq)]
pub struct ServerIdentity {
    /// The process that the pipe reports.
    pub process_id: u32,
    /// The account that the process runs under.
    pub account_sid: String,
    /// The program that the process runs.
    pub image_path: String,
}

/// The deep view of a [`ServerIdentity`].
#[verifier::ext_equal]
pub struct ServerIdentityView {
    pub process_id: u32,
    pub account_sid: Seq<char>,
    pub image_path: Seq<char>,
}

impl DeepView for ServerIdentity {
    type V = ServerIdentityView;

    open spec fn deep_view(&self) -> ServerIdentityView {
        ServerIdentityView {
            process_id: self.process_id,
            account_sid: self.account_sid@,
            image_path: self.image_path@,
        }
    }
}

/// The exit code that a process has while it runs.
pub const STILL_ACTIVE: u32 = 259;

/// What is known of a server. What is not known has not been asked for.
#[derive(Clone, Debug, PartialEq, Eq)]
pub struct ServerFacts {
    /// Whether other processes may be inspected.
    pub privileged: bool,
    /// The process that the pipe reports.
    pub process_id: Option<u32>,
    /// Its exit code.
    pub exit_code: Option<u32>,
    /// Whether it runs under the account of the system.
    pub local_system: Option<bool>,
    /// The account that it runs under, if it has a text.
    pub account: Option<String>,
    /// The account of the caller.
    pub current_user: Option<String>,
    /// The program that it runs.
    pub image_path: Option<String>,
    /// The program that the service is registered with.
    pub registered_path: Option<String>,
    /// The first of these, without links and short names.
    pub canonical_image: Option<String>,
    /// The program that is expected, without links and short names.
    pub canonical_expected: Option<String>,
    /// Its exit code, asked for once more at the end.
    pub final_exit_code: Option<u32>,
}

/// What is to be found out of a server, or what came of it.
#[derive(Debug, PartialEq, Eq)]
pub enum IdentityStep {
    /// Make sure that other processes may be inspected.
    EnablePrivilege,
    /// Find out the process that the pipe reports.
    ServerProcess,
    /// Open a process and find out its exit code.
    ExitCode { process_id: u32 },
    /// Find out the account that the process runs under.
    Account,
    /// Find out the account of the caller.
    CurrentUser,
    /// Find out the program that the process runs.
    ImagePath,
    /// Find out the program that the service is registered with.
    RegisteredPath,
    /// Find out a path without links and short names, for the program that runs.
    CanonicalImage { path: String },
    /// Find out a path without links and short names, for the program that is expected.
    CanonicalExpected { path: String },
    /// Find out the exit code of the process once more.
    FinalExitCode,
    /// The server is authenticated.
    Accepted { identity: ServerIdentity },
    /// The server is not authenticated.
    Rejected { error: ServiceIdentityError },
}

/// The deep view of an [`IdentityStep`].
#[verifier::ext_equal]
pub enum IdentityStepView {
    EnablePrivilege,
    ServerProcess,
    ExitCode { process_id: u32 },
    Account,
    CurrentUser,
    ImagePath,
    RegisteredPath,
    CanonicalImage { path: Seq<char> },
    CanonicalExpected { path: Seq<char> },
    FinalExitCode,
    Accepted { identity: ServerIdentityView },
    Rejected { error: IdentityErrorView },
}

impl DeepView for IdentityStep {
    type V = IdentityStepView;

    open spec fn deep_view(&self) -> IdentityStepView {
        match self {
            IdentityStep::EnablePrivilege => IdentityStepView::EnablePrivilege,
            IdentityStep::ServerProcess => IdentityStepView::ServerProcess,
            IdentityStep::ExitCode { process_id } => IdentityStepView::ExitCode {
                process_id: *process_id,
            },
            IdentityStep::Account => IdentityStepView::Account,
            IdentityStep::CurrentUser => IdentityStepView::CurrentUser,
            IdentityStep::ImagePath => IdentityStepView::ImagePath,
            IdentityStep::RegisteredPath => IdentityStepView::RegisteredPath,
            IdentityStep::CanonicalImage { path } => IdentityStepView::CanonicalImage {
                path: path@,
            },
            IdentityStep::CanonicalExpected { path } => IdentityStepView::CanonicalExpected {
                path: path@,
            },
            IdentityStep::FinalExitCode => IdentityStepView::FinalExitCode,
            IdentityStep::Accepted { identity } => IdentityStepView::Accepted {
                identity: identity.deep_view(),
            },
            IdentityStep::Rejected { error } => IdentityStepView::Rejected {
                error: error.deep_view(),
            },
        }
    }
}

/// The account that is reported: a process whose account has no text has an unknown one.
pub open spec fn observed_account(facts: ServerFacts) -> Seq<char> {
    match facts.account {
        Some(account) => account@,
        None => "unknown"@,
    }
}

/// Whether the account is one that a server may run under: that of the system, or, where another
/// program is expected, that of the caller.
pub open spec fn trusted_account(facts: ServerFacts, expected: Option<Seq<char>>) -> bool {
    ||| facts.local_system == Some(true)
    ||| expected is Some && facts.current_user is Some && facts.current_user->0@
        == observed_account(facts)
}

/// What follows the account of a server.
pub open spec fn program_step(facts: ServerFacts, expected: Option<Seq<char>>) -> IdentityStepView {
    if facts.image_path is None {
        IdentityStepView::ImagePath
    } else if expected is None && facts.registered_path is None {
        IdentityStepView::RegisteredPath
    } else if facts.canonical_image is None {
        IdentityStepView::CanonicalImage { path: facts.image_path->0@ }
    } else if facts.canonical_expected is None {
        IdentityStepView::CanonicalExpected {
            path: match expected {
                Some(path) => path,
                None => facts.registered_path->0@,
            },
        }
    } else if !same_but_for_case(facts.canonical_image->0@, facts.canonical_expected->0@) {
        IdentityStepView::Rejected {
            error: IdentityErrorView::UnexpectedExecutable {
                observed_path: facts.image_path->0@,
            },
        }
    } else if facts.final_exit_code is None {
        IdentityStepView::FinalExitCode
    } else if facts.final_exit_code != Some(STILL_ACTIVE) {
        IdentityStepView::Rejected { error: IdentityErrorView::ServiceRestarting }
    } else {
        IdentityStepView::Accepted {
            identity: ServerIdentityView {
                process_id: facts.process_id->0,
                account_sid: observed_account(facts),
                image_path: facts.image_path->0@,
            },
        }
    }
}

/// What is to be found out of a server next, or what came of it. `expected` is a program that is
/// expected in place of the registered one.
pub open spec fn identity_step(facts: ServerFacts, expected: Option<Seq<char>>) -> IdentityStepView {
    if !facts.privileged {
        IdentityStepView::EnablePrivilege
    } else if facts.process_id is None {
        IdentityStepView::ServerProcess
    } else if facts.process_id == Some(0u32) {
        IdentityStepView::Rejected { error: IdentityErrorView::ServiceStarting }
    } else if facts.exit_code is None {
        IdentityStepView::ExitCode { process_id: facts.process_id->0 }
    } else if facts.exit_code != Some(STILL_ACTIVE) {
        IdentityStepView::Rejected { error: IdentityErrorView::ServiceRestarting }
    } else if facts.local_system is None {
        IdentityStepView::Account
    } else if expected is Some && facts.current_user is None {
        IdentityStepView::CurrentUser
    } else if !trusted_account(facts, expected) {
        IdentityStepView::Rejected {
            error: IdentityErrorView::UnexpectedIdentity {
                observed_account: observed_account(facts),
            },
        }
    } else {
        program_step(facts, expected)
    }
}

fn reject(error: ServiceIdentityError) -> (step: IdentityStep)
    ensures
        step.deep_view() == (IdentityStepView::Rejected { error: error.deep_view() }),
{
    IdentityStep::Rejected { error }
}

fn account_of(facts: &ServerFacts) -> (account: String)
    ensures
        account@ == observed_account(*facts),
{
    match &facts.account {
        Some(account) => account.clone(),
        None => "unknown".to_owned(),
    }
}

fn is_trusted(facts: &ServerFacts, expected: &Option<String>) -> (trusted: bool)
    ensures
        trusted == trusted_account(*facts, expected.deep_view()),
{
    match facts.local_system {
        Some(true) => {
            return true;
        },
        _ => {},
    }
    if expected.is_none() {
        return false;
    }
    match &facts.current_user {
        None => false,
        Some(user) => {
            let account = account_of(facts);
            *user == account
        },
    }
}

fn judge_program(
    facts: &ServerFacts,
    process_id: u32,
    expected: &Option<String>,
) -> (step: IdentityStep)
    requires
        facts.process_id == Some(process_id),
    ensures
        step.deep_view() == program_step(*facts, expected.deep_view()),
{
    let image_path = match &facts.image_path {
        Some(path) => path,
        None => {
            return IdentityStep::ImagePath;
        },
    };
    let expected_path = match expected {
        Some(path) => path,
        None => match &facts.registered_path {
            Some(path) => path,
            None => {
                return IdentityStep::RegisteredPath;
            },
        },
    };
    let image = match &facts.canonical_image {
        Some(path) => path,
        None => {
            return IdentityStep::CanonicalImage { path: image_path.clone() };
        },
    };
    let wanted = match &facts.canonical_expected {
        Some(path) => path,
        None => {
            return IdentityStep::CanonicalExpected { path: expected_path.clone() };
        },
    };
    if !paths_equal_case_insensitive(image.as_str(), wanted.as_str()) {
        return reject(
            ServiceIdentityError::UnexpectedExecutable { observed_path: image_path.clone() },
        );
    }
    match facts.final_exit_code {
        None => IdentityStep::FinalExitCode,
        Some(code) => if code != STILL_ACTIVE {
            reject(ServiceIdentityError::ServiceRestarting)
        } else {
            IdentityStep::Accepted {
                identity: ServerIdentity {
                    process_id,
                    account_sid: account_of(facts),
                    image_path: image_path.clone(),
                },
            }
        },
    }
}

/// Decides what is to be found out of a server next, or what came of it.
pub fn native_query_with_profile(facts: &ServerFacts, expected: &Option<String>) -> (step:
    IdentityStep)
    ensures
        step.deep_view() == identity_step(*facts, expected.deep_view()),
{
    if !facts.privileged {
        return IdentityStep::EnablePrivilege;
    }
    let process_id: u32 = match facts.process_id {
        None => {
            return IdentityStep::ServerProcess;
        },
        Some(process_id) => process_id,
    };
    if process_id == 0 {
        return reject(ServiceIdentityError::ServiceStarting);
    }
    match facts.exit_code {
        None => {
            return IdentityStep::ExitCode { process_id };
        },
        Some(code) => if code != STILL_ACTIVE {
            return reject(ServiceIdentityError::ServiceRestarting);
        },
    }
    if facts.local_system.is_none() {
        return IdentityStep::Account;
    }
    if expected.is_some() && facts.current_user.is_none() {
        return IdentityStep::CurrentUser;
    }
    if !is_trusted(facts, expected) {
        return reject(
            ServiceIdentityError::UnexpectedIdentity { observed_account: account_of(facts) },
        );
    }
    judge_program(facts, process_id, expected)
}

/// A query that failed ends authentication.
pub fn identity_failure(failure: Failure) -> (error: ServiceIdentityError)
    ensures
        error.deep_view() == (IdentityErrorView::IdentityQueryFailed {
            source: failure.deep_view(),
        }),
{
    ServiceIdentityError::IdentityQueryFailed { source: failure }
}

/// Authentication of the installed service.
#[derive(Clone, Copy, Debug, PartialEq, Eq, Structural)]
pub struct NativeServerIdentityQuery;

impl NativeServerIdentityQuery {
    /// Decides what is to be found out next, or what came of it.
    pub fn query(&self, facts: &ServerFacts) -> (step: IdentityStep)
        ensures
            step.deep_view() == identity_step(*facts, None),
    {
        native_query_with_profile(facts, &None)
    }
}

/// What is accepted besides the installed service.
#[derive(Clone, Debug, PartialEq, Eq)]
pub struct SameAccountPolicy {
    /// The program that is expected in place of the registered one.
    pub expected_executable: Option<String>,
}

impl Default for SameAccountPolicy {
    fn default() -> (policy: Self)
        ensures
            policy.expected_executable is None,
    {
        SameAccountPolicy { expected_executable: None }
    }
}

/// Authentication that accepts a server under the account of the caller.
#[derive(Clone, Debug, PartialEq, Eq)]
pub struct SameAccountServerIdentityQuery {
    pub policy: SameAccountPolicy,
}

impl SameAccountServerIdentityQuery {
    /// Decides what is to be found out next, or what came of it.
    pub fn query(&self, facts: &ServerFacts) -> (step: IdentityStep)
        ensures
            step.deep_view() == identity_step(
                *facts,
                self.policy.expected_executable.deep_view(),
            ),
    {
        native_query_with_profile(facts, &self.policy.expected_executable)
    }
}

/// A server is accepted only if its process was alive at the beginning and at the end, runs the
/// program that is expected, and runs under an account that is trusted; without a policy of its
/// own that account is the one of the system.
pub proof fn accepted_servers_are_genuine(facts: ServerFacts, expected: Option<Seq<char>>)
    requires
        identity_step(facts, expected) is Accepted,
    ensures
        facts.process_id is Some,
        facts.process_id->0 != 0,
        facts.exit_code == Some(STILL_ACTIVE),
        facts.final_exit_code == Some(STILL_ACTIVE),
        trusted_account(facts, expected),
        expected is None ==> facts.local_system == Some(true),
        same_but_for_case(facts.canonical_image->0@, facts.canonical_expected->0@),
        identity_step(facts, expected)->identity.process_id == facts.process_id->0,
        identity_step(facts, expected)->identity.image_path == facts.image_path->0@,
{
}

/// A server under another account is rejected before anything is asked about its program.
pub proof fn foreign_accounts_are_rejected(facts: ServerFacts)
    requires
        facts.local_system == Some(false),
    ensures
        match identity_step(facts, None) {
            IdentityStepView::ImagePath => false,
            IdentityStepView::RegisteredPath => false,
            IdentityStepView::CanonicalImage { .. } => false,
            IdentityStepView::CanonicalExpected { .. } => false,
            IdentityStepView::FinalExitCode => false,
            IdentityStepView::Accepted { .. } => false,
            _ => true,
        },
{
}

/// Whether everything is known of a server that speaks for it.
pub open spec fn genuine(facts: ServerFacts, expected: Option<Seq<char>>) -> bool {
    &&& facts.privileged
    &&& facts.process_id is Some
    &&& facts.process_id->0 != 0
    &&& facts.exit_code == Some(259u32)
    &&& facts.final_exit_code == Some(259u32)
    &&& facts.local_system is Some
    &&& facts.image_path is Some
    &&& facts.canonical_image is Some
    &&& facts.canonical_expected is Some
    &&& same_but_for_case(facts.canonical_image->0@, facts.canonical_expected->0@)
    &&& expected is None ==> facts.local_system == Some(true) && facts.registered_path is Some
    &&& expected is Some ==> {
        &&& facts.current_user is Some
        &&& facts.local_system == Some(true) || facts.account is Some
            && facts.account->0@ == facts.current_user->0@ || facts.account is None
            && facts.current_user->0@ == "unknown"@
    }
}

/// A server is accepted exactly if everything is known that speaks for it, and is then told of as
/// observed: its process, its account and its program.
pub proof fn genuine_servers_are_accepted(facts: ServerFacts, expected: Option<Seq<char>>)
    ensures
        identity_step(facts, expected) is Accepted <==> genuine(facts, expected),
        identity_step(facts, expected) is Accepted ==> {
            let identity = identity_step(facts, expected)->identity;
            &&& Some(identity.process_id) == facts.process_id
            &&& identity.image_path == facts.image_path->0@
            &&& facts.account is Some ==> identity.account_sid == facts.account->0@
        },
{
    assert(facts.local_system is Some ==> facts.local_system == Some(true) || facts.local_system
        == Some(false));
}

/// A server is refused for what is wrong with it: it is starting while it has no process, restarting
/// once the process has ended, and not what is expected if the account or the program is another.
pub proof fn servers_are_refused_for_a_reason(facts: ServerFacts, expected: Option<Seq<char>>)
    ensures
        facts.privileged && facts.process_id == Some(0u32) ==> identity_step(facts, expected) == (
        IdentityStepView::Rejected { error: IdentityErrorView::ServiceStarting }),
        facts.privileged && facts.process_id is Some && facts.process_id->0 != 0
            && facts.exit_code is Some && facts.exit_code->0 != 259 ==> identity_step(
            facts,
            expected,
        ) == (IdentityStepView::Rejected { error: IdentityErrorView::ServiceRestarting }),
        match identity_step(facts, expected) {
            IdentityStepView::Rejected { error } => match error {
                IdentityErrorView::ServiceStarting => facts.process_id == Some(0u32),
                IdentityErrorView::ServiceRestarting => facts.exit_code is Some
                    && facts.exit_code->0 != 259 || facts.final_exit_code is Some
                    && facts.final_exit_code->0 != 259,
                IdentityErrorView::UnexpectedIdentity { observed_account } => facts.local_system
                    == Some(false) && (facts.account is Some ==> observed_account
                    == facts.account->0@),
                IdentityErrorView::UnexpectedExecutable { observed_path } => {
                    &&& facts.image_path is Some
                    &&& observed_path == facts.image_path->0@
                    &&& !same_but_for_case(
                        facts.canonical_image->0@,
                        facts.canonical_expected->0@,
                    )
                },
                _ => false,
            },
            _ => true,
        },
{
    assert(facts.local_system is Some ==> facts.local_system == Some(true) || facts.local_system
        == Some(false));
}

/// What is asked about a server is asked in an order in which each answer is needed: of the process
/// that was found, of the program that was observed, and of the program that is expected, which is
/// the given one or else the registered one.
pub proof fn questions_build_on_answers(facts: ServerFacts, expected: Option<Seq<char>>)
    ensures
        !facts.privileged ==> identity_step(facts, expected) is EnablePrivilege,
        match identity_step(facts, expected) {
            IdentityStepView::ExitCode { process_id } => Some(process_id) == facts.process_id
                && process_id != 0 && facts.exit_code is None,
            IdentityStepView::ServerProcess => facts.process_id is None,
            IdentityStepView::Account => facts.local_system is None && facts.exit_code == Some(
                259u32,
            ),
            IdentityStepView::CurrentUser => facts.current_user is None && expected is Some,
            IdentityStepView::ImagePath => facts.image_path is None && trusted_account(
                facts,
                expected,
            ),
            IdentityStepView::RegisteredPath => facts.registered_path is None && expected is None,
            IdentityStepView::CanonicalImage { path } => facts.image_path is Some && path
                == facts.image_path->0@ && facts.canonical_image is None,
            IdentityStepView::CanonicalExpected { path } => facts.canonical_expected is None && (
            expected is Some ==> path == expected->0) && (expected is None
                ==> facts.registered_path is Some && path == facts.registered_path->0@),
            IdentityStepView::FinalExitCode => facts.final_exit_code is None,
            _ => true,
        },
{
}

/// Two paths are the same but for case exactly if they are the same once all ASCII letters are small.
pub proof fn case_is_that_of_ascii_letters(left: Seq<char>, right: Seq<char>, index: int)
    ensures
        left.len() != right.len() ==> !same_but_for_case(left, right),
        same_but_for_case(left, right) && 0 <= index < left.len() ==> left[index] == right[index]
            || text::ascii_lower(left[index]) == right[index] || text::ascii_lower(right[index])
            == left[index],
        left.len() == right.len() && 0 <= index < left.len() && text::ascii_lower(left[index])
            != text::ascii_lower(right[index]) ==> !same_but_for_case(left, right),
{
}

/// A path is taken exactly if no component ends in a dot or a space, it is no reparse point, and its
/// normal form has a length that fits.
pub proof fn taken_paths_are_canonical(
    components: Seq<Seq<char>>,
    attributes: Option<u32>,
    length: Option<u32>,
)
    ensures
        ({
            let loose = exists|i: int|
                0 <= i < components.len() && (#[trigger] components[i]).len() > 0 && (
                components[i].last() == '.' || components[i].last() == ' ');
            let step = canonical_step(components, attributes, length);
            &&& step is Take <==> {
                &&& !loose
                &&& attributes is Some
                &&& !is_reparse_point(attributes->0)
                &&& length is Some
                &&& 0 < length->0
                &&& length->0 <= MAX_CANONICAL_LENGTH
            }
            &&& step is Take ==> step->length == length->0
            &&& loose ==> step == (CanonicalStep::Rejected {
                error: CanonicalError::LooseComponent,
            })
            &&& !loose && attributes is Some && is_reparse_point(attributes->0) ==> step == (
            CanonicalStep::Rejected { error: CanonicalError::ReparsePoint })
        }),
{
    if exists|i: int|
        0 <= i < components.len() && (#[trigger] components[i]).len() > 0 && (components[i].last()
            == '.' || components[i].last() == ' ') {
        let i = choose|i: int|
            0 <= i < components.len() && (#[trigger] components[i]).len() > 0 && (
            components[i].last() == '.' || components[i].last() == ' ');
        assert(ends_loosely(components[i]));
    }
}

/// Without quotation marks the executable of a command line is its first word.
pub proof fn unquoted_executables_are_the_first_word(word: Seq<char>, rest: Seq<char>)
    requires
        word.len() > 0,
        word[0] != '"',
        forall|i: int| 0 <= i < word.len() ==> !text::whitespace(#[trigger] word[i]),
        rest.len() > 0 ==> text::whitespace(rest[0]),
    ensures
        executable_of(word + rest) == Ok::<Seq<char>, CommandLineError>(word),
        executable_of(seq![' '] + word + rest) == Ok::<Seq<char>, CommandLineError>(word),
{
    let whole = word + rest;
    lemma_first_word(word, rest);
    assert(!text::whitespace(whole[0]));
    assert(text::leading_whitespace(whole) == 0);
    assert(text::trim_start(whole) =~= whole);
    assert(whole.take(word.len() as int) =~= word);
    let led = seq![' '] + word + rest;
    assert(led.drop_first() =~= whole);
    assert(text::leading_whitespace(led) == 1);
    assert(text::trim_start(led) =~= whole);
}

proof fn lemma_first_word(word: Seq<char>, rest: Seq<char>)
    requires
        forall|i: int| 0 <= i < word.len() ==> !text::whitespace(#[trigger] word[i]),
        rest.len() > 0 ==> text::whitespace(rest[0]),
    ensures
        text::leading_word(word + rest) == word.len(),
    decreases word.len(),
{
    let whole = word + rest;
    if word.len() > 0 {
        let shorter = word.drop_first();
        assert forall|i: int| 0 <= i < shorter.len() implies !text::whitespace(
            #[trigger] shorter[i],
        ) by {
            assert(shorter[i] == word[i + 1]);
        }
        lemma_first_word(shorter, rest);
        assert(whole.drop_first() =~= shorter + rest);
        assert(whole[0] == word[0]);
    } else {
        assert(whole =~= rest);
    }
}

/// A command line without anything in it, or with an empty executable, names none; one whose
/// quotation does not end is not read.
pub proof fn command_lines_name_an_executable(command_line: Seq<char>)
    ensures
        executable_of(command_line) is Ok ==> executable_of(command_line)->Ok_0.len() > 0,
        executable_of(seq!['"', '"']) == Err::<Seq<char>, CommandLineError>(
            CommandLineError::NoExecutable,
        ),
        executable_of(seq!['"']) == Err::<Seq<char>, CommandLineError>(
            CommandLineError::UnterminatedQuote,
        ),
        executable_of(Seq::empty()) == Err::<Seq<char>, CommandLineError>(
            CommandLineError::NoExecutable,
        ),
{
    let rest = text::trim_start(command_line);
    text::trimming_takes_white_space_off_the_ends(command_line);
    text::lemma_word_progress(command_line);
    reveal_with_fuel(quotation, 3);
    let empty = seq!['"', '"'];
    assert(text::trim_start(empty) =~= empty);
    assert(empty.skip(1) =~= seq!['"']);
    let open = seq!['"'];
    assert(text::trim_start(open) =~= open);
    assert(open.skip(1) =~= Seq::<char>::empty());
    assert(text::trim_start(Seq::<char>::empty()) =~= Seq::<char>::empty());
}

} // verus!
