//! The command line.
use crate::error::{DcError, DcErrorView};
use crate::text::{
    decimal, joined, law_numbers_are_told_and_read, owned, parse_number, parsed_number, same_text,
};
use vstd::prelude::*;
use vstd::string::StringExecFns;

verus! {

/// What the program is asked to do.
#[derive(Debug)]
pub enum Command {
    /// Show which program this is.
    Banner,
    /// Encode and decode synthetic frames.
    Loopback { frame_count: u64 },
    /// Capture frames of a display and store the last one.
    CaptureTest { frame_count: u64, output_index: u32, output_path: String },
    /// Show synthetic frames in a window.
    WindowTest { duration_seconds: u64 },
    /// Show a display in a window.
    Preview { output_index: u32, duration_seconds: u64 },
    /// Wait for a viewer.
    Host { address: String, password: String },
    /// Connect to a host.
    Connect { address: String, password: String, fingerprint: Option<String> },
}

/// What the program is asked to do.
pub enum CommandView {
    Banner,
    Loopback { frame_count: u64 },
    CaptureTest { frame_count: u64, output_index: u32, output_path: Seq<char> },
    WindowTest { duration_seconds: u64 },
    Preview { output_index: u32, duration_seconds: u64 },
    Host { address: Seq<char>, password: Seq<char> },
    Connect { address: Seq<char>, password: Seq<char>, fingerprint: Option<Seq<char>> },
}

impl View for Command {
    type V = CommandView;

    open spec fn view(&self) -> CommandView {
        match *self {
            Command::Banner => CommandView::Banner,
            Command::Loopback { frame_count } => CommandView::Loopback { frame_count },
            Command::CaptureTest { frame_count, output_index, output_path } =>
                CommandView::CaptureTest { frame_count, output_index, output_path: output_path@ },
            Command::WindowTest { duration_seconds } => CommandView::WindowTest {
                duration_seconds,
            },
            Command::Preview { output_index, duration_seconds } => CommandView::Preview {
                output_index,
                duration_seconds,
            },
            Command::Host { address, password } => CommandView::Host {
                address: address@,
                password: password@,
            },
            Command::Connect { address, password, fingerprint } => CommandView::Connect {
                address: address@,
                password: password@,
                fingerprint: match fingerprint {
                    Some(text) => Some(text@),
                    None => None,
                },
            },
        }
    }
}

/// A command with the options before it.
#[derive(Debug)]
pub struct Invocation {
    pub ultra_low: bool,
    pub use_x264: bool,
    pub show_dirty_regions: bool,
    pub command: Command,
}

/// The texts of arguments.
pub open spec fn texts(arguments: Seq<String>) -> Seq<Seq<char>> {
    arguments.map_values(|argument: String| argument@)
}

/// Whether an argument is an option that comes before a command.
pub open spec fn is_option(argument: Seq<char>) -> bool {
    argument == "--ultra-low"@ || argument == "--x264"@ || argument == "--show-dirty-regions"@
}

/// The number of options before the command.
pub open spec fn option_count(arguments: Seq<Seq<char>>) -> nat
    decreases arguments.len(),
{
    if arguments.len() == 0 || !is_option(arguments[0]) {
        0
    } else {
        1 + option_count(arguments.drop_first())
    }
}

/// Whether an option stands before the command.
pub open spec fn has_option(arguments: Seq<Seq<char>>, option: Seq<char>) -> bool {
    exists|i: int| 0 <= i < option_count(arguments) && #[trigger] arguments[i] == option
}

/// The options in front of the command: the least bandwidth, the x264 encoder, the outlines of what
/// was updated.
pub open spec fn switches(arguments: Seq<Seq<char>>) -> (bool, bool, bool) {
    (
        has_option(arguments, "--ultra-low"@),
        has_option(arguments, "--x264"@),
        has_option(arguments, "--show-dirty-regions"@),
    )
}

/// How the program is called.
pub open spec fn usage_text() -> Seq<char> {
    "usage: direct-computing [--ultra-low] [--x264] [--show-dirty-regions] [--host [addr] <password> | --connect <addr> <password> [cert-sha256] | --loopback [frame-count] | --window-test [duration-seconds] | --capture-test [frame-count] [display-index] [output.bmp] | --preview [display-index] [duration-seconds]]"@
}

/// How the program is called.
pub fn usage() -> (text: &'static str)
    ensures
        text@ == usage_text(),
{
    "usage: direct-computing [--ultra-low] [--x264] [--show-dirty-regions] [--host [addr] <password> | --connect <addr> <password> [cert-sha256] | --loopback [frame-count] | --window-test [duration-seconds] | --capture-test [frame-count] [display-index] [output.bmp] | --preview [display-index] [duration-seconds]]"
}

/// The error for arguments that are left over.
pub open spec fn usage_error() -> DcErrorView {
    DcErrorView::InvalidInput(usage_text())
}

/// The number at a position of the arguments, the default if there is none, or why it is none.
pub open spec fn number_at(
    arguments: Seq<Seq<char>>,
    at: int,
    label: Seq<char>,
    limit: nat,
    default: nat,
) -> Result<nat, DcErrorView> {
    if at >= arguments.len() {
        Ok(default)
    } else {
        match parsed_number(arguments[at], limit) {
            Some(number) => Ok(number),
            None => Err(
                DcErrorView::InvalidInput("invalid "@ + label + ": "@ + arguments[at]),
            ),
        }
    }
}

pub open spec fn loopback(rest: Seq<Seq<char>>) -> Result<CommandView, DcErrorView> {
    match number_at(rest, 0, "loopback frame count"@, u64::MAX as nat, 30) {
        Err(error) => Err(error),
        Ok(count) => if rest.len() > 1 {
            Err(usage_error())
        } else {
            Ok(CommandView::Loopback { frame_count: count as u64 })
        },
    }
}

pub open spec fn capture_test(rest: Seq<Seq<char>>) -> Result<CommandView, DcErrorView> {
    match number_at(rest, 0, "capture frame count"@, u64::MAX as nat, 30) {
        Err(error) => Err(error),
        Ok(count) => match number_at(rest, 1, "display index"@, u32::MAX as nat, 0) {
            Err(error) => Err(error),
            Ok(index) => if rest.len() > 3 {
                Err(usage_error())
            } else if count == 0 {
                Err(DcErrorView::InvalidInput("capture frame count must be non-zero"@))
            } else {
                Ok(
                    CommandView::CaptureTest {
                        frame_count: count as u64,
                        output_index: index as u32,
                        output_path: if rest.len() > 2 {
                            rest[2]
                        } else {
                            "dc-capture-test.bmp"@
                        },
                    },
                )
            },
        },
    }
}

pub open spec fn window_test(rest: Seq<Seq<char>>) -> Result<CommandView, DcErrorView> {
    match number_at(rest, 0, "duration"@, u64::MAX as nat, 10) {
        Err(error) => Err(error),
        Ok(duration) => if rest.len() > 1 {
            Err(usage_error())
        } else {
            Ok(CommandView::WindowTest { duration_seconds: duration as u64 })
        },
    }
}

pub open spec fn preview(rest: Seq<Seq<char>>) -> Result<CommandView, DcErrorView> {
    match number_at(rest, 0, "display index"@, u32::MAX as nat, 0) {
        Err(error) => Err(error),
        Ok(index) => match number_at(rest, 1, "duration"@, u64::MAX as nat, 0) {
            Err(error) => Err(error),
            Ok(duration) => if rest.len() > 2 {
                Err(usage_error())
            } else {
                Ok(
                    CommandView::Preview {
                        output_index: index as u32,
                        duration_seconds: duration as u64,
                    },
                )
            },
        },
    }
}

/// With one argument that is the password, with two the address comes first.
pub open spec fn host(rest: Seq<Seq<char>>) -> Result<CommandView, DcErrorView> {
    if rest.len() == 0 {
        Err(DcErrorView::InvalidInput("--host requires a password"@))
    } else if rest.len() > 2 {
        Err(usage_error())
    } else if rest.len() == 2 {
        Ok(CommandView::Host { address: rest[0], password: rest[1] })
    } else {
        Ok(CommandView::Host { address: "0.0.0.0:22100"@, password: rest[0] })
    }
}

pub open spec fn connect(rest: Seq<Seq<char>>) -> Result<CommandView, DcErrorView> {
    if rest.len() == 0 {
        Err(DcErrorView::InvalidInput("--connect requires an address"@))
    } else if rest.len() == 1 {
        Err(DcErrorView::InvalidInput("--connect requires a password"@))
    } else if rest.len() > 3 {
        Err(usage_error())
    } else {
        Ok(
            CommandView::Connect {
                address: rest[0],
                password: rest[1],
                fingerprint: if rest.len() > 2 {
                    Some(rest[2])
                } else {
                    None
                },
            },
        )
    }
}

/// The command that arguments ask for, or why they ask for none.
pub open spec fn command_of(arguments: Seq<Seq<char>>) -> Result<CommandView, DcErrorView> {
    if arguments.len() == 0 {
        Ok(CommandView::Banner)
    } else {
        let rest = arguments.drop_first();
        let name = arguments[0];
        if name == "--loopback"@ {
            loopback(rest)
        } else if name == "--capture-test"@ {
            capture_test(rest)
        } else if name == "--window-test"@ {
            window_test(rest)
        } else if name == "--preview"@ {
            preview(rest)
        } else if name == "--host"@ {
            host(rest)
        } else if name == "--connect"@ {
            connect(rest)
        } else {
            Err(
                DcErrorView::InvalidInput(
                    "unknown argument "@ + name + "; "@ + usage_text(),
                ),
            )
        }
    }
}

/// Whether a result is the given one.
pub open spec fn yields(
    result: Result<Command, DcError>,
    expected: Result<CommandView, DcErrorView>,
) -> bool {
    match result {
        Ok(command) => expected == Ok::<CommandView, DcErrorView>(command@),
        Err(error) => expected == Err::<CommandView, DcErrorView>(error@),
    }
}

/// The argument at a position is a number, or there is none and the default counts.
fn parse_optional(arguments: &[String], at: usize, label: &str, limit: u64, default: u64) -> (result:
    Result<u64, DcError>)
    requires
        default <= limit,
    ensures
        match result {
            Ok(number) => number <= limit && number_at(
                texts(arguments@),
                at as int,
                label@,
                limit as nat,
                default as nat,
            ) == Ok::<nat, DcErrorView>(number as nat),
            Err(error) => number_at(
                texts(arguments@),
                at as int,
                label@,
                limit as nat,
                default as nat,
            ) == Err::<nat, DcErrorView>(error@),
        },
{
    if at >= arguments.len() {
        return Ok(default);
    }
    match parse_number(arguments[at].as_str(), limit) {
        Some(number) => Ok(number),
        None => {
            let mut message = joined("invalid ", label);
            message.append(": ");
            message.append(arguments[at].as_str());
            Err(DcError::InvalidInput(message))
        },
    }
}

fn parse_loopback(rest: &[String]) -> (result: Result<Command, DcError>)
    ensures
        yields(result, loopback(texts(rest@))),
{
    let frame_count: u64 = parse_optional(rest, 0, "loopback frame count", u64::MAX, 30)?;
    if rest.len() > 1 {
        return Err(DcError::invalid_input(usage()));
    }
    Ok(Command::Loopback { frame_count })
}

fn parse_capture_test(rest: &[String]) -> (result: Result<Command, DcError>)
    ensures
        yields(result, capture_test(texts(rest@))),
{
    let frame_count: u64 = parse_optional(rest, 0, "capture frame count", u64::MAX, 30)?;
    let output_index: u64 = parse_optional(rest, 1, "display index", 0xffff_ffff, 0)?;
    if rest.len() > 3 {
        return Err(DcError::invalid_input(usage()));
    }
    if frame_count == 0 {
        return Err(DcError::invalid_input("capture frame count must be non-zero"));
    }
    let output_path = if rest.len() > 2 {
        owned(rest[2].as_str())
    } else {
        owned("dc-capture-test.bmp")
    };
    Ok(Command::CaptureTest { frame_count, output_index: output_index as u32, output_path })
}

fn parse_window_test(rest: &[String]) -> (result: Result<Command, DcError>)
    ensures
        yields(result, window_test(texts(rest@))),
{
    let duration_seconds: u64 = parse_optional(rest, 0, "duration", u64::MAX, 10)?;
    if rest.len() > 1 {
        return Err(DcError::invalid_input(usage()));
    }
    Ok(Command::WindowTest { duration_seconds })
}

fn parse_preview(rest: &[String]) -> (result: Result<Command, DcError>)
    ensures
        yields(result, preview(texts(rest@))),
{
    let output_index: u64 = parse_optional(rest, 0, "display index", 0xffff_ffff, 0)?;
    let duration_seconds: u64 = parse_optional(rest, 1, "duration", u64::MAX, 0)?;
    if rest.len() > 2 {
        return Err(DcError::invalid_input(usage()));
    }
    Ok(Command::Preview { output_index: output_index as u32, duration_seconds })
}

fn parse_host(rest: &[String]) -> (result: Result<Command, DcError>)
    ensures
        yields(result, host(texts(rest@))),
{
    if rest.len() == 0 {
        return Err(DcError::invalid_input("--host requires a password"));
    }
    if rest.len() > 2 {
        return Err(DcError::invalid_input(usage()));
    }
    if rest.len() == 2 {
        return Ok(
            Command::Host {
                address: owned(rest[0].as_str()),
                password: owned(rest[1].as_str()),
            },
        );
    }
    Ok(Command::Host { address: owned("0.0.0.0:22100"), password: owned(rest[0].as_str()) })
}

fn parse_connect(rest: &[String]) -> (result: Result<Command, DcError>)
    ensures
        yields(result, connect(texts(rest@))),
{
    if rest.len() == 0 {
        return Err(DcError::invalid_input("--connect requires an address"));
    }
    if rest.len() == 1 {
        return Err(DcError::invalid_input("--connect requires a password"));
    }
    if rest.len() > 3 {
        return Err(DcError::invalid_input(usage()));
    }
    let fingerprint = if rest.len() > 2 {
        Some(owned(rest[2].as_str()))
    } else {
        None
    };
    Ok(
        Command::Connect {
            address: owned(rest[0].as_str()),
            password: owned(rest[1].as_str()),
            fingerprint,
        },
    )
}

fn parse_command(arguments: &[String]) -> (result: Result<Command, DcError>)
    ensures
        yields(result, command_of(texts(arguments@))),
{
    if arguments.len() == 0 {
        return Ok(Command::Banner);
    }
    let rest = vstd::slice::slice_subrange(arguments, 1, arguments.len());
    assert(texts(rest@) =~= texts(arguments@).drop_first());
    let name = arguments[0].as_str();
    if same_text(name, "--loopback") {
        parse_loopback(rest)
    } else if same_text(name, "--capture-test") {
        parse_capture_test(rest)
    } else if same_text(name, "--window-test") {
        parse_window_test(rest)
    } else if same_text(name, "--preview") {
        parse_preview(rest)
    } else if same_text(name, "--host") {
        parse_host(rest)
    } else if same_text(name, "--connect") {
        parse_connect(rest)
    } else {
        let mut message = joined("unknown argument ", name);
        message.append("; ");
        message.append(usage());
        Err(DcError::InvalidInput(message))
    }
}

proof fn lemma_option_count(arguments: Seq<Seq<char>>, count: int)
    requires
        0 <= count <= arguments.len(),
        forall|i: int| 0 <= i < count ==> is_option(#[trigger] arguments[i]),
        count < arguments.len() ==> !is_option(arguments[count]),
    ensures
        option_count(arguments) == count,
    decreases arguments.len(),
{
    if count > 0 {
        assert(is_option(arguments[0]));
        assert forall|i: int| 0 <= i < count - 1 implies is_option(
            #[trigger] arguments.drop_first()[i],
        ) by {
            assert(arguments.drop_first()[i] == arguments[i + 1]);
        }
        lemma_option_count(arguments.drop_first(), count - 1);
    }
}

/// Reads the options and the command that the program is called with.
pub fn parse_arguments(arguments: &[String]) -> (result: Result<Invocation, DcError>)
    ensures
        ({
            let all = texts(arguments@);
            let expected = command_of(all.skip(option_count(all) as int));
            match result {
                Ok(invocation) => {
                    &&& expected == Ok::<CommandView, DcErrorView>(invocation.command@)
                    &&& invocation.ultra_low == has_option(all, "--ultra-low"@)
                    &&& invocation.use_x264 == has_option(all, "--x264"@)
                    &&& invocation.show_dirty_regions == has_option(
                        all,
                        "--show-dirty-regions"@,
                    )
                    &&& (
                        invocation.ultra_low,
                        invocation.use_x264,
                        invocation.show_dirty_regions,
                    ) == switches(all)
                },
                Err(error) => expected == Err::<CommandView, DcErrorView>(error@),
            }
        }),
{
    let ghost all = texts(arguments@);
    let mut ultra_low = false;
    let mut use_x264 = false;
    let mut show_dirty_regions = false;
    let mut at: usize = 0;
    proof {
        lemma_distinct_options();
    }
    while at < arguments.len()
        invariant_except_break
            at <= arguments@.len(),
        invariant
            at <= arguments@.len(),
            all == texts(arguments@),
            "--ultra-low"@ != "--x264"@,
            "--ultra-low"@ != "--show-dirty-regions"@,
            "--x264"@ != "--show-dirty-regions"@,
            forall|i: int| 0 <= i < at ==> is_option(#[trigger] all[i]),
            ultra_low == exists|i: int| 0 <= i < at && #[trigger] all[i] == "--ultra-low"@,
            use_x264 == exists|i: int| 0 <= i < at && #[trigger] all[i] == "--x264"@,
            show_dirty_regions == exists|i: int|
                0 <= i < at && #[trigger] all[i] == "--show-dirty-regions"@,
        ensures
            at < arguments@.len() ==> !is_option(all[at as int]),
        decreases arguments@.len() - at,
    {
        let option = arguments[at].as_str();
        assert(all[at as int] == option@);
        if same_text(option, "--ultra-low") {
            ultra_low = true;
        } else if same_text(option, "--x264") {
            use_x264 = true;
        } else if same_text(option, "--show-dirty-regions") {
            show_dirty_regions = true;
        } else {
            break ;
        }
        at = at + 1;
    }
    proof {
        lemma_option_count(all, at as int);
    }
    let rest = vstd::slice::slice_subrange(arguments, at, arguments.len());
    assert(texts(rest@) =~= all.skip(at as int));
    let command = parse_command(rest)?;
    Ok(Invocation { ultra_low, use_x264, show_dirty_regions, command })
}

proof fn lemma_distinct_options()
    ensures
        "--ultra-low"@ != "--x264"@,
        "--ultra-low"@ != "--show-dirty-regions"@,
        "--x264"@ != "--show-dirty-regions"@,
{
    reveal_strlit("--ultra-low");
    reveal_strlit("--x264");
    reveal_strlit("--show-dirty-regions");
    assert("--ultra-low"@.len() == 11);
    assert("--x264"@.len() == 6);
    assert("--show-dirty-regions"@.len() == 20);
}

proof fn lemma_words_differ()
    ensures
        "--host"@.len() == 6,
        "--preview"@.len() == 9,
        "--connect"@.len() == 9,
        "--preview"@[2] == 'p',
        "--connect"@[2] == 'c',
        "--loopback"@.len() == 10,
        "--window-test"@.len() == 13,
        "--capture-test"@.len() == 14,
        "--ultra-low"@.len() == 11,
        "--x264"@.len() == 6,
        "--x264"@[2] == 'x',
        "--host"@[2] == 'h',
        "--show-dirty-regions"@.len() == 20,
{
    reveal_strlit("--ultra-low");
    reveal_strlit("--x264");
    reveal_strlit("--show-dirty-regions");
    reveal_strlit("--host");
    reveal_strlit("--preview");
    reveal_strlit("--connect");
    reveal_strlit("--loopback");
    reveal_strlit("--window-test");
    reveal_strlit("--capture-test");
}

proof fn lemma_options_bound(arguments: Seq<Seq<char>>)
    ensures
        option_count(arguments) <= arguments.len(),
    decreases arguments.len(),
{
    if arguments.len() > 0 {
        lemma_options_bound(arguments.drop_first());
    }
}

proof fn lemma_first_option(first: Seq<char>, rest: Seq<Seq<char>>, option: Seq<char>)
    requires
        is_option(first),
    ensures
        option_count(seq![first] + rest) == 1 + option_count(rest),
        has_option(seq![first] + rest, option) <==> first == option || has_option(rest, option),
{
    let all = seq![first] + rest;
    assert(all.drop_first() =~= rest);
    lemma_options_bound(rest);
    if first == option {
        assert(all[0] == option);
    }
    if has_option(rest, option) {
        let i = choose|i: int| 0 <= i < option_count(rest) && #[trigger] rest[i] == option;
        assert(all[i + 1] == option);
    }
    if has_option(all, option) && first != option {
        let i = choose|i: int| 0 <= i < option_count(all) && #[trigger] all[i] == option;
        assert(rest[i - 1] == option);
    }
}

/// Options stand in front of the command in any order, and each switches on what it names and nothing
/// else; what follows is read as if it stood alone. Behind the command there are none.
#[verifier::spinoff_prover]
pub proof fn law_options_come_first(first: Seq<char>, rest: Seq<Seq<char>>)
    ensures
        ({
            let all = seq![first] + rest;
            let (low, x264, outlines) = switches(rest);
            &&& first == "--ultra-low"@ ==> switches(all) == (true, x264, outlines)
            &&& first == "--x264"@ ==> switches(all) == (low, true, outlines)
            &&& first == "--show-dirty-regions"@ ==> switches(all) == (low, x264, true)
            &&& first == "--ultra-low"@ || first == "--x264"@ || first == "--show-dirty-regions"@
                ==> all.skip(option_count(all) as int) == rest.skip(option_count(rest) as int)
            &&& first != "--ultra-low"@ && first != "--x264"@ && first != "--show-dirty-regions"@
                ==> switches(all) == (false, false, false) && option_count(all) == 0
        }),
        switches(Seq::empty()) == (false, false, false),
{
    lemma_words_differ();
    lemma_options_bound(rest);
    let all = seq![first] + rest;
    if is_option(first) {
        lemma_first_option(first, rest, "--ultra-low"@);
        lemma_first_option(first, rest, "--x264"@);
        lemma_first_option(first, rest, "--show-dirty-regions"@);
        assert(all.skip(option_count(all) as int) =~= rest.skip(option_count(rest) as int));
    } else {
        assert(all[0] == first);
        assert(option_count(all) == 0);
    }
}

/// A host is told its password, behind its address where that is not the usual one, on every
/// interface at port 22100; a viewer is told the address, the password and, if it knows it, the
/// fingerprint.
#[verifier::spinoff_prover]
pub proof fn law_sessions_are_told_address_and_password(
    address: Seq<char>,
    password: Seq<char>,
    fingerprint: Seq<char>,
    more: Seq<char>,
)
    ensures
        command_of(seq!["--host"@, password]) == Ok::<CommandView, DcErrorView>(
            CommandView::Host { address: "0.0.0.0:22100"@, password },
        ),
        command_of(seq!["--host"@, address, password]) == Ok::<CommandView, DcErrorView>(
            CommandView::Host { address, password },
        ),
        command_of(seq!["--host"@]) is Err,
        command_of(seq!["--host"@, address, password, more]) is Err,
        command_of(seq!["--connect"@, address, password]) == Ok::<CommandView, DcErrorView>(
            CommandView::Connect { address, password, fingerprint: None },
        ),
        command_of(seq!["--connect"@, address, password, fingerprint]) == Ok::<
            CommandView,
            DcErrorView,
        >(CommandView::Connect { address, password, fingerprint: Some(fingerprint) }),
        command_of(seq!["--connect"@]) is Err,
        command_of(seq!["--connect"@, address]) is Err,
        command_of(seq!["--connect"@, address, password, fingerprint, more]) is Err,
        command_of(Seq::empty()) == Ok::<CommandView, DcErrorView>(CommandView::Banner),
{
    lemma_words_differ();
    let host_only = seq!["--host"@];
    assert(host_only.drop_first() =~= Seq::empty());
    assert(seq!["--host"@, password].drop_first() =~= seq![password]);
    assert(seq!["--host"@, address, password].drop_first() =~= seq![address, password]);
    assert(seq!["--host"@, address, password, more].drop_first() =~= seq![address, password, more]);
    assert(seq!["--connect"@].drop_first() =~= Seq::empty());
    assert(seq!["--connect"@, address].drop_first() =~= seq![address]);
    assert(seq!["--connect"@, address, password].drop_first() =~= seq![address, password]);
    assert(seq!["--connect"@, address, password, fingerprint].drop_first() =~= seq![
        address,
        password,
        fingerprint,
    ]);
    assert(seq!["--connect"@, address, password, fingerprint, more].drop_first() =~= seq![
        address,
        password,
        fingerprint,
        more,
    ]);
}

/// The other commands are told numbers, each of which may be left out from the last one on: thirty
/// frames, ten seconds, the first display, without an end. What is no number, or is one too many, is
/// refused.
#[verifier::spinoff_prover]
pub proof fn law_commands_are_told_numbers(
    count: u64,
    index: u32,
    seconds: u64,
    path: Seq<char>,
    wrong: Seq<char>,
    more: Seq<char>,
)
    requires
        count > 0,
        parsed_number(wrong, u64::MAX as nat) is None,
    ensures
        command_of(seq!["--loopback"@]) == Ok::<CommandView, DcErrorView>(
            CommandView::Loopback { frame_count: 30 },
        ),
        command_of(seq!["--loopback"@, decimal(count as nat)]) == Ok::<CommandView, DcErrorView>(
            CommandView::Loopback { frame_count: count },
        ),
        command_of(seq!["--loopback"@, wrong]) is Err,
        command_of(seq!["--loopback"@, decimal(count as nat), more]) is Err,
        command_of(seq!["--window-test"@]) == Ok::<CommandView, DcErrorView>(
            CommandView::WindowTest { duration_seconds: 10 },
        ),
        command_of(seq!["--window-test"@, decimal(seconds as nat)]) == Ok::<
            CommandView,
            DcErrorView,
        >(CommandView::WindowTest { duration_seconds: seconds }),
        command_of(seq!["--preview"@]) == Ok::<CommandView, DcErrorView>(
            CommandView::Preview { output_index: 0, duration_seconds: 0 },
        ),
        command_of(seq!["--preview"@, decimal(index as nat)]) == Ok::<CommandView, DcErrorView>(
            CommandView::Preview { output_index: index, duration_seconds: 0 },
        ),
        command_of(seq!["--preview"@, decimal(index as nat), decimal(seconds as nat)]) == Ok::<
            CommandView,
            DcErrorView,
        >(CommandView::Preview { output_index: index, duration_seconds: seconds }),
        command_of(seq!["--capture-test"@, decimal(count as nat), decimal(index as nat), path])
            == Ok::<CommandView, DcErrorView>(
            CommandView::CaptureTest { frame_count: count, output_index: index, output_path: path },
        ),
        command_of(seq!["--capture-test"@, decimal(count as nat)]) == Ok::<
            CommandView,
            DcErrorView,
        >(
            CommandView::CaptureTest {
                frame_count: count,
                output_index: 0,
                output_path: "dc-capture-test.bmp"@,
            },
        ),
        command_of(seq!["--capture-test"@, decimal(0)]) is Err,
{
    lemma_words_differ();
    law_numbers_are_told_and_read(count as nat, u64::MAX as nat, wrong);
    law_numbers_are_told_and_read(seconds as nat, u64::MAX as nat, wrong);
    law_numbers_are_told_and_read(index as nat, u32::MAX as nat, wrong);
    law_numbers_are_told_and_read(0, u64::MAX as nat, wrong);
    let frames = decimal(count as nat);
    let display = decimal(index as nat);
    let time = decimal(seconds as nat);
    assert(seq!["--loopback"@].drop_first() =~= Seq::empty());
    assert(seq!["--loopback"@, frames].drop_first() =~= seq![frames]);
    assert(seq!["--loopback"@, wrong].drop_first() =~= seq![wrong]);
    assert(seq!["--loopback"@, frames, more].drop_first() =~= seq![frames, more]);
    assert(seq!["--window-test"@].drop_first() =~= Seq::empty());
    assert(seq!["--window-test"@, time].drop_first() =~= seq![time]);
    assert(seq!["--preview"@].drop_first() =~= Seq::empty());
    assert(seq!["--preview"@, display].drop_first() =~= seq![display]);
    assert(seq!["--preview"@, display, time].drop_first() =~= seq![display, time]);
    assert(seq!["--capture-test"@, frames, display, path].drop_first() =~= seq![
        frames,
        display,
        path,
    ]);
    assert(seq!["--capture-test"@, frames].drop_first() =~= seq![frames]);
    assert(seq!["--capture-test"@, decimal(0)].drop_first() =~= seq![decimal(0)]);
}

/// A command line gives one command or one failure: the one that is expected. Each argument stands at
/// its own place.
pub proof fn law_expected_command_is_given(
    result: Result<Command, DcError>,
    expected: Result<CommandView, DcErrorView>,
    arguments: Seq<String>,
    place: int,
)
    requires
        yields(result, expected),
        0 <= place < arguments.len(),
    ensures
        expected == (match result {
            Ok(command) => Ok::<CommandView, DcErrorView>(command@),
            Err(error) => Err::<CommandView, DcErrorView>(error@),
        }),
        texts(arguments).len() == arguments.len(),
        texts(arguments)[place] == arguments[place]@,
{
}

} // verus!
