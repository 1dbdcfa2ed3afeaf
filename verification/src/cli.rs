//! The command line: which flags there are, and the values that a run was
//! given for them. The arguments themselves are parsed by `clap`.

use vstd::prelude::*;
use crate::schemas::FilterOptions;

verus! {

/// The values of all flags of one run.
#[derive(Debug, Clone, PartialEq, Eq)]
pub struct Flags {
    pub kill: bool,
    pub proto: Option<String>,
    pub ip: Option<String>,
    pub remote_port: Option<String>,
    pub port: Option<String>,
    pub program: Option<String>,
    pub pid: Option<String>,
    pub open: bool,
    pub listen: bool,
    pub exclude_ipv6: bool,
}

/// A refusal of the arguments: the text to show, and the code to leave with,
/// which is zero where the text is the help or the version that was asked for.
#[derive(Debug, Clone, PartialEq, Eq)]
pub struct CliError {
    pub exit_code: i32,
    pub message: String,
}

/// `clap::Command`, carried through as an opaque value.
#[verifier::external_type_specification]
#[verifier::external_body]
pub struct ExCommand(clap::Command);

/// `clap::ArgMatches`, carried through as an opaque value.
#[verifier::external_type_specification]
#[verifier::external_body]
pub struct ExArgMatches(clap::ArgMatches);

/// What is known of a command that the functions of this module built: its
/// name, its version, its description, and the arguments that it declares,
/// in the order of their declaration. Of each argument: its id, its long
/// name, its short name, and, where it takes a value (an option), the name
/// that the help gives to that value; a switch has none.
pub uninterp spec fn declared(c: clap::Command) -> (
    Seq<char>,
    Seq<char>,
    Seq<char>,
    Seq<(Seq<char>, Seq<char>, Option<char>, Option<Seq<char>>)>,
);

/// The switches that the matches hold, by id, each with whether it was set.
pub uninterp spec fn matched_switches(m: clap::ArgMatches) -> Map<Seq<char>, bool>;

/// The options for which the matches hold a value, by id, each with its
/// value.
pub uninterp spec fn matched_values(m: clap::ArgMatches) -> Map<Seq<char>, Seq<char>>;

/// What `clap` makes of the arguments of a run for a command so declared:
/// the switches and the option values that it matched, or the exit code and
/// the text of its refusal.
pub uninterp spec fn parse_outcome(
    command: (Seq<char>, Seq<char>, Seq<char>, Seq<(Seq<char>, Seq<char>, Option<char>, Option<Seq<char>>)>),
    args: Seq<Seq<char>>,
) -> Result<(Map<Seq<char>, bool>, Map<Seq<char>, Seq<char>>), (i32, Seq<char>)>;

/// The texts of a list of strings.
pub open spec fn texts(args: Seq<String>) -> Seq<Seq<char>> {
    Seq::new(args.len(), |i: int| args[i]@)
}

/// Whether an argument can be declared at all: its names are not empty, its
/// long name does not begin with a hyphen, and none of its names is one that
/// the generated help and version flags use.
pub open spec fn admissible(d: (Seq<char>, Seq<char>, Option<char>, Option<Seq<char>>)) -> bool {
    &&& d.0.len() > 0
    &&& d.1.len() > 0
    &&& d.1[0] != '-'
    &&& d.0 != "help"@
    &&& d.0 != "version"@
    &&& d.1 != "help"@
    &&& d.1 != "version"@
    &&& d.2 != Some('-')
    &&& d.2 != Some('h')
    &&& d.2 != Some('V')
}

/// Whether two arguments share an id, a long name or a short name.
pub open spec fn clash(
    a: (Seq<char>, Seq<char>, Option<char>, Option<Seq<char>>),
    b: (Seq<char>, Seq<char>, Option<char>, Option<Seq<char>>),
) -> bool {
    a.0 == b.0 || a.1 == b.1 || (a.2 is Some && a.2 == b.2)
}

/// Whether a list of arguments can be parsed with: each is admissible and no
/// two clash.
pub open spec fn well_declared(s: Seq<(Seq<char>, Seq<char>, Option<char>, Option<Seq<char>>)>) -> bool {
    &&& forall|i: int| 0 <= i < s.len() ==> admissible(#[trigger] s[i])
    &&& forall|i: int, j: int| 0 <= i < j < s.len() ==> !clash(#[trigger] s[i], #[trigger] s[j])
}

/// `clap::Command::new` followed by `Command::version` and `Command::about`:
/// a command with the given name, version and description that declares no
/// argument yet.
#[verifier::external_body]
fn new_command(name: &'static str, version: &'static str, about: &'static str) -> (r:
    clap::Command)
    ensures
        declared(r) == (
            name@,
            version@,
            about@,
            Seq::<(Seq<char>, Seq<char>, Option<char>, Option<Seq<char>>)>::empty(),
        ),
{
    clap::Command::new(name).version(version).about(about)
}

/// `clap::Command::arg` with an argument made by `Arg::new`, `long`, `short`
/// and the action `SetTrue`: the command declares one more argument, a
/// switch, behind those it had. `Arg::short` does not take a hyphen.
#[verifier::external_body]
fn with_switch(cmd: clap::Command, id: &'static str, long: &'static str, short: Option<char>) -> (r:
    clap::Command)
    requires
        short != Some('-'),
    ensures
        declared(r) == (
            declared(cmd).0,
            declared(cmd).1,
            declared(cmd).2,
            declared(cmd).3.push((id@, long@, short, None)),
        ),
{
    cmd.arg(clap::Arg::new(id).long(long).short(short).action(clap::ArgAction::SetTrue))
}

/// `clap::Command::arg` with an argument made by `Arg::new`, `long`, `short`,
/// `value_name` and the action `Set`: the command declares one more
/// argument, an option that takes one value, behind those it had.
/// `Arg::short` does not take a hyphen.
#[verifier::external_body]
fn with_option(
    cmd: clap::Command,
    id: &'static str,
    long: &'static str,
    short: Option<char>,
    value: &'static str,
) -> (r: clap::Command)
    requires
        short != Some('-'),
    ensures
        declared(r) == (
            declared(cmd).0,
            declared(cmd).1,
            declared(cmd).2,
            declared(cmd).3.push((id@, long@, short, Some(value@))),
        ),
{
    let arg = clap::Arg::new(id).long(long).short(short).value_name(value);
    cmd.arg(arg.action(clap::ArgAction::Set))
}

/// `clap::Command::try_get_matches_from`: parses the arguments, the first of
/// which is the program's name. The outcome is the one that `clap` gives for
/// this command and these arguments; a refusal comes back as the exit code
/// that `clap` gives it (`Error::exit_code`, which is zero or two) and the
/// text that `clap` renders for it. The command must be one that `clap`
/// accepts.
#[verifier::external_body]
fn parse_arguments(cmd: clap::Command, args: &Vec<String>) -> (r: Result<
    clap::ArgMatches,
    CliError,
>)
    requires
        well_declared(declared(cmd).3),
    ensures
        match parse_outcome(declared(cmd), texts(args@)) {
            Ok(found) => r is Ok && matched_switches(r.unwrap()) == found.0 && matched_values(
                r.unwrap(),
            ) == found.1,
            Err(refusal) => r is Err && r.unwrap_err().exit_code == refusal.0
                && r.unwrap_err().message@ == refusal.1,
        },
        r is Err ==> r.unwrap_err().exit_code == 0 || r.unwrap_err().exit_code == 2,
{
    cmd.try_get_matches_from(args).map_err(
        |e| CliError { exit_code: e.exit_code(), message: e.to_string() },
    )
}

/// `clap::ArgMatches::try_get_one::<bool>`: what the matches hold for the
/// switch `id`; `None` where they hold no such switch.
#[verifier::external_body]
fn switch_of(m: &clap::ArgMatches, id: &'static str) -> (r: Option<bool>)
    ensures
        r == found_switch(matched_switches(*m), id@),
{
    m.try_get_one::<bool>(id).ok().flatten().copied()
}

/// `clap::ArgMatches::try_get_one::<String>`: the value that the matches hold
/// for the option `id`; `None` where none was given.
#[verifier::external_body]
fn value_of(m: &clap::ArgMatches, id: &'static str) -> (r: Option<String>)
    ensures
        option_agrees(r, found_value(matched_values(*m), id@)),
{
    m.try_get_one::<String>(id).ok().flatten().cloned()
}

/// What a map of switches holds for `id`.
pub open spec fn found_switch(switches: Map<Seq<char>, bool>, id: Seq<char>) -> Option<bool> {
    if switches.contains_key(id) {
        Some(switches[id])
    } else {
        None
    }
}

/// What a map of option values holds for `id`.
pub open spec fn found_value(values: Map<Seq<char>, Seq<char>>, id: Seq<char>) -> Option<
    Seq<char>,
> {
    if values.contains_key(id) {
        Some(values[id])
    } else {
        None
    }
}

/// Whether `f` holds what was matched: a switch is on where it was matched
/// as set, an option has the value that was matched for it.
pub open spec fn flags_hold(
    switches: Map<Seq<char>, bool>,
    values: Map<Seq<char>, Seq<char>>,
    f: Flags,
) -> bool {
    &&& f.kill == (found_switch(switches, "kill"@) == Some(true))
    &&& f.open == (found_switch(switches, "open"@) == Some(true))
    &&& f.listen == (found_switch(switches, "listen"@) == Some(true))
    &&& f.exclude_ipv6 == (found_switch(switches, "exclude_ipv6"@) == Some(true))
    &&& option_agrees(f.proto, found_value(values, "proto"@))
    &&& option_agrees(f.ip, found_value(values, "ip"@))
    &&& option_agrees(f.remote_port, found_value(values, "remote_port"@))
    &&& option_agrees(f.port, found_value(values, "port"@))
    &&& option_agrees(f.program, found_value(values, "program"@))
    &&& option_agrees(f.pid, found_value(values, "pid"@))
}

/// Whether `f` holds what the matches hold.
pub open spec fn flags_agree(m: clap::ArgMatches, f: Flags) -> bool {
    flags_hold(matched_switches(m), matched_values(m), f)
}

/// Whether an optional string holds the given optional text.
pub open spec fn option_agrees(a: Option<String>, b: Option<Seq<char>>) -> bool {
    match (a, b) {
        (Some(x), Some(y)) => x@ == y,
        (None, None) => true,
        _ => false,
    }
}

/// The arguments that the program declares.
pub open spec fn flag_table() -> Seq<(Seq<char>, Seq<char>, Option<char>, Option<Seq<char>>)> {
    seq![
        ("kill"@, "kill"@, Some('k'), None),
        ("proto"@, "proto"@, None, Some("PROTO"@)),
        ("ip"@, "ip"@, None, Some("IP"@)),
        ("remote_port"@, "remote-port"@, None, Some("REMOTE_PORT"@)),
        ("port"@, "port"@, Some('p'), Some("PORT"@)),
        ("program"@, "program"@, None, Some("PROGRAM"@)),
        ("pid"@, "pid"@, None, Some("PID"@)),
        ("open"@, "open"@, Some('o'), None),
        ("listen"@, "listen"@, Some('l'), None),
        ("exclude_ipv6"@, "exclude-ipv6"@, None, None),
    ]
}

/// The program's flags are admissible and no two of them clash.
proof fn lemma_flag_table_well_declared()
    ensures
        well_declared(flag_table()),
{
    reveal_strlit("kill");
    reveal_strlit("proto");
    reveal_strlit("ip");
    reveal_strlit("remote_port");
    reveal_strlit("remote-port");
    reveal_strlit("port");
    reveal_strlit("program");
    reveal_strlit("pid");
    reveal_strlit("open");
    reveal_strlit("listen");
    reveal_strlit("exclude_ipv6");
    reveal_strlit("exclude-ipv6");
    reveal_strlit("help");
    reveal_strlit("version");
    let t = flag_table();
    assert(t.len() == 10);
    assert(admissible(t[0]) && admissible(t[1]) && admissible(t[2]) && admissible(t[3])
        && admissible(t[4]));
    assert(admissible(t[5]) && admissible(t[6]) && admissible(t[7]) && admissible(t[8])
        && admissible(t[9]));
    assert(forall|k: int| 0 <= k < 10 ==> (#[trigger] t[k]).0[0] == t[k].1[0]);
    assert(forall|i: int, j: int| 0 <= i < j < 10 ==> !clash(#[trigger] t[i], #[trigger] t[j])) by {
        assert(t[0].0.len() == 4 && t[1].0.len() == 5 && t[2].0.len() == 2 && t[3].0.len() == 11
            && t[4].0.len() == 4 && t[5].0.len() == 7 && t[6].0.len() == 3 && t[7].0.len() == 4
            && t[8].0.len() == 6 && t[9].0.len() == 12);
        assert(t[0].1.len() == 4 && t[1].1.len() == 5 && t[2].1.len() == 2 && t[3].1.len() == 11
            && t[4].1.len() == 4 && t[5].1.len() == 7 && t[6].1.len() == 3 && t[7].1.len() == 4
            && t[8].1.len() == 6 && t[9].1.len() == 12);
        assert(t[0].0[0] == 'k' && t[4].0[0] == 'p' && t[7].0[0] == 'o');
    }
}

/// Reads the flags out of the matches of a parse.
pub fn flags_from_matches(m: &clap::ArgMatches) -> (r: Flags)
    ensures
        flags_agree(*m, r),
{
    let kill: bool = switch_of(m, "kill") == Some(true);
    let open: bool = switch_of(m, "open") == Some(true);
    let listen: bool = switch_of(m, "listen") == Some(true);
    let exclude_ipv6: bool = switch_of(m, "exclude_ipv6") == Some(true);
    Flags {
        kill,
        proto: value_of(m, "proto"),
        ip: value_of(m, "ip"),
        remote_port: value_of(m, "remote_port"),
        port: value_of(m, "port"),
        program: value_of(m, "program"),
        pid: value_of(m, "pid"),
        open,
        listen,
        exclude_ipv6,
    }
}

/// The command that declares the program's flags.
fn command(name: &'static str, version: &'static str, about: &'static str) -> (r: clap::Command)
    ensures
        declared(r) == (name@, version@, about@, flag_table()),
{
    let c = new_command(name, version, about);
    let c = with_switch(c, "kill", "kill", Some('k'));
    let c = with_option(c, "proto", "proto", None, "PROTO");
    let c = with_option(c, "ip", "ip", None, "IP");
    let c = with_option(c, "remote_port", "remote-port", None, "REMOTE_PORT");
    let c = with_option(c, "port", "port", Some('p'), "PORT");
    let c = with_option(c, "program", "program", None, "PROGRAM");
    let c = with_option(c, "pid", "pid", None, "PID");
    let c = with_switch(c, "open", "open", Some('o'));
    let c = with_switch(c, "listen", "listen", Some('l'));
    let c = with_switch(c, "exclude_ipv6", "exclude-ipv6", None);
    proof {
        assert(declared(c).3 =~= flag_table());
    }
    c
}

/// The name under which the program declares itself.
pub open spec fn program_name() -> Seq<char> {
    "sockscope"@
}

/// The version that the program declares.
pub open spec fn program_version() -> Seq<char> {
    "0.1.0"@
}

/// The description that the program's help begins with.
pub open spec fn program_about() -> Seq<char> {
    "Shows the machine's sockets and the processes that own them"@
}

/// Parses the arguments of a run, the first of which is the program's name,
/// into the values of the flags. Whether the arguments are accepted is for
/// `clap` to say: where they are, the flags are those that it matched; where
/// they are not, the error holds the text that it renders, which for a
/// request for help or for the version is that help or version.
pub fn cli(args: &Vec<String>) -> (r: Result<Flags, CliError>)
    ensures
        match parse_outcome(
            (program_name(), program_version(), program_about(), flag_table()),
            texts(args@),
        ) {
            Ok(found) => r is Ok && flags_hold(found.0, found.1, r.unwrap()),
            Err(refusal) => r is Err && r.unwrap_err().exit_code == refusal.0
                && r.unwrap_err().message@ == refusal.1,
        },
        r is Err ==> r.unwrap_err().exit_code == 0 || r.unwrap_err().exit_code == 2,
{
    let c = command(
        "sockscope",
        "0.1.0",
        "Shows the machine's sockets and the processes that own them",
    );
    proof {
        lemma_flag_table_well_declared();
    }
    match parse_arguments(c, args) {
        Ok(m) => {
            let f = flags_from_matches(&m);
            Ok(f)
        },
        Err(e) => Err(e),
    }
}

/// A copy of an optional string.
fn copy_text(t: &Option<String>) -> (r: Option<String>)
    ensures
        r == *t,
{
    match t {
        Some(s) => Some(s.clone()),
        None => None,
    }
}

impl Flags {
    /// The filter that the flags ask for: each flag but `kill` is one
    /// predicate of it.
    pub open spec fn spec_filter_options(&self) -> FilterOptions {
        FilterOptions {
            by_proto: self.proto,
            by_remote_address: self.ip,
            by_remote_port: self.remote_port,
            by_local_port: self.port,
            by_program: self.program,
            by_pid: self.pid,
            by_open: self.open,
            by_listen: self.listen,
            exclude_ipv6: self.exclude_ipv6,
        }
    }

    /// The filter that the flags ask for.
    pub fn filter_options(&self) -> (r: FilterOptions)
        ensures
            r == self.spec_filter_options(),
    {
        FilterOptions {
            by_proto: copy_text(&self.proto),
            by_remote_address: copy_text(&self.ip),
            by_remote_port: copy_text(&self.remote_port),
            by_local_port: copy_text(&self.port),
            by_program: copy_text(&self.program),
            by_pid: copy_text(&self.pid),
            by_open: self.open,
            by_listen: self.listen,
            exclude_ipv6: self.exclude_ipv6,
        }
    }
}

} // verus!
