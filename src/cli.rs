//! The command line: global options, then one command with its own options.
use vstd::prelude::*;
use crate::checks::{selector_of, CheckCmd, ClientMountArgs, CudaArgs, NvidiaArgs, NvidiaFsArgs, OfedArgs, StorageTargetArgs};
use crate::text::{push_text, same_text, starts_with};

verus! {

pub enum Output {
    Human,
    Json,
}

pub struct StatusArgs {
    pub selector: Option<String>,
}

pub enum CompShell {
    Bash,
    Zsh,
    Fish,
    PowerShell,
    Elvish,
}

pub struct CompletionsArgs {
    pub shell: Option<CompShell>,
    pub dir: Option<String>,
}

pub struct ExecArgs {
    pub selector: String,
    /// The words of the command, given after `--`.
    pub cmd: Vec<String>,
}

pub enum NodeCmd {
    List,
    Exec(ExecArgs),
}

pub struct ConfigGetArgs {
    pub key: String,
    pub selector: Option<String>,
}

pub struct ConfigSetArgs {
    pub key: String,
    pub value: String,
    pub selector: Option<String>,
    pub confirm: bool,
}

pub enum ConfigCmd {
    Get(ConfigGetArgs),
    Put(ConfigSetArgs),
}

pub enum Commands {
    Status(StatusArgs),
    Node(NodeCmd),
    Config(ConfigCmd),
    Completions(CompletionsArgs),
    Check(CheckCmd),
}

pub struct Cli {
    /// How many times `-v` was given.
    pub verbose: u8,
    pub output: Output,
    pub config: Option<String>,
    pub command: Commands,
}

pub enum ParseError {
    /// No command was given.
    MissingCommand,
    /// A word that is neither a known option nor a known command.
    Unexpected(String),
    /// An option given without its value.
    MissingValue(String),
    /// A required option that was not given.
    MissingArgument(String),
    /// A value the option does not take.
    InvalidValue(String),
}

/// The word that names a command.
pub open spec fn command_word(c: Commands) -> Seq<char> {
    match c {
        Commands::Status(_) => "status"@,
        Commands::Node(_) => "node"@,
        Commands::Config(_) => "config"@,
        Commands::Completions(_) => "completions"@,
        Commands::Check(_) => "check"@,
    }
}

/// The word that names a check.
pub open spec fn check_word(c: CheckCmd) -> Seq<char> {
    match c {
        CheckCmd::NvidiaDriver(_) => "nvidia-driver"@,
        CheckCmd::Cuda(_) => "cuda"@,
        CheckCmd::NvidiaFs(_) => "nvidia-fs"@,
        CheckCmd::Ofed(_) => "ofed"@,
        CheckCmd::ClientMount(_) => "client-mount"@,
        CheckCmd::StorageTarget(_) => "storage-target"@,
    }
}

fn text(t: &str) -> (r: String)
    ensures
        r@ == t@,
{
    let mut s = String::new();
    push_text(&mut s, t);
    s
}

/// What an option at a position of the command line holds.
enum OptValue {
    NoMatch,
    Value(String, usize),
    Missing,
}

/// A word that is no option: it does not begin with `-`.
pub open spec fn plain_word(w: Seq<char>) -> bool {
    w.len() > 0 && w[0] != '-'
}

/// An option name: it begins with `-`.
pub open spec fn option_name(w: Seq<char>) -> bool {
    w.len() > 0 && w[0] == '-'
}

/// Reads `--long value`, `--long=value` or `-s value` at position `i`.
fn option_at(args: &Vec<String>, i: usize, long: &str, short: &str) -> (r: OptValue)
    requires
        i < args@.len(),
    ensures
        r matches OptValue::Value(_, n) ==> i < n <= args@.len(),
        plain_word(args@[i as int]@) && option_name(long@) && (short@.len() == 0 || option_name(short@))
            ==> r is NoMatch,
        (args@[i as int]@ == long@ || (short@.len() > 0 && args@[i as int]@ == short@)) && i + 1 < args@.len()
            ==> (r matches OptValue::Value(v, n) && v == args@[i + 1] && n == i + 2),
{
    let len = args.len();
    let a = args[i].as_str();
    if same_text(a, long) || (short.unicode_len() > 0 && same_text(a, short)) {
        if i + 1 < len {
            return OptValue::Value(args[i + 1].clone(), i + 2);
        }
        return OptValue::Missing;
    }
    let mut eq = text(long);
    push_text(&mut eq, "=");
    if starts_with(a, eq.as_str()) {
        proof {
            if option_name(long@) && plain_word(a@) {
                assert(eq@[0] == long@[0]);
                assert(a@.subrange(0, eq@.len() as int)[0] == a@[0]);
            }
        }
        let n = a.unicode_len();
        let k = eq.unicode_len();
        return OptValue::Value(text(a.substring_char(k, n)), i + 1);
    }
    OptValue::NoMatch
}

/// The value of an unsigned decimal word, if it is one and fits.
pub open spec fn decimal_value(s: Seq<char>) -> Option<nat>
    decreases s.len(),
{
    if s.len() == 0 {
        None
    } else {
        let c = s.last();
        let d = (c as u32) - ('0' as u32);
        if !('0' <= c && c <= '9') {
            None
        } else if s.len() == 1 {
            Some(d as nat)
        } else {
            match decimal_value(s.drop_last()) {
                Some(v) => Some(v * 10 + d as nat),
                None => None,
            }
        }
    }
}

pub fn parse_u64(s: &str) -> (r: Option<u64>)
    ensures
        r matches Some(v) ==> decimal_value(s@) == Some(v as nat),
        r is None ==> decimal_value(s@) is None || decimal_value(s@)->0 > u64::MAX,
{
    let n = s.unicode_len();
    if n == 0 {
        return None;
    }
    let mut v: u64 = 0;
    let mut i: usize = 0;
    let mut over = false;
    while i < n
        invariant
            n == s@.len(),
            n > 0,
            i <= n,
            i > 0 ==> decimal_value(s@.subrange(0, i as int)) is Some,
            i > 0 && !over ==> decimal_value(s@.subrange(0, i as int)) == Some(v as nat),
            i > 0 && over ==> decimal_value(s@.subrange(0, i as int))->0 > u64::MAX,
            i == 0 ==> v == 0 && !over,
        decreases n - i,
    {
        let c = s.get_char(i);
        let ghost pre = s@.subrange(0, i as int);
        let ghost next = s@.subrange(0, i + 1);
        assert(next.drop_last() =~= pre);
        assert(next.last() == c);
        if !('0' <= c && c <= '9') {
            proof {
                lemma_decimal_stops(s@, i as int);
            }
            return None;
        }
        let d = (c as u32 - '0' as u32) as u64;
        if !over {
            if v > (u64::MAX - d) / 10 {
                over = true;
                assert(i > 0 ==> v * 10 + d > u64::MAX) by (nonlinear_arith)
                    requires
                        v > (u64::MAX - d) / 10,
                        d <= 9,
                ;
            } else {
                assert(v * 10 + d <= u64::MAX) by (nonlinear_arith)
                    requires
                        v <= (u64::MAX - d) / 10,
                        d <= 9,
                ;
                v = v * 10 + d;
            }
        }
        proof {
            if i > 0 && over {
                let pv = decimal_value(pre)->0;
                assert(decimal_value(next) == Some(pv * 10 + d as nat));
                assert(pv * 10 + d as nat > u64::MAX) by (nonlinear_arith)
                    requires
                        pv > u64::MAX || pv * 10 + d as nat > u64::MAX,
                ;
            }
        }
        i = i + 1;
    }
    assert(s@.subrange(0, n as int) =~= s@);
    if over {
        None
    } else {
        Some(v)
    }
}

proof fn lemma_decimal_stops(s: Seq<char>, i: int)
    requires
        0 <= i < s.len(),
        !('0' <= s[i] && s[i] <= '9'),
    ensures
        decimal_value(s) is None,
    decreases s.len(),
{
    if i < s.len() - 1 {
        assert(s.drop_last()[i] == s[i]);
        lemma_decimal_stops(s.drop_last(), i);
    }
}

/// One option a command takes: its long and short names, and whether it
/// takes a value (else it is a flag).
struct OptSpec {
    long: &'static str,
    short: &'static str,
    takes_value: bool,
}

fn opt(long: &'static str, short: &'static str) -> (r: OptSpec)
    ensures
        r.long == long,
        r.short == short,
        r.takes_value,
{
    OptSpec { long, short, takes_value: true }
}

/// The options of a command, from position `start` on: the last value of
/// each (`Some("")` for a flag that was given), and the position after `--`
/// where the command stops reading options.
/// The options from `start` on are exactly one value-taking option, by its
/// short name, and its value.
spec fn one_pair(args: Seq<String>, start: int, specs: Seq<OptSpec>) -> bool {
    &&& specs.len() == 1
    &&& specs[0].takes_value
    &&& 0 <= start && start + 2 == args.len()
    &&& specs[0].short@.len() > 0
    &&& args[start]@ == specs[0].short@
    &&& args[start]@ != "--"@
}

struct Parsed {
    values: Vec<Option<String>>,
    rest: Option<usize>,
}

fn parse_opts(args: &Vec<String>, start: usize, specs: &Vec<OptSpec>) -> (r: Result<Parsed, ParseError>)
    ensures
        r matches Ok(p) ==> p.values@.len() == specs@.len() && (p.rest matches Some(k) ==> k <= args@.len()),
        start >= args@.len() ==> (r matches Ok(p) && p.rest is None && forall|k: int| 0 <= k < p.values@.len() ==> #[trigger] p.values@[k] is None),
        one_pair(args@, start as int, specs@) ==> (r matches Ok(p) && p.rest is None && p.values@[0] == Some(args@[start + 1])),
{
    let len = args.len();
    let mut values: Vec<Option<String>> = Vec::new();
    let mut k: usize = 0;
    while k < specs.len()
        invariant
            k <= specs@.len(),
            values@.len() == k,
            forall|m: int| 0 <= m < k ==> #[trigger] values@[m] is None,
        decreases specs.len() - k,
    {
        values.push(None);
        k = k + 1;
    }
    let mut i: usize = start;
    while i < len
        invariant
            len == args@.len(),
            values@.len() == specs@.len(),
            start >= len ==> i == start && forall|m: int| 0 <= m < values@.len() ==> #[trigger] values@[m] is None,
            one_pair(args@, start as int, specs@) ==> (i == start || (i == start + 2 && values@[0] == Some(args@[start + 1]))),
        decreases len - i,
    {
        if same_text(args[i].as_str(), "--") {
            return Ok(Parsed { values, rest: Some(i + 1) });
        }
        let mut found = false;
        let mut next: usize = i;
        let mut k: usize = 0;
        while k < specs.len() && !found
            invariant
                len == args@.len(),
                i < len,
                start >= len ==> i == start,
                values@.len() == specs@.len(),
                k <= specs@.len(),
                one_pair(args@, start as int, specs@) ==> i == start,
                one_pair(args@, start as int, specs@) ==> (found ==> next == start + 2 && values@[0] == Some(args@[start + 1])),
                one_pair(args@, start as int, specs@) ==> (!found ==> k == 0),
                found ==> i < next <= len,
                !found ==> next == i,
            decreases specs.len() - k + if found { 0int } else { 1int },
        {
            let sp = &specs[k];
            if sp.takes_value {
                match option_at(args, i, sp.long, sp.short) {
                    OptValue::Value(v, n) => {
                        values.set(k, Some(v));
                        next = n;
                        found = true;
                    },
                    OptValue::Missing => {
                        return Err(ParseError::MissingValue(text(sp.long)));
                    },
                    OptValue::NoMatch => {},
                }
            } else if same_text(args[i].as_str(), sp.long) || (sp.short.unicode_len() > 0 && same_text(args[i].as_str(), sp.short)) {
                values.set(k, Some(String::new()));
                next = i + 1;
                found = true;
            }
            if !found {
                k = k + 1;
            }
        }
        if !found {
            return Err(ParseError::Unexpected(args[i].clone()));
        }
        i = next;
    }
    Ok(Parsed { values, rest: None })
}

fn value_at(p: &Parsed, k: usize) -> (r: Option<String>)
    requires
        k < p.values@.len(),
    ensures
        r == p.values@[k as int],
{
    match &p.values[k] {
        Some(v) => Some(v.clone()),
        None => None,
    }
}

fn value_or(p: &Parsed, k: usize, default: &str) -> (r: String)
    requires
        k < p.values@.len(),
    ensures
        p.values@[k as int] is None ==> r@ == default@,
        p.values@[k as int] matches Some(v) ==> r == v,
{
    match &p.values[k] {
        Some(v) => v.clone(),
        None => text(default),
    }
}

fn required(p: &Parsed, k: usize, name: &str) -> (r: Result<String, ParseError>)
    requires
        k < p.values@.len(),
{
    match &p.values[k] {
        Some(v) => Ok(v.clone()),
        None => Err(ParseError::MissingArgument(text(name))),
    }
}

fn timeout_of(p: &Parsed, k: usize) -> (r: Result<u64, ParseError>)
    requires
        k < p.values@.len(),
{
    match &p.values[k] {
        Some(v) => match parse_u64(v.as_str()) {
            Some(n) => Ok(n),
            None => Err(ParseError::InvalidValue(v.clone())),
        },
        None => Ok(10),
    }
}

/// Options of a command that stops at the end of the line.
fn options_only(args: &Vec<String>, start: usize, specs: &Vec<OptSpec>) -> (r: Result<Parsed, ParseError>)
    ensures
        r matches Ok(p) ==> p.values@.len() == specs@.len(),
        one_pair(args@, start as int, specs@) ==> (r matches Ok(p) && p.values@[0] == Some(args@[start + 1])),
        start >= args@.len() ==> (r matches Ok(p) && forall|k: int| 0 <= k < p.values@.len() ==> #[trigger] p.values@[k] is None),
{
    let p = parse_opts(args, start, specs)?;
    if p.rest.is_some() {
        return Err(ParseError::Unexpected(text("--")));
    }
    Ok(p)
}

fn selector_only() -> (r: Vec<OptSpec>)
    ensures
        r@.len() == 1,
        r@[0].takes_value,
        r@[0].long@ == "--selector"@,
        r@[0].short@ == "-s"@,
{
    let mut v: Vec<OptSpec> = Vec::new();
    v.push(opt("--selector", "-s"));
    v
}

/// A word that names a version check.
pub open spec fn version_word(w: Seq<char>) -> bool {
    w == "nvidia-driver"@ || w == "cuda"@ || w == "nvidia-fs"@ || w == "ofed"@
}

fn parse_check(args: &Vec<String>, j: usize) -> (r: Result<CheckCmd, ParseError>)
    ensures
        r matches Ok(c) ==> j < args@.len() && args@[j as int]@ == check_word(c),
        j + 1 == args@.len() && version_word(args@[j as int]@) ==> (r matches Ok(c) && selector_of(c) == "all"@),
        j + 3 == args@.len() && version_word(args@[j as int]@) && args@[j + 1]@ == "-s"@ ==> (r matches Ok(c)
            && selector_of(c) == args@[j + 2]@),
{
    proof {
        reveal_strlit("nvidia-driver");
        reveal_strlit("cuda");
        reveal_strlit("nvidia-fs");
        reveal_strlit("ofed");
        reveal_strlit("-s");
        reveal_strlit("--");
        assert("-s"@[1] != "--"@[1]);
        assert("cuda"@[0] != "nvidia-driver"@[0] && "ofed"@[0] != "nvidia-driver"@[0]);
        assert("ofed"@[0] != "nvidia-fs"@[0] && "cuda"@[0] != "nvidia-fs"@[0]);
        assert("nvidia-fs"@[7] != "nvidia-driver"@[7]);
    }
    if j >= args.len() {
        return Err(ParseError::MissingCommand);
    }
    let w = args[j].as_str();
    if same_text(w, "nvidia-driver") || same_text(w, "cuda") || same_text(w, "nvidia-fs") || same_text(w, "ofed") {
        let p = options_only(args, j + 1, &selector_only())?;
        let selector = value_or(&p, 0, "all");
        if same_text(w, "nvidia-driver") {
            Ok(CheckCmd::NvidiaDriver(NvidiaArgs { selector }))
        } else if same_text(w, "cuda") {
            Ok(CheckCmd::Cuda(CudaArgs { selector }))
        } else if same_text(w, "nvidia-fs") {
            Ok(CheckCmd::NvidiaFs(NvidiaFsArgs { selector }))
        } else {
            Ok(CheckCmd::Ofed(OfedArgs { selector }))
        }
    } else if same_text(w, "client-mount") {
        let mut specs: Vec<OptSpec> = Vec::new();
        specs.push(opt("--mount", ""));
        specs.push(opt("--selector", "-s"));
        specs.push(opt("--timeout", ""));
        let p = options_only(args, j + 1, &specs)?;
        let mount = required(&p, 0, "--mount")?;
        let selector = value_or(&p, 1, "all");
        let timeout = timeout_of(&p, 2)?;
        Ok(CheckCmd::ClientMount(ClientMountArgs { mount, selector, timeout }))
    } else if same_text(w, "storage-target") {
        let mut specs: Vec<OptSpec> = Vec::new();
        specs.push(opt("--selector", ""));
        specs.push(opt("--node", ""));
        specs.push(opt("--targets", ""));
        specs.push(opt("--timeout", ""));
        let p = options_only(args, j + 1, &specs)?;
        let selector = match value_at(&p, 1) {
            Some(v) => v,
            None => required(&p, 0, "--selector")?,
        };
        let targets = value_or(&p, 2, "all");
        let timeout = timeout_of(&p, 3)?;
        Ok(CheckCmd::StorageTarget(StorageTargetArgs { selector, targets, timeout }))
    } else {
        Err(ParseError::Unexpected(args[j].clone()))
    }
}

fn parse_node(args: &Vec<String>, j: usize) -> (r: Result<NodeCmd, ParseError>)
    ensures
        j + 1 == args@.len() && args@[j as int]@ == "list"@ ==> r matches Ok(NodeCmd::List),
{
    if j >= args.len() {
        return Err(ParseError::MissingCommand);
    }
    let w = args[j].as_str();
    if same_text(w, "list") {
        let none: Vec<OptSpec> = Vec::new();
        options_only(args, j + 1, &none)?;
        Ok(NodeCmd::List)
    } else if same_text(w, "exec") {
        let p = parse_opts(args, j + 1, &selector_only())?;
        let selector = value_or(&p, 0, "all");
        let mut cmd: Vec<String> = Vec::new();
        if let Some(k) = p.rest {
            let mut m: usize = k;
            while m < args.len()
                decreases args.len() - m,
            {
                cmd.push(args[m].clone());
                m = m + 1;
            }
        }
        if cmd.len() == 0 {
            return Err(ParseError::MissingArgument(text("cmd")));
        }
        Ok(NodeCmd::Exec(ExecArgs { selector, cmd }))
    } else {
        Err(ParseError::Unexpected(args[j].clone()))
    }
}

fn parse_config(args: &Vec<String>, j: usize) -> (r: Result<ConfigCmd, ParseError>) {
    if j >= args.len() {
        return Err(ParseError::MissingCommand);
    }
    let w = args[j].as_str();
    if same_text(w, "get") {
        let mut specs: Vec<OptSpec> = Vec::new();
        specs.push(opt("--key", ""));
        specs.push(opt("--selector", "-s"));
        let p = options_only(args, j + 1, &specs)?;
        let key = required(&p, 0, "--key")?;
        Ok(ConfigCmd::Get(ConfigGetArgs { key, selector: value_at(&p, 1) }))
    } else if same_text(w, "set") {
        let mut specs: Vec<OptSpec> = Vec::new();
        specs.push(opt("--key", ""));
        specs.push(opt("--value", ""));
        specs.push(opt("--selector", "-s"));
        specs.push(OptSpec { long: "--confirm", short: "", takes_value: false });
        let p = options_only(args, j + 1, &specs)?;
        let key = required(&p, 0, "--key")?;
        let value = required(&p, 1, "--value")?;
        Ok(ConfigCmd::Put(ConfigSetArgs { key, value, selector: value_at(&p, 2), confirm: true }))
    } else {
        Err(ParseError::Unexpected(args[j].clone()))
    }
}

fn shell_named(w: &str) -> (r: Option<CompShell>) {
    if same_text(w, "bash") {
        Some(CompShell::Bash)
    } else if same_text(w, "zsh") {
        Some(CompShell::Zsh)
    } else if same_text(w, "fish") {
        Some(CompShell::Fish)
    } else if same_text(w, "power-shell") {
        Some(CompShell::PowerShell)
    } else if same_text(w, "elvish") {
        Some(CompShell::Elvish)
    } else {
        None
    }
}

fn parse_command(args: &Vec<String>, i: usize) -> (r: Result<Commands, ParseError>)
    requires
        i < args@.len(),
    ensures
        r matches Ok(c) ==> args@[i as int]@ == command_word(c),
        r matches Ok(Commands::Check(k)) ==> i + 1 < args@.len() && args@[i + 1]@ == check_word(k),
        i + 1 == args@.len() && args@[i as int]@ == "status"@ ==> (r matches Ok(Commands::Status(a)) && a.selector is None),
        i + 2 == args@.len() && args@[i as int]@ == "node"@ && args@[i + 1]@ == "list"@ ==> r matches Ok(
            Commands::Node(NodeCmd::List),
        ),
        i + 2 == args@.len() && args@[i as int]@ == "check"@ && version_word(args@[i + 1]@) ==> (r matches Ok(
            Commands::Check(k),
        ) && selector_of(k) == "all"@),
        i + 4 == args@.len() && args@[i as int]@ == "check"@ && version_word(args@[i + 1]@) && args@[i + 2]@ == "-s"@
            ==> (r matches Ok(Commands::Check(k)) && selector_of(k) == args@[i + 3]@),
{
    proof {
        reveal_strlit("status");
        reveal_strlit("node");
        reveal_strlit("config");
        reveal_strlit("completions");
        reveal_strlit("check");
        assert("status"@[0] != "node"@[0] && "status"@[0] != "check"@[0]);
        assert("node"@[0] != "config"@[0] && "node"@[0] != "completions"@[0] && "node"@[0] != "check"@[0]);
        assert("check"@[1] != "config"@[1] && "check"@[1] != "completions"@[1]);
    }
    let n = args.len();
    assert(i + 1 <= n);
    let w = args[i].as_str();
    if same_text(w, "status") {
        let p = options_only(args, i + 1, &selector_only())?;
        Ok(Commands::Status(StatusArgs { selector: value_at(&p, 0) }))
    } else if same_text(w, "node") {
        Ok(Commands::Node(parse_node(args, i + 1)?))
    } else if same_text(w, "config") {
        Ok(Commands::Config(parse_config(args, i + 1)?))
    } else if same_text(w, "completions") {
        let mut specs: Vec<OptSpec> = Vec::new();
        specs.push(opt("--shell", ""));
        specs.push(opt("--dir", ""));
        let p = options_only(args, i + 1, &specs)?;
        let shell = match &p.values[0] {
            Some(v) => match shell_named(v.as_str()) {
                Some(sh) => Some(sh),
                None => return Err(ParseError::InvalidValue(v.clone())),
            },
            None => None,
        };
        Ok(Commands::Completions(CompletionsArgs { shell, dir: value_at(&p, 1) }))
    } else if same_text(w, "check") {
        Ok(Commands::Check(parse_check(args, i + 1)?))
    } else {
        Err(ParseError::Unexpected(args[i].clone()))
    }
}

/// `-v`, `-vv`, ...: the number of `v`s, where the word is one.
fn verbosity(w: &str) -> (r: Option<u8>)
    ensures
        plain_word(w@) ==> r is None,
{
    let n = w.unicode_len();
    if n < 2 || w.get_char(0) != '-' {
        return None;
    }
    let mut k: usize = 1;
    let mut count: u8 = 0;
    while k < n
        invariant
            n == w@.len(),
            1 <= k <= n,
        decreases n - k,
    {
        if w.get_char(k) != 'v' {
            return None;
        }
        count = if count < 255 { count + 1 } else { count };
        k = k + 1;
    }
    Some(count)
}

impl Cli {
    /// Reads a command line; the first word is the program's name.
    pub fn parse_from(args: &Vec<String>) -> (r: Result<Cli, ParseError>)
        ensures
            args@.len() <= 1 ==> r matches Err(ParseError::MissingCommand),
            r matches Ok(c) ==> exists|i: int| 1 <= i < args@.len() && #[trigger] args@[i]@ == command_word(c.command),
            r matches Ok(c) ==> (c.command is Check ==> exists|i: int|
                2 <= i < args@.len() && #[trigger] args@[i]@ == check_word(c.command->Check_0)),
            args@.len() == 2 && args@[1]@ == "status"@ ==> (r matches Ok(c) && c.command is Status && c.output is Human
                && c.verbose == 0 && c.config is None),
            args@.len() == 3 && args@[1]@ == "node"@ && args@[2]@ == "list"@ ==> (r matches Ok(c)
                && c.command == Commands::Node(NodeCmd::List)),
            args@.len() == 3 && args@[1]@ == "check"@ && version_word(args@[2]@) ==> (r matches Ok(c)
                && c.command is Check && check_word(c.command->Check_0) == args@[2]@
                && selector_of(c.command->Check_0) == "all"@),
            args@.len() == 5 && args@[1]@ == "check"@ && version_word(args@[2]@) && args@[3]@ == "-s"@ ==> (r matches Ok(c)
                && c.command is Check && check_word(c.command->Check_0) == args@[2]@
                && selector_of(c.command->Check_0) == args@[4]@),
    {
        proof {
            reveal_strlit("--verbose");
            reveal_strlit("--output");
            reveal_strlit("--config");
            reveal_strlit("-c");
            reveal_strlit("");
            reveal_strlit("status");
            reveal_strlit("node");
            reveal_strlit("check");
        }
        let len = args.len();
        let mut verbose: u8 = 0;
        let mut output = Output::Human;
        let mut config: Option<String> = None;
        let mut i: usize = 1;
        while i < len
            invariant
                len == args@.len(),
                i >= 1,
                len >= 2 && plain_word(args@[1]@) ==> i == 1 && verbose == 0 && output is Human && config is None,
            decreases len - i,
        {
            proof {
                reveal_strlit("--verbose");
                reveal_strlit("--output");
                reveal_strlit("--config");
                reveal_strlit("-c");
                reveal_strlit("");
                reveal_strlit("status");
                reveal_strlit("node");
                reveal_strlit("check");
            }
            if same_text(args[i].as_str(), "--verbose") {
                verbose = if verbose < 255 { verbose + 1 } else { verbose };
                i = i + 1;
            } else if let Some(n) = verbosity(args[i].as_str()) {
                verbose = if verbose as u16 + n as u16 > 255 { 255 } else { verbose + n };
                i = i + 1;
            } else {
                match option_at(args, i, "--output", "") {
                    OptValue::Value(v, n) => {
                        if same_text(v.as_str(), "human") {
                            output = Output::Human;
                        } else if same_text(v.as_str(), "json") {
                            output = Output::Json;
                        } else {
                            return Err(ParseError::InvalidValue(v));
                        }
                        i = n;
                    },
                    OptValue::Missing => return Err(ParseError::MissingValue(text("--output"))),
                    OptValue::NoMatch => match option_at(args, i, "--config", "-c") {
                        OptValue::Value(v, n) => {
                            config = Some(v);
                            i = n;
                        },
                        OptValue::Missing => return Err(ParseError::MissingValue(text("--config"))),
                        OptValue::NoMatch => break,
                    },
                }
            }
        }
        if i >= len {
            return Err(ParseError::MissingCommand);
        }
        let command = parse_command(args, i)?;
        Ok(Cli { verbose, output, config, command })
    }
}

} // verus!
