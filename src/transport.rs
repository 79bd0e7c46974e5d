//! What the checks need of a remote command runner, and how the configured
//! runner is chosen and invoked.
use vstd::prelude::*;
use crate::config::Config;
use crate::text::{opt_text, push_text, same_text};

verus! {

/// What a remote command printed.
pub struct ExecOutput {
    pub stdout: String,
    pub stderr: String,
}

/// Runs one command on one host and waits for it; `Err` carries a
/// description of a failure to run it at all.
pub trait Transport {
    fn exec(&self, host: &str, cmd: &str) -> Result<ExecOutput, String>;
}

/// The runner a configuration asks for.
pub enum TransportKind {
    /// `sh -lc` on this machine, whatever the host.
    Local,
    /// `ssh` to the host, as the given user if any.
    Ssh { user: Option<String> },
}

pub fn from_config(cfg: &Config) -> (r: TransportKind)
    ensures
        cfg.transport@ == "local"@ ==> r is Local,
        cfg.transport@ != "local"@ ==> r is Ssh && opt_text(r->user) == opt_text(cfg.ssh_user),
{
    if same_text(cfg.transport.as_str(), "local") {
        TransportKind::Local
    } else {
        let user = match &cfg.ssh_user {
            Some(u) => Some(u.clone()),
            None => None,
        };
        TransportKind::Ssh { user }
    }
}

/// `user@host`, or the host alone.
pub open spec fn ssh_target_spec(user: Option<Seq<char>>, host: Seq<char>) -> Seq<char> {
    match user {
        Some(u) => u + "@"@ + host,
        None => host,
    }
}

/// The arguments of the `ssh` invocation that runs `cmd` on `host`.
pub open spec fn ssh_args_spec(user: Option<Seq<char>>, host: Seq<char>, cmd: Seq<char>) -> Seq<Seq<char>> {
    seq![
        "-o"@,
        "BatchMode=yes"@,
        "-o"@,
        "StrictHostKeyChecking=accept-new"@,
        "-o"@,
        "ConnectTimeout=5"@,
        ssh_target_spec(user, host),
        cmd,
    ]
}

fn text(t: &str) -> (r: String)
    ensures
        r@ == t@,
{
    let mut s = String::new();
    push_text(&mut s, t);
    s
}

pub fn ssh_target(user: &Option<String>, host: &str) -> (r: String)
    ensures
        r@ == ssh_target_spec(opt_text(*user), host@),
{
    match user {
        Some(u) => {
            let mut s = text(u.as_str());
            push_text(&mut s, "@");
            push_text(&mut s, host);
            s
        },
        None => text(host),
    }
}

pub fn ssh_args(user: &Option<String>, host: &str, cmd: &str) -> (r: Vec<String>)
    ensures
        r@.len() == 8,
        forall|i: int| 0 <= i < 8 ==> #[trigger] r@[i]@ == ssh_args_spec(opt_text(*user), host@, cmd@)[i],
{
    let mut r: Vec<String> = Vec::new();
    r.push(text("-o"));
    r.push(text("BatchMode=yes"));
    r.push(text("-o"));
    r.push(text("StrictHostKeyChecking=accept-new"));
    r.push(text("-o"));
    r.push(text("ConnectTimeout=5"));
    r.push(ssh_target(user, host));
    r.push(text(cmd));
    r
}

/// The arguments of the local `sh` invocation that runs `cmd`.
pub fn local_args(cmd: &str) -> (r: Vec<String>)
    ensures
        r@.len() == 2,
        r@[0]@ == "-lc"@,
        r@[1]@ == cmd@,
{
    let mut r: Vec<String> = Vec::new();
    r.push(text("-lc"));
    r.push(text(cmd));
    r
}

} // verus!
