//! The systemd unit of a node, and the steps that install, enable and
//! disable it. The library decides what to write and what to run; running it
//! is left to the caller.

use crate::node::{case_converted, chain_arg, to_case, Node, NodeView, TextCase};
use crate::profile::Profile;
use vstd::prelude::*;

verus! {

/// Text of the unit file before the node's title.
pub const UNIT_HEAD: &'static str = "[Unit]\nDescription=Selendra@";

/// Text of the unit file between the title and the database path.
pub const UNIT_AFTER_TITLE: &'static str = "\nAfter=network.target\nDocumentation=https://github.com/selendra/selendra\n\n[Service]\nExecStart=/usr/bin/selendra --base-path ";

/// Text of the unit file between the database path and the chain.
pub const UNIT_AFTER_PATH: &'static str = " --chain ";

/// Text of the unit file between the chain and the title given as `--name`.
pub const UNIT_AFTER_CHAIN: &'static str = " --port 30333 --rpc-port 9934 --ws-port 9944 --prometheus-port 9616 --rpc-methods Unsafe --rpc-cors all --pruning archive --validator --name \"";

/// Text of the unit file after the second title.
pub const UNIT_TAIL: &'static str = "\" --bootnodes /ip4/157.245.56.213/tcp/30333/p2p/12D3KooWDLR899Spcx4xJ3U8cZttv9zjzJoey3HKaTZiNqwojZJB\nRestart=always\nRestartSec=120\n\n[Install]\nWantedBy=multi-user.target\n";

pub const UNIT_PREFIX: &'static str = "selendra.";

pub const UNIT_SUFFIX: &'static str = ".service";

/// The directory of system units in a release build.
pub const SYSTEMD_DIR: &'static str = "/etc/systemd/system/";

/// The name of the systemd unit of the node called `name`.
pub open spec fn unit_name(name: Seq<char>) -> Seq<char> {
    UNIT_PREFIX@ + name + UNIT_SUFFIX@
}

/// The file of the unit of the node called `name`.
pub open spec fn unit_file(name: Seq<char>, profile: Profile) -> Seq<char> {
    match profile {
        Profile::Debug => unit_name(name),
        Profile::Release => SYSTEMD_DIR@ + unit_name(name),
    }
}

/// The unit file of a node whose name, in title case, is `title`, whose
/// database lies at `path`, and which joins the chain `chain`.
pub open spec fn unit_text(title: Seq<char>, path: Seq<char>, chain: Seq<char>) -> Seq<char> {
    UNIT_HEAD@ + title + UNIT_AFTER_TITLE@ + path + UNIT_AFTER_PATH@ + chain + UNIT_AFTER_CHAIN@
        + title + UNIT_TAIL@
}

/// The unit file of every node names it, runs the node on its own database
/// and chain, and gives it its name: the text starts with the unit's
/// description, the title, and later holds ` --base-path `, the path,
/// ` --chain `, the chain and ` --port `, and then ` --name "`, the title
/// and `"`, whatever the title, path and chain are.
pub proof fn lemma_unit_text_parts(title: Seq<char>, path: Seq<char>, chain: Seq<char>)
    ensures
        exists|mid: Seq<char>, rest: Seq<char>, tail: Seq<char>|
            unit_text(title, path, chain) == "[Unit]\nDescription=Selendra@"@ + title + mid
                + " --base-path "@ + path + " --chain "@ + chain + " --port "@ + rest
                + " --name \""@ + title + "\""@ + tail,
{
    let mid = "\nAfter=network.target\nDocumentation=https://github.com/selendra/selendra\n\n[Service]\nExecStart=/usr/bin/selendra"@;
    let rest = "30333 --rpc-port 9934 --ws-port 9944 --prometheus-port 9616 --rpc-methods Unsafe --rpc-cors all --pruning archive --validator"@;
    let tail = " --bootnodes /ip4/157.245.56.213/tcp/30333/p2p/12D3KooWDLR899Spcx4xJ3U8cZttv9zjzJoey3HKaTZiNqwojZJB\nRestart=always\nRestartSec=120\n\n[Install]\nWantedBy=multi-user.target\n"@;
    reveal_strlit("\nAfter=network.target\nDocumentation=https://github.com/selendra/selendra\n\n[Service]\nExecStart=/usr/bin/selendra --base-path ");
    reveal_strlit("\nAfter=network.target\nDocumentation=https://github.com/selendra/selendra\n\n[Service]\nExecStart=/usr/bin/selendra");
    reveal_strlit(" --base-path ");
    reveal_strlit(" --port 30333 --rpc-port 9934 --ws-port 9944 --prometheus-port 9616 --rpc-methods Unsafe --rpc-cors all --pruning archive --validator --name \"");
    reveal_strlit(" --port ");
    reveal_strlit("30333 --rpc-port 9934 --ws-port 9944 --prometheus-port 9616 --rpc-methods Unsafe --rpc-cors all --pruning archive --validator");
    reveal_strlit(" --name \"");
    reveal_strlit("\" --bootnodes /ip4/157.245.56.213/tcp/30333/p2p/12D3KooWDLR899Spcx4xJ3U8cZttv9zjzJoey3HKaTZiNqwojZJB\nRestart=always\nRestartSec=120\n\n[Install]\nWantedBy=multi-user.target\n");
    reveal_strlit("\"");
    reveal_strlit(" --bootnodes /ip4/157.245.56.213/tcp/30333/p2p/12D3KooWDLR899Spcx4xJ3U8cZttv9zjzJoey3HKaTZiNqwojZJB\nRestart=always\nRestartSec=120\n\n[Install]\nWantedBy=multi-user.target\n");
    assert(UNIT_AFTER_TITLE@ =~= mid + " --base-path "@);
    assert(UNIT_AFTER_CHAIN@ =~= " --port "@ + rest + " --name \""@);
    assert(UNIT_TAIL@ =~= "\""@ + tail);
    assert(unit_text(title, path, chain) =~= "[Unit]\nDescription=Selendra@"@ + title + mid
        + " --base-path "@ + path + " --chain "@ + chain + " --port "@ + rest + " --name \""@
        + title + "\""@ + tail);
}

/// A file to write.
#[derive(Clone, Debug)]
pub struct FileWrite {
    pub path: String,
    pub contents: String,
}

pub struct FileWriteView {
    pub path: Seq<char>,
    pub contents: Seq<char>,
}

impl View for FileWrite {
    type V = FileWriteView;

    open spec fn view(&self) -> FileWriteView {
        FileWriteView { path: self.path@, contents: self.contents@ }
    }
}

/// A program to run, with its arguments.
#[derive(Clone, Debug)]
pub struct Invocation {
    pub program: String,
    pub args: Vec<String>,
}

pub struct InvocationView {
    pub program: Seq<char>,
    pub args: Seq<Seq<char>>,
}

impl View for Invocation {
    type V = InvocationView;

    open spec fn view(&self) -> InvocationView {
        InvocationView { program: self.program@, args: self.args@.map_values(|a: String| a@) }
    }
}

/// One piece of outside work.
#[derive(Clone, Debug)]
pub enum Step {
    /// Write the file; a failure ends the run with a panic.
    Write(FileWrite),
    /// Write the file; a failure is reported with the kind of the error, and the run goes on.
    WriteOrReport(FileWrite),
    /// Run the program with its output captured, as the check whether a unit
    /// is enabled; a failure to start it ends the run with a panic.
    Query(Invocation),
    /// Run the program attached to the terminal and wait for it; a failure to
    /// start it ends the run with a panic.
    Run(Invocation),
}

pub enum StepView {
    Write(FileWriteView),
    WriteOrReport(FileWriteView),
    Query(InvocationView),
    Run(InvocationView),
}

impl View for Step {
    type V = StepView;

    open spec fn view(&self) -> StepView {
        match self {
            Step::Write(w) => StepView::Write(w@),
            Step::WriteOrReport(w) => StepView::WriteOrReport(w@),
            Step::Query(i) => StepView::Query(i@),
            Step::Run(i) => StepView::Run(i@),
        }
    }
}

/// The views of a sequence of steps.
pub open spec fn step_views(steps: Seq<Step>) -> Seq<StepView> {
    steps.map_values(|s: Step| s@)
}

/// The unit file of the node, and where it goes.
pub open spec fn unit_write(n: NodeView, profile: Profile) -> FileWriteView {
    FileWriteView {
        path: unit_file(n.name, profile),
        contents: unit_text(case_converted(n.name, TextCase::Title), n.path, chain_arg(n.chain)),
    }
}

/// The check whether the node's unit is enabled.
pub open spec fn is_enabled_call(n: NodeView) -> InvocationView {
    InvocationView { program: "systemctl"@, args: seq!["is-enable"@, unit_name(n.name)] }
}

/// Enabling and starting the node's unit.
pub open spec fn enable_call(n: NodeView) -> InvocationView {
    InvocationView {
        program: "sudo"@,
        args: seq!["systemctl"@, "enable"@, "--now"@, unit_name(n.name)],
    }
}

/// Disabling and stopping the node's unit.
pub open spec fn disable_call(n: NodeView) -> InvocationView {
    InvocationView {
        program: "sudo"@,
        args: seq!["systemctl"@, "disable"@, "--now"@, unit_name(n.name)],
    }
}

/// Deleting the node's unit file.
pub open spec fn remove_unit_call(n: NodeView, profile: Profile) -> InvocationView {
    InvocationView {
        program: "sudo"@,
        args: seq!["rm"@, "-rf"@, "--now"@, unit_file(n.name, profile)],
    }
}

/// What enabling the node's service does.
pub open spec fn enable_steps(n: NodeView, profile: Profile) -> Seq<StepView> {
    seq![
        StepView::Query(is_enabled_call(n)),
        StepView::WriteOrReport(unit_write(n, profile)),
        StepView::Run(enable_call(n)),
    ]
}

/// What disabling the node's service does.
pub open spec fn disable_steps(n: NodeView, profile: Profile) -> Seq<StepView> {
    seq![
        StepView::Query(is_enabled_call(n)),
        StepView::Run(disable_call(n)),
        StepView::Run(remove_unit_call(n, profile)),
    ]
}

/// The unit file of a node whose name in title case is `title`, whose
/// database lies at `path`, and which joins the chain `chain`.
pub fn service_unit(title: &str, path: &str, chain: &str) -> (text: String)
    ensures
        text@ == unit_text(title@, path@, chain@),
{
    let mut text = UNIT_HEAD.to_owned();
    text.append(title);
    text.append(UNIT_AFTER_TITLE);
    text.append(path);
    text.append(UNIT_AFTER_PATH);
    text.append(chain);
    text.append(UNIT_AFTER_CHAIN);
    text.append(title);
    text.append(UNIT_TAIL);
    text
}

/// Whether the answer of `systemctl` says the unit is enabled: it must have
/// succeeded and printed exactly `enabled`.
pub fn unit_enabled(success: bool, stdout: &str) -> (r: bool)
    ensures
        r == (success && stdout@ == "enabled"@),
{
    if !success {
        return false;
    }
    crate::text::same_text(stdout, "enabled")
}

fn owned_args(a: &str, b: &str, c: &str, d: String) -> (v: Vec<String>)
    ensures
        v@.map_values(|s: String| s@) == seq![a@, b@, c@, d@],
{
    let v = vec![a.to_owned(), b.to_owned(), c.to_owned(), d];
    assert(v@.map_values(|s: String| s@) =~= seq![a@, b@, c@, d@]);
    v
}

impl Node {
    /// The name of the node's systemd unit.
    pub fn service_name(&self) -> (s: String)
        ensures
            s@ == unit_name(self.name@),
    {
        let mut s = UNIT_PREFIX.to_owned();
        s.append(self.name.as_str());
        s.append(UNIT_SUFFIX);
        s
    }

    /// The file that holds the node's systemd unit.
    pub fn service_file(&self, profile: Profile) -> (s: String)
        ensures
            s@ == unit_file(self.name@, profile),
    {
        match profile {
            Profile::Debug => self.service_name(),
            Profile::Release => {
                let mut s = SYSTEMD_DIR.to_owned();
                let name = self.service_name();
                s.append(name.as_str());
                s
            },
        }
    }

    /// The text of the node's systemd unit; the node's name is given in title
    /// case, and the node's chain as `--chain`.
    pub fn gen_service(&self) -> (s: String)
        ensures
            s@ == unit_text(
                case_converted(self.name@, TextCase::Title),
                self.path@,
                chain_arg(self.chain@),
            ),
    {
        let title = to_case(self.name.as_str(), TextCase::Title);
        service_unit(title.as_str(), self.path.as_str(), self.chain.cli_value())
    }

    /// The writing of the node's unit file.
    pub fn gen_service_file(&self, profile: Profile) -> (w: FileWrite)
        ensures
            w@ == unit_write(self@, profile),
    {
        FileWrite { path: self.service_file(profile), contents: self.gen_service() }
    }

    /// The program run to learn whether the node's unit is enabled.
    pub fn is_enabled_command(&self) -> (i: Invocation)
        ensures
            i@ == is_enabled_call(self@),
    {
        let args = vec!["is-enable".to_owned(), self.service_name()];
        assert(args@.map_values(|s: String| s@) =~= is_enabled_call(self@).args);
        Invocation { program: "systemctl".to_owned(), args }
    }

    /// Enabling the node's service: the enabled check, the unit file, and
    /// `systemctl enable --now`.
    pub fn enable_service(&self, profile: Profile) -> (steps: Vec<Step>)
        ensures
            step_views(steps@) == enable_steps(self@, profile),
    {
        let check = self.is_enabled_command();
        let unit = self.gen_service_file(profile);
        let args = owned_args("systemctl", "enable", "--now", self.service_name());
        let run = Invocation { program: "sudo".to_owned(), args };
        let steps = vec![Step::Query(check), Step::WriteOrReport(unit), Step::Run(run)];
        assert(step_views(steps@) =~= enable_steps(self@, profile));
        steps
    }

    /// Disabling the node's service: the enabled check, `systemctl disable
    /// --now`, and the removal of the unit file.
    pub fn disable_service(&self, profile: Profile) -> (steps: Vec<Step>)
        ensures
            step_views(steps@) == disable_steps(self@, profile),
    {
        let check = self.is_enabled_command();
        let args = owned_args("systemctl", "disable", "--now", self.service_name());
        let stop = Invocation { program: "sudo".to_owned(), args };
        let args = owned_args("rm", "-rf", "--now", self.service_file(profile));
        let remove = Invocation { program: "sudo".to_owned(), args };
        let steps = vec![Step::Query(check), Step::Run(stop), Step::Run(remove)];
        assert(step_views(steps@) =~= disable_steps(self@, profile));
        steps
    }
}

/// Disabling a node's service stops the unit that enabling it started, and
/// deletes the file that enabling it wrote.
pub proof fn lemma_disable_undoes_enable(n: NodeView, profile: Profile)
    ensures
        enable_steps(n, profile)[2] matches StepView::Run(on)
            && disable_steps(n, profile)[1] matches StepView::Run(off)
            && on.args.last() == off.args.last(),
        enable_steps(n, profile)[1] matches StepView::WriteOrReport(w)
            && disable_steps(n, profile)[2] matches StepView::Run(rm)
            && rm.args.last() == w.path,
{
}

} // verus!
