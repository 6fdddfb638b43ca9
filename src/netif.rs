//! The interface setup: assign the address, bring the link up, add the route,
//! strictly in that order, stopping at the first command that fails. The
//! caller runs each command this machine hands out and reports how it went.

use vstd::prelude::*;
use crate::addr::{address_text, cidr_text, ipv4_text, network_text, Cidr, Ipv4};

verus! {

/// One step of the interface setup.
#[derive(Clone, Copy, Debug, PartialEq, Eq, Structural)]
pub enum SetupStep {
    AssignAddress,
    LinkUp,
    AddRoute,
}

/// An external command: program and arguments.
#[derive(Debug)]
pub struct IpCommand {
    pub program: String,
    pub args: Vec<String>,
}

/// How a command ended: its status and what it printed.
#[derive(Debug)]
pub struct CommandOutput {
    pub success: bool,
    pub stdout: Vec<u8>,
    pub stderr: Vec<u8>,
}

/// A failed step, with the failing command's output verbatim.
#[derive(Debug)]
pub struct CommandError {
    pub step: SetupStep,
    pub stdout: Vec<u8>,
    pub stderr: Vec<u8>,
}

/// The steps in the order they run.
pub open spec fn step_at(i: nat) -> SetupStep {
    if i == 0 {
        SetupStep::AssignAddress
    } else if i == 1 {
        SetupStep::LinkUp
    } else {
        SetupStep::AddRoute
    }
}

/// The arguments of `ip` for a step.
pub open spec fn step_args(name: Seq<char>, address: Ipv4, network: Cidr, step: SetupStep) -> Seq<
    Seq<char>,
> {
    match step {
        SetupStep::AssignAddress => seq!["addr"@, "replace"@, ipv4_text(address), "dev"@, name],
        SetupStep::LinkUp => seq!["link"@, "set"@, name, "up"@],
        SetupStep::AddRoute => seq!["route"@, "add"@, cidr_text(network), "dev"@, name],
    }
}

/// The setup of one interface, from the first step to success or the first
/// failure.
pub struct IpSetup {
    tun_name: String,
    address: Ipv4,
    network: Cidr,
    completed: usize,
    failure: Option<CommandError>,
}

impl IpSetup {
    pub closed spec fn name_spec(&self) -> Seq<char> {
        self.tun_name@
    }

    pub closed spec fn address_spec(&self) -> Ipv4 {
        self.address
    }

    pub closed spec fn network_spec(&self) -> Cidr {
        self.network
    }

    /// How many steps have succeeded.
    pub closed spec fn completed_spec(&self) -> nat {
        self.completed as nat
    }

    /// The failed step, once one has failed.
    pub closed spec fn failure_spec(&self) -> Option<CommandError> {
        self.failure
    }

    pub closed spec fn wf(&self) -> bool {
        &&& self.completed <= 3
        &&& self.network.wf()
    }

    /// The step to run next: none after a failure or after the last step.
    pub open spec fn next_step(&self) -> Option<SetupStep> {
        if self.failure_spec() is Some || self.completed_spec() >= 3 {
            None
        } else {
            Some(step_at(self.completed_spec()))
        }
    }

    /// The command for the next step, if any.
    pub fn next_command(&self) -> (r: Option<IpCommand>)
        requires
            self.wf(),
        ensures
            match self.next_step() {
                None => r is None,
                Some(step) => r matches Some(c) && c.program@ == "ip"@ && c.args@.map_values(
                    |a: String| a@,
                ) == step_args(self.name_spec(), self.address_spec(), self.network_spec(), step),
            },
    {
        if self.failure.is_some() || self.completed >= 3 {
            return None;
        }
        let mut args: Vec<String> = Vec::new();
        let ghost name = self.tun_name@;
        if self.completed == 0 {
            args.push("addr".to_owned());
            args.push("replace".to_owned());
            args.push(address_text(self.address));
            args.push("dev".to_owned());
            args.push(self.tun_name.clone());
        } else if self.completed == 1 {
            args.push("link".to_owned());
            args.push("set".to_owned());
            args.push(self.tun_name.clone());
            args.push("up".to_owned());
        } else {
            args.push("route".to_owned());
            args.push("add".to_owned());
            args.push(network_text(self.network));
            args.push("dev".to_owned());
            args.push(self.tun_name.clone());
        }
        let ghost want = step_args(name, self.address, self.network, step_at(self.completed as nat));
        assert(args@.map_values(|a: String| a@) =~= want);
        Some(IpCommand { program: "ip".to_owned(), args })
    }

    /// Records how the command of the next step ended.
    pub fn record(&mut self, out: CommandOutput)
        requires
            old(self).wf(),
            old(self).next_step() is Some,
        ensures
            final(self).wf(),
            record_outcome(*old(self), out, *final(self)),
    {
        let step = if self.completed == 0 {
            SetupStep::AssignAddress
        } else if self.completed == 1 {
            SetupStep::LinkUp
        } else {
            SetupStep::AddRoute
        };
        if out.success {
            self.completed = self.completed + 1;
        } else {
            self.failure = Some(CommandError { step, stdout: out.stdout, stderr: out.stderr });
        }
    }

    /// The result once no step is left: `Ok` when all three succeeded, else
    /// the first failure.
    pub fn finish(self) -> (r: Result<(), CommandError>)
        requires
            self.next_step() is None,
        ensures
            match self.failure_spec() {
                Some(e) => r == Err::<(), CommandError>(e),
                None => r is Ok && self.completed_spec() >= 3,
            },
    {
        match self.failure {
            Some(e) => Err(e),
            None => Ok(()),
        }
    }
}

/// What recording `out` for the next step does: on success one more step is
/// done, on failure the step is recorded with the command's output verbatim.
pub open spec fn record_outcome(before: IpSetup, out: CommandOutput, after: IpSetup) -> bool {
    &&& after.name_spec() == before.name_spec()
    &&& after.address_spec() == before.address_spec()
    &&& after.network_spec() == before.network_spec()
    &&& if out.success {
        after.completed_spec() == before.completed_spec() + 1 && after.failure_spec() is None
    } else {
        after.completed_spec() == before.completed_spec() && after.failure_spec() == Some(
            CommandError { step: before.next_step()->0, stdout: out.stdout, stderr: out.stderr },
        )
    }
}

/// Plans the setup of interface `tun_name`: address `ip`, link up, and a route
/// for `cidr` through it. Nothing has run yet.
pub fn setup_ip(tun_name: &str, ip: Ipv4, cidr: Cidr) -> (r: IpSetup)
    requires
        cidr.wf(),
    ensures
        r.wf(),
        r.name_spec() == tun_name@,
        r.address_spec() == ip,
        r.network_spec() == cidr,
        r.next_step() == Some(SetupStep::AssignAddress),
{
    IpSetup { tun_name: tun_name.to_owned(), address: ip, network: cidr, completed: 0, failure: None }
}

/// Once a step fails no further command is handed out: after a failed
/// link-up the route is never added.
pub proof fn lemma_failure_stops(before: IpSetup, out: CommandOutput, after: IpSetup)
    requires
        before.next_step() is Some,
        !out.success,
        record_outcome(before, out, after),
    ensures
        after.next_step() is None,
        after.failure_spec() matches Some(e) && e.step == before.next_step()->0,
{
}

/// The steps come in order: each success moves to the following step, and
/// the route comes only after the link is up.
pub proof fn lemma_steps_in_order(before: IpSetup, out: CommandOutput, after: IpSetup)
    requires
        before.next_step() is Some,
        out.success,
        record_outcome(before, out, after),
    ensures
        before.next_step() == Some(SetupStep::AssignAddress) ==> after.next_step() == Some(
            SetupStep::LinkUp,
        ),
        before.next_step() == Some(SetupStep::LinkUp) ==> after.next_step() == Some(
            SetupStep::AddRoute,
        ),
        before.next_step() == Some(SetupStep::AddRoute) ==> after.next_step() is None,
{
}

} // verus!
