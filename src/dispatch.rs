//! Dispatch of one invocation: the gates before a command runs, the pre-hook that counts it,
//! and the replies of the commands that need nothing from the host.
use vstd::prelude::*;
use vstd::string::*;
use crate::counter::{bumped, bumped_order, count_of, report_text, UsageCounters};
use crate::registry::{
    claims, is_standard, resolved, standard_registry, CommandSpec, Handler, Registry, DEFAULT_OWNER,
};
use crate::text::{decimal, push_decimal};

verus! {

/// The user who invoked a command.
#[derive(Clone, Copy, Debug, PartialEq, Eq, Structural)]
pub struct Invoker {
    /// The user's id.
    pub id: u64,
    /// The permission bits that the user holds where the command was invoked.
    pub permissions: u64,
}

/// Why an invocation did not run its command.
#[derive(Clone, Copy, Debug, PartialEq, Eq, Structural)]
pub enum DispatchError {
    /// No command claims the token.
    UnknownCommand,
    /// The invoking user lacks a permission that the command requires.
    LackingPermissions,
    /// The command's bucket is exhausted; it may be tried again after this many seconds.
    RateLimited(u64),
    /// The command is for owners only and the invoking user is not one.
    CheckFailed,
}

/// What became of an invocation.
#[derive(Clone, Debug)]
pub enum Outcome {
    /// The command did not run.
    Rejected(DispatchError),
    /// The command ran and replies with this text.
    Replied(String),
    /// The command passed the gates and was counted; its handler needs the host (arguments,
    /// shard state) to answer.
    Delegated(Handler),
}

/// What the host found when it looked for the shard that carried a message.
#[derive(Clone, Debug)]
pub enum ShardLookup {
    /// Shared state holds no shard manager.
    NoManager,
    /// The shard manager has no runner for the shard.
    NoRunner,
    /// The runner's measured latency, as the host renders it.
    Latency(String),
}

/// Whether `granted` includes every bit of `required`.
pub open spec fn has_permissions(granted: u64, required: u64) -> bool {
    granted & required == required
}

/// Why `who` may not run `c` now, if there is a reason: a missing permission first, then an
/// exhausted bucket (`wait`, the delay that the bucket imposes, counts only for a command that
/// draws from one), then the owner check.
pub open spec fn rejection(c: CommandSpec, owners: Seq<u64>, who: Invoker, wait: Option<u64>) -> Option<
    DispatchError,
> {
    if !has_permissions(who.permissions, c.required_permissions) {
        Some(DispatchError::LackingPermissions)
    } else if c.bucket is Some && wait is Some {
        Some(DispatchError::RateLimited(wait->0))
    } else if c.owner_only && !owners.contains(who.id) {
        Some(DispatchError::CheckFailed)
    } else {
        None
    }
}

/// The reply of a handler that needs nothing from the host, given the counters that it sees.
pub open spec fn handler_reply(
    h: Handler,
    order: Seq<Seq<char>>,
    counts: Map<Seq<char>, nat>,
) -> Option<Seq<char>> {
    match h {
        Handler::About => Some("This is a small test-bot! : )"@),
        Handler::Ping => Some("Pong! :panda_face:"@),
        Handler::Cat => Some(":cat:"@),
        Handler::Dog => Some(":dog:"@),
        Handler::Commands => Some(report_text(order, counts)),
        _ => None,
    }
}

/// The notice for a rejected invocation: only a rate limit is answered.
pub open spec fn rejection_notice(e: DispatchError) -> Option<Seq<char>> {
    match e {
        DispatchError::RateLimited(s) => Some(
            "Try this again in "@ + decimal(s as nat) + " seconds."@,
        ),
        _ => None,
    }
}

/// The reply of the latency command.
pub open spec fn latency_text(l: ShardLookup) -> Seq<char> {
    match l {
        ShardLookup::NoManager => "There was a problem getting the shard manager"@,
        ShardLookup::NoRunner => "No shard found"@,
        ShardLookup::Latency(t) => "The shard latency is "@ + t@,
    }
}

/// What one invocation of `token` by `who` does, where `wait` is the delay that the bucket
/// accounting imposes on it, if any: an unknown token or a rejected invocation changes nothing
/// and reports why; otherwise the command's canonical name is counted, and the handler replies,
/// seeing the new counts, or is left to the host.
pub open spec fn dispatched(
    cmds: Seq<CommandSpec>,
    owners: Seq<u64>,
    token: Seq<char>,
    who: Invoker,
    wait: Option<u64>,
    before: UsageCounters,
    after: UsageCounters,
    r: Outcome,
) -> bool {
    match resolved(cmds, token) {
        None => r == Outcome::Rejected(DispatchError::UnknownCommand) && after == before,
        Some(c) => match rejection(c, owners, who, wait) {
            Some(e) => r == Outcome::Rejected(e) && after == before,
            None => {
                &&& after.view() == bumped(before.view(), c.name@)
                &&& after.order() == bumped_order(before.order(), c.name@)
                &&& match handler_reply(c.handler, after.order(), after.view()) {
                    Some(t) => r matches Outcome::Replied(s) && s@ == t,
                    None => r == Outcome::Delegated(c.handler),
                }
            },
        },
    }
}

/// The reply of `handler` where it needs nothing from the host but the counters; `None` for
/// the handlers that the host answers.
pub fn handler_text(handler: Handler, counters: &UsageCounters) -> (r: Option<String>)
    requires
        counters.wf(),
    ensures
        match r {
            Some(s) => handler_reply(handler, counters.order(), counters.view()) == Some(s@),
            None => handler_reply(handler, counters.order(), counters.view()) is None,
        },
{
    match handler {
        Handler::About => Some("This is a small test-bot! : )".to_owned()),
        Handler::Ping => Some("Pong! :panda_face:".to_owned()),
        Handler::Cat => Some(":cat:".to_owned()),
        Handler::Dog => Some(":dog:".to_owned()),
        Handler::Commands => Some(counters.report()),
        _ => None,
    }
}

/// Every counted name is the canonical name of a command of `cmds`.
pub open spec fn counts_registered(cmds: Seq<CommandSpec>, counts: Map<Seq<char>, nat>) -> bool {
    forall|n: Seq<char>|
        #[trigger] counts.contains_key(n) ==> exists|i: int| 0 <= i < cmds.len() && cmds[i].name@ == n
}

/// Whether `id` is one of `owners`.
pub fn owner_check(owners: &Vec<u64>, id: u64) -> (r: bool)
    ensures
        r == owners@.contains(id),
{
    let mut i: usize = 0;
    while i < owners.len()
        invariant
            i <= owners@.len(),
            forall|j: int| 0 <= j < i ==> owners@[j] != id,
        decreases owners@.len() - i,
    {
        if owners[i] == id {
            assert(owners@[i as int] == id);
            return true;
        }
        i = i + 1;
    }
    false
}

/// Whether `granted` includes every bit of `required`.
pub fn permits(granted: u64, required: u64) -> (r: bool)
    ensures
        r == has_permissions(granted, required),
{
    granted & required == required
}

/// The notice to send for a rejected invocation: a rate limit is answered with the delay in
/// seconds, every other rejection with nothing.
pub fn dispatch_error_reply(e: DispatchError) -> (r: Option<String>)
    ensures
        match r {
            Some(s) => rejection_notice(e) == Some(s@),
            None => rejection_notice(e) is None,
        },
{
    match e {
        DispatchError::RateLimited(seconds) => {
            let mut s = "Try this again in ".to_owned();
            push_decimal(&mut s, seconds);
            s.append(" seconds.");
            Some(s)
        },
        _ => None,
    }
}

/// The reply of the latency command for what the host found.
pub fn latency_reply(lookup: &ShardLookup) -> (r: String)
    ensures
        r@ == latency_text(*lookup),
{
    match lookup {
        ShardLookup::NoManager => "There was a problem getting the shard manager".to_owned(),
        ShardLookup::NoRunner => "No shard found".to_owned(),
        ShardLookup::Latency(t) => {
            let mut s = "The shard latency is ".to_owned();
            s.append(t.as_str());
            s
        },
    }
}

/// A bot's command state: its commands, their usage counts and its owners.
pub struct Bot {
    pub registry: Registry,
    pub counters: UsageCounters,
    pub owners: Vec<u64>,
}

impl Bot {
    pub open spec fn wf(&self) -> bool {
        self.registry.wf() && self.counters.wf()
    }

    /// A bot with these commands and owners, nothing counted yet.
    pub fn new(registry: Registry, owners: Vec<u64>) -> (r: Bot)
        requires
            registry.wf(),
        ensures
            r.wf(),
            r.registry == registry,
            r.owners == owners,
            r.counters.view() == Map::<Seq<char>, nat>::empty(),
            r.counters.order() == Seq::<Seq<char>>::empty(),
    {
        Bot { registry, counters: UsageCounters::new(), owners }
    }

    /// The bot's own commands, with the default owner as its only owner.
    pub fn standard() -> (r: Bot)
        ensures
            r.wf(),
            is_standard(r.registry.commands()),
            r.owners@ == seq![DEFAULT_OWNER],
            r.counters.view() == Map::<Seq<char>, nat>::empty(),
            r.counters.order() == Seq::<Seq<char>>::empty(),
    {
        let mut owners: Vec<u64> = Vec::new();
        owners.push(DEFAULT_OWNER);
        assert(owners@ =~= seq![DEFAULT_OWNER]);
        Bot::new(standard_registry(), owners)
    }

    /// The pre-hook: counts one use of `command_name` and lets the command proceed.
    pub fn before(&mut self, command_name: &str) -> (r: bool)
        requires
            old(self).wf(),
            count_of(old(self).counters.view(), command_name@) < u64::MAX,
        ensures
            r,
            final(self).wf(),
            final(self).registry == old(self).registry,
            final(self).owners == old(self).owners,
            final(self).counters.view() == bumped(old(self).counters.view(), command_name@),
            final(self).counters.order() == bumped_order(old(self).counters.order(), command_name@),
    {
        self.counters.increment(command_name);
        true
    }

    /// Runs one invocation of `token` by `who`: resolves the token, applies the gates, counts
    /// the command through the pre-hook and answers for the handlers that need nothing from the
    /// host. `wait` is the delay that the bucket accounting imposes on this invocation, if any.
    pub fn dispatch(&mut self, token: &str, who: Invoker, wait: Option<u64>) -> (r: Outcome)
        requires
            old(self).wf(),
            old(self).counters.below_limit(),
        ensures
            final(self).wf(),
            final(self).registry == old(self).registry,
            final(self).owners == old(self).owners,
            dispatched(
                old(self).registry.commands(),
                old(self).owners@,
                token@,
                who,
                wait,
                old(self).counters,
                final(self).counters,
                r,
            ),
            counts_registered(old(self).registry.commands(), old(self).counters.view())
                ==> counts_registered(final(self).registry.commands(), final(self).counters.view()),
    {
        let (name, handler, required, has_bucket, owner_only) = match self.registry.resolve(token) {
            None => return Outcome::Rejected(DispatchError::UnknownCommand),
            Some(c) => (c.name.clone(), c.handler, c.required_permissions, c.bucket.is_some(), c.owner_only),
        };
        if !permits(who.permissions, required) {
            return Outcome::Rejected(DispatchError::LackingPermissions);
        }
        if has_bucket {
            if let Some(seconds) = wait {
                return Outcome::Rejected(DispatchError::RateLimited(seconds));
            }
        }
        if owner_only && !owner_check(&self.owners, who.id) {
            return Outcome::Rejected(DispatchError::CheckFailed);
        }
        self.before(name.as_str());
        proof {
            let cmds = self.registry.commands();
            let j = choose|j: int| 0 <= j < cmds.len() && claims(#[trigger] cmds[j], token@);
            assert(cmds[j].name@ == name@);
        }
        match handler_text(handler, &self.counters) {
            Some(text) => Outcome::Replied(text),
            None => Outcome::Delegated(handler),
        }
    }
}

} // verus!
