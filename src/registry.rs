//! The command registry: each command's name, aliases and metadata, with the rule that no
//! two commands claim the same invocation token.
use vstd::prelude::*;
use vstd::string::*;

verus! {

/// The permission bit of an administrator.
pub const ADMINISTRATOR: u64 = 8;

/// The id of the user that the owner-only commands accept by default.
pub const DEFAULT_OWNER: u64 = 6712;

/// Which handler runs when a command is invoked.
#[derive(Clone, Copy, Debug, PartialEq, Eq, Structural)]
pub enum Handler {
    About,
    Commands,
    Cat,
    Dog,
    Multiply,
    Latency,
    Ping,
    SomeLongCommand,
}

/// A registered command.
#[derive(Clone, Debug)]
pub struct CommandSpec {
    /// The canonical name, under which uses are counted.
    pub name: String,
    /// Other tokens that invoke the command.
    pub aliases: Vec<String>,
    /// A line for the help listing.
    pub description: Option<String>,
    /// The permission bits that the invoking user must hold, all of them.
    pub required_permissions: u64,
    /// The rate-limit bucket that the command draws from.
    pub bucket: Option<String>,
    /// Whether only an owner may invoke the command.
    pub owner_only: bool,
    /// What runs on invocation.
    pub handler: Handler,
}

/// A named rate-limit policy, enforced by the chat framework for the commands that draw from it.
#[derive(Clone, Debug)]
pub struct BucketSpec {
    pub name: String,
    /// Seconds that must pass between two uses by one user.
    pub delay: u64,
    /// Seconds of the window in which `limit` uses are allowed, if the bucket has a window.
    pub time_span: u64,
    /// Uses allowed per window.
    pub limit: u32,
}

/// Why a command could not be registered.
#[derive(Clone, Debug)]
pub enum ConfigError {
    /// The token, a name or an alias of the new command, is already claimed.
    DuplicateCommandName(String),
}

/// Whether invoking `t` selects `c`: `t` is its name or one of its aliases.
pub open spec fn claims(c: CommandSpec, t: Seq<char>) -> bool {
    c.name@ == t || exists|k: int| 0 <= k < c.aliases@.len() && (#[trigger] c.aliases@[k])@ == t
}

/// Whether some command of `cmds` claims `t`.
pub open spec fn taken(cmds: Seq<CommandSpec>, t: Seq<char>) -> bool {
    exists|i: int| 0 <= i < cmds.len() && claims(#[trigger] cmds[i], t)
}

/// Whether a token of `c`, its name or an alias, is already claimed in `cmds`.
pub open spec fn collides(cmds: Seq<CommandSpec>, c: CommandSpec) -> bool {
    taken(cmds, c.name@) || exists|k: int|
        0 <= k < c.aliases@.len() && taken(cmds, (#[trigger] c.aliases@[k])@)
}

/// No token is claimed by two commands.
pub open spec fn tokens_unique(cmds: Seq<CommandSpec>) -> bool {
    forall|i: int, j: int, t: Seq<char>|
        0 <= i < cmds.len() && 0 <= j < cmds.len() && i != j && #[trigger] claims(cmds[i], t)
            ==> !#[trigger] claims(cmds[j], t)
}

/// The command that `t` selects in `cmds`, if any.
pub open spec fn resolved(cmds: Seq<CommandSpec>, t: Seq<char>) -> Option<CommandSpec> {
    if taken(cmds, t) {
        Some(cmds[choose|i: int| 0 <= i < cmds.len() && claims(#[trigger] cmds[i], t)])
    } else {
        None
    }
}

/// The commands that a bot answers to.
pub struct Registry {
    commands: Vec<CommandSpec>,
}

impl Registry {
    /// The registered commands, in the order of registration.
    pub closed spec fn commands(&self) -> Seq<CommandSpec> {
        self.commands@
    }

    /// No two registered commands claim the same token.
    pub open spec fn wf(&self) -> bool {
        tokens_unique(self.commands())
    }

    /// A registry without commands.
    pub fn new() -> (r: Registry)
        ensures
            r.wf(),
            r.commands() == Seq::<CommandSpec>::empty(),
    {
        let r = Registry { commands: Vec::new() };
        assert(r.commands() =~= Seq::<CommandSpec>::empty());
        r
    }

    fn claims_token(c: &CommandSpec, t: &String) -> (r: bool)
        ensures
            r == claims(*c, t@),
    {
        if c.name == *t {
            return true;
        }
        let mut k: usize = 0;
        while k < c.aliases.len()
            invariant
                k <= c.aliases@.len(),
                forall|j: int| 0 <= j < k ==> (#[trigger] c.aliases@[j])@ != t@,
            decreases c.aliases@.len() - k,
        {
            if c.aliases[k] == *t {
                return true;
            }
            k = k + 1;
        }
        false
    }

    fn find(&self, t: &String) -> (r: Option<usize>)
        ensures
            match r {
                Some(i) => i < self.commands().len() && claims(self.commands()[i as int], t@),
                None => !taken(self.commands(), t@),
            },
    {
        let mut i: usize = 0;
        while i < self.commands.len()
            invariant
                i <= self.commands@.len(),
                forall|j: int| 0 <= j < i ==> !claims(#[trigger] self.commands@[j], t@),
            decreases self.commands@.len() - i,
        {
            if Self::claims_token(&self.commands[i], t) {
                return Some(i);
            }
            i = i + 1;
        }
        None
    }

    /// Looks `token` up among the names and aliases, by exact match.
    pub fn resolve(&self, token: &str) -> (r: Option<&CommandSpec>)
        requires
            self.wf(),
        ensures
            match r {
                Some(c) => resolved(self.commands(), token@) == Some(*c),
                None => resolved(self.commands(), token@) is None,
            },
    {
        let t = token.to_owned();
        match self.find(&t) {
            Some(i) => {
                let ghost j = choose|j: int|
                    0 <= j < self.commands().len() && claims(#[trigger] self.commands()[j], t@);
                assert(j == i);
                Some(&self.commands[i])
            },
            None => None,
        }
    }

    /// Adds `spec`, unless one of its tokens is already claimed: then the registry is left as
    /// it was and the claimed token is reported.
    pub fn register(&mut self, spec: CommandSpec) -> (r: Result<(), ConfigError>)
        requires
            old(self).wf(),
        ensures
            final(self).wf(),
            r is Err <==> collides(old(self).commands(), spec),
            r is Err ==> final(self).commands() == old(self).commands(),
            r is Ok ==> final(self).commands() == old(self).commands().push(spec),
            r matches Err(ConfigError::DuplicateCommandName(t)) ==> claims(spec, t@) && taken(
                old(self).commands(),
                t@,
            ),
    {
        if let Some(_) = self.find(&spec.name) {
            return Err(ConfigError::DuplicateCommandName(spec.name.clone()));
        }
        let mut k: usize = 0;
        while k < spec.aliases.len()
            invariant
                k <= spec.aliases@.len(),
                self.wf(),
                self.commands() == old(self).commands(),
                !taken(self.commands(), spec.name@),
                forall|j: int| 0 <= j < k ==> !taken(self.commands(), (#[trigger] spec.aliases@[j])@),
            decreases spec.aliases@.len() - k,
        {
            if let Some(_) = self.find(&spec.aliases[k]) {
                let t = spec.aliases[k].clone();
                assert(claims(spec, t@));
                return Err(ConfigError::DuplicateCommandName(t));
            }
            k = k + 1;
        }
        assert(!collides(self.commands(), spec));
        let ghost before = self.commands();
        self.commands.push(spec);
        proof {
            let cmds = self.commands();
            assert(cmds =~= before.push(spec));
            assert forall|i: int, j: int, t: Seq<char>|
                0 <= i < cmds.len() && 0 <= j < cmds.len() && i != j && #[trigger] claims(cmds[i], t)
                    implies !#[trigger] claims(cmds[j], t) by {
                if i == before.len() as int && claims(cmds[j], t) {
                    assert(cmds[j] == before[j]);
                    assert(taken(before, t));
                    if spec.name@ != t {
                        let k = choose|k: int| 0 <= k < spec.aliases@.len() && (#[trigger] spec.aliases@[k])@ == t;
                        assert(taken(before, spec.aliases@[k]@));
                    }
                } else if j == before.len() as int && claims(cmds[j], t) {
                    assert(cmds[i] == before[i]);
                    assert(taken(before, t));
                    if spec.name@ != t {
                        let k = choose|k: int| 0 <= k < spec.aliases@.len() && (#[trigger] spec.aliases@[k])@ == t;
                        assert(taken(before, spec.aliases@[k]@));
                    }
                } else if claims(cmds[j], t) {
                    assert(cmds[i] == before[i]);
                    assert(cmds[j] == before[j]);
                }
            }
        }
        Ok(())
    }
}

/// The bot's buckets: `emoji`, one use per five seconds; `complicated`, five seconds apart and
/// at most two uses in thirty seconds.
pub fn standard_buckets() -> (r: Vec<BucketSpec>)
    ensures
        r@.len() == 2,
        r@[0].name@ == "emoji"@ && r@[0].delay == 5 && r@[0].time_span == 0 && r@[0].limit == 1,
        r@[1].name@ == "complicated"@ && r@[1].delay == 5 && r@[1].time_span == 30 && r@[1].limit
            == 2,
{
    let mut r: Vec<BucketSpec> = Vec::new();
    r.push(BucketSpec { name: "emoji".to_owned(), delay: 5, time_span: 0, limit: 1 });
    r.push(BucketSpec { name: "complicated".to_owned(), delay: 5, time_span: 30, limit: 2 });
    r
}

/// A command named `name` that runs `handler`, with no aliases, description, required
/// permission or bucket, open to every user.
pub fn command(name: &str, handler: Handler) -> (c: CommandSpec)
    ensures
        c.name@ == name@,
        c.aliases@.len() == 0,
        c.description is None,
        c.required_permissions == 0,
        c.bucket is None,
        !c.owner_only,
        c.handler == handler,
{
    CommandSpec {
        name: name.to_owned(),
        aliases: Vec::new(),
        description: None,
        required_permissions: 0,
        bucket: None,
        owner_only: false,
        handler,
    }
}

/// `cmds` are the bot's own commands, as `standard_registry` builds them.
pub open spec fn is_standard(cmds: Seq<CommandSpec>) -> bool {
    &&& cmds.len() == 8
    &&& cmds[0].name@ == "about"@ && cmds[0].handler == Handler::About
    &&& cmds[1].name@ == "commands"@ && cmds[1].handler == Handler::Commands
    &&& cmds[1].bucket matches Some(b) && b@ == "complicated"@
    &&& cmds[2].name@ == "cat"@ && cmds[2].handler == Handler::Cat
    &&& cmds[2].aliases@.len() == 2 && cmds[2].aliases@[0]@ == "kitty"@
        && cmds[2].aliases@[1]@ == "neko"@
    &&& cmds[2].description matches Some(d) && d@ == "Sends an emoji with a cat."@
    &&& cmds[2].required_permissions == ADMINISTRATOR
    &&& cmds[2].bucket matches Some(b) && b@ == "emoji"@
    &&& cmds[3].name@ == "dog"@ && cmds[3].handler == Handler::Dog
    &&& cmds[3].description matches Some(d) && d@ == "Sends an emoji with a dog."@
    &&& cmds[3].bucket matches Some(b) && b@ == "emoji"@
    &&& cmds[4].name@ == "multiply"@ && cmds[4].handler == Handler::Multiply
    &&& cmds[4].aliases@.len() == 1 && cmds[4].aliases@[0]@ == "*"@
    &&& cmds[5].name@ == "latency"@ && cmds[5].handler == Handler::Latency
    &&& cmds[6].name@ == "ping"@ && cmds[6].handler == Handler::Ping
    &&& cmds[6].owner_only
    &&& cmds[7].name@ == "some long command"@ && cmds[7].handler == Handler::SomeLongCommand
    &&& forall|i: int| 0 <= i < 8 && i != 6 ==> !(#[trigger] cmds[i]).owner_only
    &&& forall|i: int| 0 <= i < 8 && i != 2 ==> (#[trigger] cmds[i]).required_permissions == 0
}

/// The bot's own commands: `about`; `commands`, drawing from the bucket `complicated`; `cat`,
/// also `kitty` and `neko`, for administrators, and `dog`, both drawing from the bucket `emoji`;
/// `multiply`, also `*`; `latency`; `ping`, for owners only; and `some long command`.
pub fn standard_registry() -> (r: Registry)
    ensures
        r.wf(),
        is_standard(r.commands()),
{
    proof {
        reveal_strlit("about");
        reveal_strlit("commands");
        reveal_strlit("complicated");
        reveal_strlit("cat");
        reveal_strlit("kitty");
        reveal_strlit("neko");
        reveal_strlit("emoji");
        reveal_strlit("Sends an emoji with a cat.");
        reveal_strlit("dog");
        reveal_strlit("Sends an emoji with a dog.");
        reveal_strlit("multiply");
        reveal_strlit("*");
        reveal_strlit("latency");
        reveal_strlit("ping");
        reveal_strlit("some long command");
    }
    assert("about"@.len() == 5 && "about"@[0] == 'a');
    assert("commands"@.len() == 8 && "commands"@[0] == 'c');
    assert("cat"@.len() == 3 && "cat"@[0] == 'c');
    assert("kitty"@.len() == 5 && "kitty"@[0] == 'k');
    assert("neko"@.len() == 4 && "neko"@[0] == 'n');
    assert("dog"@.len() == 3 && "dog"@[0] == 'd');
    assert("multiply"@.len() == 8 && "multiply"@[0] == 'm');
    assert("*"@.len() == 1);
    assert("latency"@.len() == 7);
    assert("ping"@.len() == 4 && "ping"@[0] == 'p');
    assert("some long command"@.len() == 17);
    let mut r = Registry::new();
    let about = command("about", Handler::About);
    let _ = r.register(about);
    assert(r.commands().len() == 1);

    let mut commands = command("commands", Handler::Commands);
    commands.bucket = Some("complicated".to_owned());
    let _ = r.register(commands);
    assert(r.commands().len() == 2);

    let mut cat = command("cat", Handler::Cat);
    cat.aliases.push("kitty".to_owned());
    cat.aliases.push("neko".to_owned());
    cat.description = Some("Sends an emoji with a cat.".to_owned());
    cat.bucket = Some("emoji".to_owned());
    cat.required_permissions = ADMINISTRATOR;
    let _ = r.register(cat);
    assert(r.commands().len() == 3);

    let mut dog = command("dog", Handler::Dog);
    dog.description = Some("Sends an emoji with a dog.".to_owned());
    dog.bucket = Some("emoji".to_owned());
    let _ = r.register(dog);
    assert(r.commands().len() == 4);

    let mut multiply = command("multiply", Handler::Multiply);
    multiply.aliases.push("*".to_owned());
    let _ = r.register(multiply);
    assert(r.commands().len() == 5);

    let latency = command("latency", Handler::Latency);
    let _ = r.register(latency);
    assert(r.commands().len() == 6);

    let mut ping = command("ping", Handler::Ping);
    ping.owner_only = true;
    let _ = r.register(ping);
    assert(r.commands().len() == 7);

    let long = command("some long command", Handler::SomeLongCommand);
    let _ = r.register(long);
    r
}

} // verus!
