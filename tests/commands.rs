use bot_commands::counter::UsageCounters;
use bot_commands::dispatch::{
    dispatch_error_reply, handler_text, latency_reply, owner_check, permits, Bot, DispatchError,
    Invoker, Outcome, ShardLookup,
};
use bot_commands::registry::{
    command, standard_buckets, standard_registry, CommandSpec, ConfigError, Handler, Registry,
    ADMINISTRATOR, DEFAULT_OWNER,
};
use bot_commands::text::decimal_string;

fn owner() -> Invoker {
    Invoker { id: DEFAULT_OWNER, permissions: 0 }
}

fn stranger() -> Invoker {
    Invoker { id: 42, permissions: 0 }
}

fn replied(o: Outcome) -> String {
    match o {
        Outcome::Replied(s) => s,
        other => panic!("expected a reply, got {:?}", other),
    }
}

fn rejected(o: Outcome) -> DispatchError {
    match o {
        Outcome::Rejected(e) => e,
        other => panic!("expected a rejection, got {:?}", other),
    }
}

#[test]
fn resolve_finds_names_and_aliases() {
    let r = standard_registry();
    let ping = r.resolve("ping").expect("ping is registered");
    assert_eq!(ping.name, "ping");
    assert_eq!(ping.handler, Handler::Ping);
    assert!(ping.owner_only);
    let star = r.resolve("*").expect("* is an alias");
    assert_eq!(star.name, "multiply");
    assert_eq!(star.handler, Handler::Multiply);
    let neko = r.resolve("neko").expect("neko is an alias");
    assert_eq!(neko.name, "cat");
    assert_eq!(neko.required_permissions, ADMINISTRATOR);
    assert_eq!(neko.bucket.as_deref(), Some("emoji"));
}

#[test]
fn resolve_unknown_token_is_none() {
    let r = standard_registry();
    assert!(r.resolve("pong").is_none());
    assert!(r.resolve("Ping").is_none());
    assert!(r.resolve("").is_none());
}

#[test]
fn duplicate_name_is_refused_and_registry_unchanged() {
    let mut r = Registry::new();
    assert!(r.register(command("ping", Handler::Ping)).is_ok());
    let second = command("ping", Handler::About);
    match r.register(second) {
        Err(ConfigError::DuplicateCommandName(t)) => assert_eq!(t, "ping"),
        Ok(()) => panic!("a second ping was accepted"),
    }
    assert_eq!(r.resolve("ping").unwrap().handler, Handler::Ping);
    assert!(r.resolve("about").is_none());
}

#[test]
fn overlapping_alias_is_refused_and_registry_unchanged() {
    let mut r = Registry::new();
    let mut multiply = command("multiply", Handler::Multiply);
    multiply.aliases.push("*".to_string());
    assert!(r.register(multiply).is_ok());
    let mut times: CommandSpec = command("times", Handler::About);
    times.aliases.push("x".to_string());
    times.aliases.push("*".to_string());
    match r.register(times) {
        Err(ConfigError::DuplicateCommandName(t)) => assert_eq!(t, "*"),
        Ok(()) => panic!("an overlapping alias was accepted"),
    }
    assert!(r.resolve("times").is_none());
    assert!(r.resolve("x").is_none());
    assert_eq!(r.resolve("*").unwrap().name, "multiply");
    let alias_as_name = command("multiply", Handler::Dog);
    assert!(r.register(alias_as_name).is_err());
    let name_as_alias = command("*", Handler::Dog);
    assert!(r.register(name_as_alias).is_err());
}

#[test]
fn ping_replies_only_to_owner() {
    let mut bot = Bot::standard();
    assert_eq!(rejected(bot.dispatch("ping", stranger(), None)), DispatchError::CheckFailed);
    assert_eq!(bot.counters.count("ping"), 0);
    assert_eq!(replied(bot.dispatch("ping", owner(), None)), "Pong! :panda_face:");
    assert_eq!(bot.counters.count("ping"), 1);
}

#[test]
fn commands_report_after_uses() {
    let mut bot = Bot::standard();
    for _ in 0..3 {
        replied(bot.dispatch("ping", owner(), None));
    }
    assert_eq!(replied(bot.dispatch("about", stranger(), None)), "This is a small test-bot! : )");
    let report = replied(bot.dispatch("commands", stranger(), None));
    let lines: Vec<&str> = report.lines().collect();
    assert_eq!(lines[0], "Commands used:");
    assert_eq!(lines.iter().filter(|l| **l == "- ping: 3").count(), 1);
    assert_eq!(lines.iter().filter(|l| **l == "- about: 1").count(), 1);
    assert_eq!(report, "Commands used:\n- ping: 3\n- about: 1\n- commands: 1\n");
}

#[test]
fn counts_equal_dispatches() {
    let mut bot = Bot::standard();
    let tokens = ["about", "dog", "about", "*", "multiply", "nothing", "dog", "about"];
    for t in tokens.iter() {
        bot.dispatch(t, stranger(), None);
    }
    assert_eq!(bot.counters.count("about"), 3);
    assert_eq!(bot.counters.count("dog"), 2);
    assert_eq!(bot.counters.count("multiply"), 2);
    assert_eq!(bot.counters.count("*"), 0);
    assert_eq!(bot.counters.count("nothing"), 0);
    let snap = bot.counters.snapshot();
    assert_eq!(
        snap,
        vec![("about".to_string(), 3), ("dog".to_string(), 2), ("multiply".to_string(), 2)]
    );
}

#[test]
fn unknown_token_is_rejected_silently() {
    let mut bot = Bot::standard();
    let e = rejected(bot.dispatch("nope", owner(), None));
    assert_eq!(e, DispatchError::UnknownCommand);
    assert_eq!(dispatch_error_reply(e), None);
    assert!(bot.counters.snapshot().is_empty());
}

#[test]
fn cat_needs_administrator() {
    let mut bot = Bot::standard();
    assert_eq!(rejected(bot.dispatch("kitty", stranger(), None)), DispatchError::LackingPermissions);
    let admin = Invoker { id: 42, permissions: ADMINISTRATOR | 1 };
    assert_eq!(replied(bot.dispatch("kitty", admin, None)), ":cat:");
    assert_eq!(bot.counters.count("cat"), 1);
    assert_eq!(bot.counters.count("kitty"), 0);
}

#[test]
fn rate_limit_applies_to_bucketed_commands() {
    let mut bot = Bot::standard();
    let e = rejected(bot.dispatch("dog", stranger(), Some(5)));
    assert_eq!(e, DispatchError::RateLimited(5));
    assert_eq!(bot.counters.count("dog"), 0);
    assert_eq!(replied(bot.dispatch("about", stranger(), Some(5))), "This is a small test-bot! : )");
}

#[test]
fn rate_limit_notice_names_the_delay() {
    assert_eq!(
        dispatch_error_reply(DispatchError::RateLimited(5)),
        Some("Try this again in 5 seconds.".to_string())
    );
    assert_eq!(
        dispatch_error_reply(DispatchError::RateLimited(120)),
        Some("Try this again in 120 seconds.".to_string())
    );
    assert_eq!(dispatch_error_reply(DispatchError::CheckFailed), None);
    assert_eq!(dispatch_error_reply(DispatchError::LackingPermissions), None);
}

#[test]
fn host_handlers_are_delegated_and_counted() {
    let mut bot = Bot::standard();
    match bot.dispatch("*", stranger(), None) {
        Outcome::Delegated(h) => assert_eq!(h, Handler::Multiply),
        other => panic!("unexpected {:?}", other),
    }
    match bot.dispatch("latency", stranger(), None) {
        Outcome::Delegated(h) => assert_eq!(h, Handler::Latency),
        other => panic!("unexpected {:?}", other),
    }
    assert_eq!(bot.counters.count("multiply"), 1);
    assert_eq!(bot.counters.count("latency"), 1);
}

#[test]
fn latency_replies() {
    assert_eq!(
        latency_reply(&ShardLookup::NoManager),
        "There was a problem getting the shard manager"
    );
    assert_eq!(latency_reply(&ShardLookup::NoRunner), "No shard found");
    assert_eq!(
        latency_reply(&ShardLookup::Latency("Some(12ms)".to_string())),
        "The shard latency is Some(12ms)"
    );
}

#[test]
fn decimal_text() {
    assert_eq!(decimal_string(0), "0");
    assert_eq!(decimal_string(7), "7");
    assert_eq!(decimal_string(10), "10");
    assert_eq!(decimal_string(12345), "12345");
    assert_eq!(decimal_string(u64::MAX), "18446744073709551615");
}

#[test]
fn owner_and_permission_checks() {
    assert!(owner_check(&vec![1, DEFAULT_OWNER], DEFAULT_OWNER));
    assert!(!owner_check(&vec![1, 2], DEFAULT_OWNER));
    assert!(!owner_check(&vec![], DEFAULT_OWNER));
    assert!(permits(ADMINISTRATOR | 2, ADMINISTRATOR));
    assert!(!permits(2, ADMINISTRATOR));
    assert!(permits(0, 0));
}

#[test]
fn counters_increment_and_report() {
    let mut c = UsageCounters::new();
    assert_eq!(c.report(), "Commands used:\n");
    c.increment("b");
    c.increment("a");
    c.increment("b");
    assert_eq!(c.count("b"), 2);
    assert_eq!(c.count("a"), 1);
    assert!(c.is_below_limit());
    assert_eq!(c.report(), "Commands used:\n- b: 2\n- a: 1\n");
}

#[test]
fn before_hook_counts_and_proceeds() {
    let mut bot = Bot::standard();
    assert!(bot.before("help"));
    assert!(bot.before("help"));
    assert_eq!(bot.counters.count("help"), 2);
}

#[test]
fn standard_buckets_match_configuration() {
    let b = standard_buckets();
    assert_eq!(b.len(), 2);
    assert_eq!((b[0].name.as_str(), b[0].delay, b[0].time_span, b[0].limit), ("emoji", 5, 0, 1));
    assert_eq!(
        (b[1].name.as_str(), b[1].delay, b[1].time_span, b[1].limit),
        ("complicated", 5, 30, 2)
    );
}

#[test]
fn handler_text_for_each_handler() {
    let mut c = UsageCounters::new();
    c.increment("dog");
    assert_eq!(handler_text(Handler::About, &c).as_deref(), Some("This is a small test-bot! : )"));
    assert_eq!(handler_text(Handler::Ping, &c).as_deref(), Some("Pong! :panda_face:"));
    assert_eq!(handler_text(Handler::Cat, &c).as_deref(), Some(":cat:"));
    assert_eq!(handler_text(Handler::Dog, &c).as_deref(), Some(":dog:"));
    assert_eq!(handler_text(Handler::Commands, &c).as_deref(), Some("Commands used:\n- dog: 1\n"));
    assert_eq!(handler_text(Handler::Multiply, &c), None);
    assert_eq!(handler_text(Handler::Latency, &c), None);
    assert_eq!(handler_text(Handler::SomeLongCommand, &c), None);
}
