//! Engine behavior: command parsing, exact matching, fan-out, event
//! ordering and registration-order independence.

use std::cell::RefCell;

use botframe::bot::Bot;
use botframe::bot::EventOutcome;
use botframe::launch_arg::LaunchArg;
use botframe::launch_type::OnCommandCall;
use botframe::launch_type::OnMessageMatch;
use botframe::service::ClientEvent;
use botframe::service::Controller;
use botframe::service::Service;
use botframe::service::ServiceFactory;
use botframe::service_info::ServiceInfo;
use botframe::service_info::ServiceInfoBuilder;
use botframe::structs::TextChannel;
use botframe::structs::TextMessage;

struct TestController {
    sent: RefCell<Vec<(u64, String)>>,
}

impl TestController {
    fn new() -> TestController {
        TestController { sent: RefCell::new(Vec::new()) }
    }
}

impl Controller for TestController {
    fn send_message(&self, channel: &TextChannel, content: &str) -> Result<TextMessage, String> {
        self.sent.borrow_mut().push((channel.id, content.to_string()));
        Ok(TextMessage { content: content.to_string(), id: 0, channel: *channel })
    }
}

/// A handler factory whose handlers either echo into the controller or
/// fail with a fixed error.
#[derive(Clone, Copy, Debug, PartialEq)]
enum Gen {
    Echo,
    Fail,
}

struct GenHandler {
    ok: bool,
    channel_id: u64,
}

impl ServiceFactory<TestController> for Gen {
    type Handler = GenHandler;

    fn make(&self, arg: LaunchArg) -> GenHandler {
        GenHandler { ok: matches!(self, Gen::Echo), channel_id: arg.message().channel().id }
    }
}

impl Service<TestController> for GenHandler {
    fn launch(&self, c: &TestController) -> Result<(), String> {
        if self.ok {
            c.send_message(&TextChannel { id: self.channel_id }, "echo").map(|_| ())
        } else {
            Err("boom".to_string())
        }
    }
}

fn command_service(name: &str, cmd: &str, gen: Gen) -> ServiceInfo<Gen> {
    let timing = OnCommandCall::new(cmd).callback(gen).build().unwrap();
    ServiceInfoBuilder::new().name(name).description("test service").timing(timing).build().unwrap()
}

fn match_service(name: &str, target: &str, gen: Gen) -> ServiceInfo<Gen> {
    let timing = OnMessageMatch::new(target).callback(gen).build().unwrap();
    ServiceInfoBuilder::new().name(name).description("test service").timing(timing).build().unwrap()
}

fn msg(content: &str) -> TextMessage {
    TextMessage { content: content.to_string(), id: 1, channel: TextChannel { id: 7 } }
}

fn ready_bot(services: Vec<ServiceInfo<Gen>>) -> Bot<TestController, Gen> {
    let mut bot: Bot<TestController, Gen> = Bot::new("g!");
    for s in services {
        bot.add_service(s);
    }
    let out = bot.handle_event(ClientEvent::OnReady(TestController::new()));
    assert!(matches!(out, EventOutcome::ReadyAccepted));
    bot
}

fn dispatch(bot: &mut Bot<TestController, Gen>, content: &str) -> Vec<(String, bool)> {
    match bot.handle_event(ClientEvent::OnMessage(msg(content))) {
        EventOutcome::Dispatched(records) => records
            .into_iter()
            .map(|r| (r.service_name, r.result.is_ok()))
            .collect(),
        EventOutcome::ReadyAccepted => panic!("unexpected ready"),
        EventOutcome::ContractViolation => panic!("unexpected violation"),
        EventOutcome::Discarded => panic!("unexpected discard"),
    }
}

#[test]
fn command_prefix_parses_and_fires_once() {
    let mut bot = ready_bot(vec![command_service("ping", "ping", Gen::Echo)]);
    let hits = dispatch(&mut bot, "g!ping");
    assert_eq!(hits, vec![("ping".to_string(), true)]);
    let sent = bot.context.as_ref().unwrap().sent.borrow().clone();
    assert_eq!(sent, vec![(7u64, "echo".to_string())]);
}

#[test]
fn command_without_prefix_does_not_fire() {
    let mut bot = ready_bot(vec![command_service("ping", "ping", Gen::Echo)]);
    let hits = dispatch(&mut bot, "ping");
    assert_eq!(hits.len(), 0);
}

#[test]
fn command_fires_with_trailing_arguments() {
    let mut bot = ready_bot(vec![command_service("ping", "ping", Gen::Echo)]);
    let hits = dispatch(&mut bot, "g!ping with args");
    assert_eq!(hits.len(), 1);
}

#[test]
fn command_fires_with_surrounding_whitespace() {
    let mut bot = ready_bot(vec![command_service("ping", "ping", Gen::Echo)]);
    let hits = dispatch(&mut bot, "  g!ping  ");
    assert_eq!(hits.len(), 1);
}

#[test]
fn command_fires_after_unicode_whitespace() {
    let mut bot = ready_bot(vec![command_service("ping", "ping", Gen::Echo)]);
    let hits = dispatch(&mut bot, "\u{3000}g!ping\u{3000}");
    assert_eq!(hits.len(), 1);
}

#[test]
fn message_match_requires_exact_raw_content() {
    let mut bot = ready_bot(vec![match_service("m", "g!ping", Gen::Echo)]);
    assert_eq!(dispatch(&mut bot, "g!ping").len(), 1);
    assert_eq!(dispatch(&mut bot, " g!ping").len(), 0);
    assert_eq!(dispatch(&mut bot, "g!ping ").len(), 0);
    assert_eq!(dispatch(&mut bot, "G!PING").len(), 0);
    assert_eq!(dispatch(&mut bot, "g!pin").len(), 0);
    assert_eq!(dispatch(&mut bot, "xg!ping").len(), 0);
}

#[test]
fn blank_message_is_discarded() {
    let mut bot = ready_bot(vec![match_service("m", "   ", Gen::Echo)]);
    let out = bot.handle_event(ClientEvent::OnMessage(msg("   ")));
    assert!(matches!(out, EventOutcome::Discarded));
    let out = bot.handle_event(ClientEvent::OnMessage(msg("")));
    assert!(matches!(out, EventOutcome::Discarded));
    let out = bot.handle_event(ClientEvent::OnMessage(msg("\u{2003}\t\n")));
    assert!(matches!(out, EventOutcome::Discarded));
}

#[test]
fn fanout_invokes_all_matches_and_isolates_failure() {
    let mut bot = ready_bot(vec![
        command_service("a", "ping", Gen::Fail),
        command_service("b", "ping", Gen::Echo),
    ]);
    let hits = dispatch(&mut bot, "g!ping");
    assert_eq!(
        hits,
        vec![("a".to_string(), false), ("b".to_string(), true)],
    );
    // the failure of "a" did not keep "b" from sending
    let sent = bot.context.as_ref().unwrap().sent.borrow().clone();
    assert_eq!(sent, vec![(7u64, "echo".to_string())]);
}

#[test]
fn failing_handler_reports_its_error() {
    let mut bot = ready_bot(vec![command_service("a", "ping", Gen::Fail)]);
    match bot.handle_event(ClientEvent::OnMessage(msg("g!ping"))) {
        EventOutcome::Dispatched(records) => {
            assert_eq!(records.len(), 1);
            assert_eq!(records[0].result, Err("boom".to_string()));
            assert_eq!(records[0].service_index, 0);
            assert_eq!(records[0].timing_index, 0);
        }
        _ => panic!("expected dispatch"),
    }
}

#[test]
fn several_conditions_in_one_service_fire_independently() {
    let t1 = OnCommandCall::new("ping").callback(Gen::Echo).build().unwrap();
    let t2 = OnMessageMatch::new("hello").callback(Gen::Echo).build().unwrap();
    let svc = ServiceInfoBuilder::new()
        .name("s")
        .description("two conditions")
        .timing(t1)
        .timing(t2)
        .build()
        .unwrap();
    let mut bot = ready_bot(vec![svc]);
    match bot.handle_event(ClientEvent::OnMessage(msg("hello"))) {
        EventOutcome::Dispatched(records) => {
            assert_eq!(records.len(), 1);
            assert_eq!(records[0].timing_index, 1);
        }
        _ => panic!("expected dispatch"),
    }
    assert_eq!(dispatch(&mut bot, "g!ping").len(), 1);
}

#[test]
fn message_before_ready_is_a_contract_violation() {
    let mut bot: Bot<TestController, Gen> = Bot::new("g!");
    bot.add_service(command_service("ping", "ping", Gen::Echo));
    let out = bot.handle_event(ClientEvent::OnMessage(msg("g!ping")));
    assert!(matches!(out, EventOutcome::ContractViolation));
}

#[test]
fn events_are_processed_in_arrival_order() {
    let mut bot: Bot<TestController, Gen> = Bot::new("g!");
    bot.add_service(command_service("ping", "ping", Gen::Echo));
    let events = vec![
        ClientEvent::OnMessage(msg("g!ping")),
        ClientEvent::OnReady(TestController::new()),
        ClientEvent::OnMessage(msg("g!ping")),
    ];
    let outs = bot.process_events(events);
    assert_eq!(outs.len(), 3);
    assert!(matches!(outs[0], EventOutcome::ContractViolation));
    assert!(matches!(outs[1], EventOutcome::ReadyAccepted));
    match &outs[2] {
        EventOutcome::Dispatched(records) => assert_eq!(records.len(), 1),
        _ => panic!("expected dispatch"),
    }
}

#[test]
fn registration_order_does_not_change_what_fires() {
    let mut forward = ready_bot(vec![
        command_service("a", "ping", Gen::Fail),
        command_service("b", "ping", Gen::Echo),
        match_service("c", "g!ping", Gen::Echo),
    ]);
    let mut backward = ready_bot(vec![
        match_service("c", "g!ping", Gen::Echo),
        command_service("b", "ping", Gen::Echo),
        command_service("a", "ping", Gen::Fail),
    ]);
    let mut h1 = dispatch(&mut forward, "g!ping");
    let mut h2 = dispatch(&mut backward, "g!ping");
    assert_eq!(h1.len(), 3);
    h1.sort();
    h2.sort();
    assert_eq!(h1, h2);
}

#[test]
fn duplicate_service_names_both_fire() {
    let mut bot = ready_bot(vec![
        command_service("twin", "ping", Gen::Echo),
        command_service("twin", "ping", Gen::Echo),
    ]);
    let hits = dispatch(&mut bot, "g!ping");
    assert_eq!(
        hits,
        vec![("twin".to_string(), true), ("twin".to_string(), true)],
    );
}

#[test]
fn registry_is_append_only_in_order() {
    let mut bot = ready_bot(vec![
        command_service("a", "one", Gen::Echo),
        command_service("b", "two", Gen::Echo),
    ]);
    assert_eq!(dispatch(&mut bot, "g!one"), vec![("a".to_string(), true)]);
    assert_eq!(dispatch(&mut bot, "g!two"), vec![("b".to_string(), true)]);
}

/// A factory whose handler surfaces the launch argument it was built
/// from, so the report shows what the engine handed over.
struct ArgProbe;

struct ArgProbeHandler {
    text: String,
}

impl ServiceFactory<TestController> for ArgProbe {
    type Handler = ArgProbeHandler;

    fn make(&self, arg: LaunchArg) -> ArgProbeHandler {
        let text = match arg {
            LaunchArg::OnCommandCall { command_name, message, args } => {
                assert!(args.is_none());
                format!("command {} from {}", command_name, message.content)
            }
            LaunchArg::OnMessageMatch { matches_to, message, args } => {
                assert!(args.is_none());
                format!("match {} from {}", matches_to, message.content)
            }
        };
        ArgProbeHandler { text }
    }
}

impl Service<TestController> for ArgProbeHandler {
    fn launch(&self, _c: &TestController) -> Result<(), String> {
        Err(self.text.clone())
    }
}

#[test]
fn launch_argument_carries_condition_and_message() {
    let t1 = OnCommandCall::new("ping").callback(ArgProbe).build().unwrap();
    let t2 = OnMessageMatch::new("hello").callback(ArgProbe).build().unwrap();
    let svc = ServiceInfoBuilder::new()
        .name("probe")
        .description("reports its launch argument")
        .timing(t1)
        .timing(t2)
        .build()
        .unwrap();
    let mut bot: Bot<TestController, ArgProbe> = Bot::new("g!");
    bot.add_service(svc);
    bot.handle_event(ClientEvent::OnReady(TestController::new()));
    match bot.handle_event(ClientEvent::OnMessage(msg("g!ping rest"))) {
        EventOutcome::Dispatched(records) => {
            assert_eq!(records.len(), 1);
            assert_eq!(
                records[0].result,
                Err("command ping from g!ping rest".to_string()),
            );
        }
        _ => panic!("expected dispatch"),
    }
    match bot.handle_event(ClientEvent::OnMessage(msg("hello"))) {
        EventOutcome::Dispatched(records) => {
            assert_eq!(records.len(), 1);
            assert_eq!(records[0].result, Err("match hello from hello".to_string()));
        }
        _ => panic!("expected dispatch"),
    }
}
