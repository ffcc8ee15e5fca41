//! Builder validation: descriptor ordering, missing parts, overwrite
//! semantics.

use botframe::launch_type::BuildLaunchTimingError;
use botframe::launch_type::LaunchTiming;
use botframe::launch_type::OnCommandCall;
use botframe::launch_type::OnMessageMatch;
use botframe::service_info::ArgType;
use botframe::service_info::BuildServiceInfoError;
use botframe::service_info::ServiceInfoBuilder;

#[derive(Clone, Copy, Debug, PartialEq)]
enum Tag {
    First,
    Second,
}

#[test]
fn build_required_then_optional_succeeds() {
    let timing = OnCommandCall::new("role")
        .arg("a", "first", ArgType::String)
        .optional_arg("b", "second", ArgType::Int)
        .callback(Tag::First)
        .build();
    let timing = timing.unwrap();
    match timing {
        LaunchTiming::OnCommandCall { command_name, args, .. } => {
            assert_eq!(command_name, "role");
            assert_eq!(args.len(), 2);
            assert!(!args[0].is_optional);
            assert!(args[1].is_optional);
            assert_eq!(args[0].name, "a");
            assert_eq!(args[1].name, "b");
        }
        LaunchTiming::OnMessageMatch { .. } => panic!("wrong kind"),
    }
}

#[test]
fn build_optional_then_required_fails() {
    let r = OnCommandCall::new("role")
        .optional_arg("a", "first", ArgType::String)
        .arg("b", "second", ArgType::Int)
        .callback(Tag::First)
        .build();
    assert_eq!(r.unwrap_err(), BuildLaunchTimingError::InvalidArgOrder);
}

#[test]
fn build_without_callback_fails() {
    let r = OnCommandCall::new::<Tag>("role").build();
    assert_eq!(r.unwrap_err(), BuildLaunchTimingError::MissingCallback);
}

#[test]
fn build_reports_arg_order_before_missing_callback() {
    let r = OnCommandCall::new::<Tag>("role")
        .optional_arg("a", "first", ArgType::String)
        .arg("b", "second", ArgType::Int)
        .build();
    assert_eq!(r.unwrap_err(), BuildLaunchTimingError::InvalidArgOrder);
}

#[test]
fn build_message_match_keeps_target() {
    let timing = OnMessageMatch::new("hello there").callback(Tag::First).build().unwrap();
    match timing {
        LaunchTiming::OnMessageMatch { target_content, args, .. } => {
            assert_eq!(target_content, "hello there");
            assert_eq!(args.len(), 0);
        }
        LaunchTiming::OnCommandCall { .. } => panic!("wrong kind"),
    }
}

#[test]
fn callback_last_write_wins() {
    let timing = OnCommandCall::new("x")
        .callback(Tag::First)
        .callback(Tag::Second)
        .build()
        .unwrap();
    match timing {
        LaunchTiming::OnCommandCall { generator, .. } => assert_eq!(generator, Tag::Second),
        LaunchTiming::OnMessageMatch { .. } => panic!("wrong kind"),
    }
}

#[test]
fn service_builder_missing_name_fails() {
    let timing = OnCommandCall::new("ping").callback(Tag::First).build().unwrap();
    let r = ServiceInfoBuilder::new().description("d").timing(timing).build();
    assert_eq!(r.unwrap_err(), BuildServiceInfoError::MissingName);
}

#[test]
fn service_builder_missing_description_fails() {
    let timing = OnCommandCall::new("ping").callback(Tag::First).build().unwrap();
    let r = ServiceInfoBuilder::new().name("n").timing(timing).build();
    assert_eq!(r.unwrap_err(), BuildServiceInfoError::MissingDescription);
}

#[test]
fn service_builder_no_timings_fails() {
    let r = ServiceInfoBuilder::<Tag>::new().name("n").description("d").build();
    assert_eq!(r.unwrap_err(), BuildServiceInfoError::NoTimings);
}

#[test]
fn service_builder_one_timing_succeeds() {
    let timing = OnCommandCall::new("ping").callback(Tag::First).build().unwrap();
    let info = ServiceInfoBuilder::new().name("n").description("d").timing(timing).build().unwrap();
    assert_eq!(info.name, "n");
    assert_eq!(info.description, "d");
    assert_eq!(info.initial_timings.len(), 1);
}

#[test]
fn service_builder_name_last_write_wins() {
    let timing = OnCommandCall::new("ping").callback(Tag::First).build().unwrap();
    let info = ServiceInfoBuilder::new()
        .name("first")
        .name("second")
        .description("d")
        .timing(timing)
        .build()
        .unwrap();
    assert_eq!(info.name, "second");
}
