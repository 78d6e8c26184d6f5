//! Commands to the page and the replies to them.
use retheme_codex::channel::{
    csp_bypass_command, csp_bypass_outcome, evaluate_command, evaluated_flag, evaluated_slots,
    evaluation_outcome, first_attempt, probe_command, read_csp_bypass_reply, read_evaluation_reply,
    read_theme_channel_message_until, removal_commands, removal_outcome, test_injection,
    BypassReply, EvaluationReply, ProbeStep, ReadAction, ReadFailure,
};
use retheme_codex::error::CodexError;
use retheme_codex::page_script::{
    PROBE_APPLY_EXPRESSION, PROBE_REMOVE_EXPRESSION, REMOVE_THEME_EXPRESSION,
};

#[test]
fn commands_are_json() {
    assert_eq!(
        evaluate_command(7, "a\"\n{b}"),
        "{\"id\":7,\"method\":\"Runtime.evaluate\",\"params\":{\"awaitPromise\":true,\"expression\":\"a\\\"\\n{b}\",\"returnByValue\":true}}"
    );
    assert_eq!(
        csp_bypass_command(u64::MAX, false),
        "{\"id\":18446744073709551615,\"method\":\"Page.setBypassCSP\",\"params\":{\"enabled\":false}}"
    );
}

fn evaluation_error(text: &str) -> String {
    match read_evaluation_reply(Some(text), 7) {
        EvaluationReply::Failed(error) => error.message().to_owned(),
        other => panic!("{other:?}"),
    }
}

#[test]
fn an_evaluation_gives_the_value_of_its_own_command() {
    let reply = "{\"id\":7,\"result\":{\"result\":{\"value\":[1,true]}}}";
    match read_evaluation_reply(Some(reply), 7) {
        EvaluationReply::Value(value) => assert_eq!(value.to_string(), "[1,true]"),
        other => panic!("{other:?}"),
    }
    assert!(matches!(read_evaluation_reply(Some(reply), 8), EvaluationReply::Unrelated));
    assert!(matches!(read_evaluation_reply(None, 7), EvaluationReply::Unrelated));
    for text in ["{}", "{\"id\":\"7\"}", "{\"id\":7.0}", "{\"id\":-7}", "[7]", "{\"method\":\"x\"}"] {
        assert!(
            matches!(read_evaluation_reply(Some(text), 7), EvaluationReply::Unrelated),
            "{text}"
        );
    }
}

#[test]
fn an_evaluation_fails_with_the_message_of_the_page() {
    assert_eq!(
        evaluation_error("{\"id\":7,\"error\":{\"code\":-1,\"a\":2.5},\"result\":{}}"),
        "本地主题通道命令返回错误：{\"a\":2.5,\"code\":-1}"
    );
    assert_eq!(
        evaluation_error("{\"id\":7,\"error\":null}"),
        "本地主题通道命令返回错误：null"
    );
    assert_eq!(
        evaluation_error(
            "{\"id\":7,\"result\":{\"exceptionDetails\":\"no\",\"result\":{\"value\":1}}}"
        ),
        "本地主题通道脚本执行失败：\"no\""
    );
    assert_eq!(
        evaluation_error("{\"id\":7,\"result\":{\"result\":{}}}"),
        "本地主题通道命令没有返回值"
    );
    assert_eq!(
        evaluation_error("{\"id\":7,\"result\":[{\"value\":1}]}"),
        "本地主题通道命令没有返回值"
    );
    assert_eq!(
        evaluation_error("{"),
        "本地主题通道响应数据无效：EOF while parsing an object at line 1 column 1"
    );
}

#[test]
fn a_parsed_response_is_taken_as_its_text_is() {
    let response: serde_json::Value =
        serde_json::from_str("{\"id\":3,\"result\":{\"result\":{\"value\":null}}}").unwrap();
    match evaluation_outcome(&response, 3) {
        EvaluationReply::Value(value) => assert!(value.is_null()),
        other => panic!("{other:?}"),
    }
    assert!(matches!(csp_bypass_outcome(&response, 3), BypassReply::Done));
    assert!(matches!(csp_bypass_outcome(&response, 4), BypassReply::Unrelated));
}

#[test]
fn a_change_of_the_content_policy_is_done_or_fails() {
    assert!(matches!(read_csp_bypass_reply(Some("{\"id\":1}"), 1), BypassReply::Done));
    assert!(matches!(read_csp_bypass_reply(Some("{\"id\":2}"), 1), BypassReply::Unrelated));
    assert!(matches!(read_csp_bypass_reply(None, 1), BypassReply::Unrelated));
    for (text, message) in [
        ("{\"id\":1,\"error\":\"x\"}", "设置本地主题资源通道失败：\"x\""),
        ("x", "本地主题资源通道数据无效：expected value at line 1 column 1"),
    ] {
        match read_csp_bypass_reply(Some(text), 1) {
            BypassReply::Failed(error) => assert_eq!(error.message(), message),
            other => panic!("{other:?}"),
        }
    }
}

fn value(text: &str) -> serde_json::Value {
    serde_json::from_str(text).unwrap()
}

#[test]
fn values_are_flags_or_slots() {
    assert!(evaluated_flag(&value("true")).unwrap());
    assert!(!evaluated_flag(&value("false")).unwrap());
    assert_eq!(
        evaluated_flag(&value("1")).unwrap_err().message(),
        "本地主题通道没有返回布尔结果"
    );
    assert_eq!(evaluated_slots(&value("[\"a\",1,null,\"b\"]")).unwrap(), ["a", "b"]);
    assert!(evaluated_slots(&value("null")).is_none());
    assert!(evaluated_slots(&value("{\"0\":\"a\"}")).is_none());
}

#[test]
fn reads_that_had_to_wait_are_repeated_up_to_the_deadline() {
    for failure in [
        None,
        Some(ReadFailure::WouldBlock),
        Some(ReadFailure::TimedOut),
        Some(ReadFailure::Interrupted),
    ] {
        assert_eq!(read_theme_channel_message_until(failure, 4, 5), ReadAction::Read);
        assert_eq!(read_theme_channel_message_until(failure, 5, 5), ReadAction::GiveUp);
    }
    assert_eq!(
        read_theme_channel_message_until(Some(ReadFailure::Other), 4, 5),
        ReadAction::Fail
    );
}

#[test]
fn waits_for_theme_channel_response_across_temporary_read_timeouts() {
    let request: serde_json::Value = serde_json::from_str(&evaluate_command(7, "true")).unwrap();
    let id = request["id"].as_u64().expect("runtime evaluate id");
    let deadline = 500;
    let mut failure = None;
    for now in [0, 40, 80] {
        assert_eq!(read_theme_channel_message_until(failure, now, deadline), ReadAction::Read);
        failure = Some(ReadFailure::WouldBlock);
    }
    assert_eq!(read_theme_channel_message_until(failure, 120, deadline), ReadAction::Read);
    let response = format!("{{\"id\":{id},\"result\":{{\"result\":{{\"value\":true}}}}}}");
    match read_evaluation_reply(Some(&response), 7) {
        EvaluationReply::Value(response) => assert_eq!(response, serde_json::Value::Bool(true)),
        other => panic!("{other:?}"),
    }
}

#[test]
fn the_first_failure_of_a_removal_counts() {
    let error = || CodexError::new("restored");
    assert!(!removal_outcome(Ok(false), Ok(())).unwrap());
    assert!(removal_outcome(Ok(true), Ok(())).unwrap());
    assert_eq!(removal_outcome(Ok(true), Err(error())).unwrap_err().message(), "restored");
    let first = removal_outcome(Err(CodexError::new("removed")), Err(error()));
    assert_eq!(first.unwrap_err().message(), "removed");
}

#[test]
fn a_theme_is_taken_off_before_the_policy_is_restored() {
    let commands = removal_commands();
    assert_eq!(commands.remove, evaluate_command(1, REMOVE_THEME_EXPRESSION));
    assert_eq!(
        commands.restore,
        "{\"id\":2,\"method\":\"Page.setBypassCSP\",\"params\":{\"enabled\":false}}"
    );
}

#[test]
fn the_probe_is_put_on_the_page_and_taken_off() {
    let first = first_attempt();
    assert_eq!(first, ProbeStep::TryAgain { command_id: 1 });
    assert_eq!(probe_command(first), evaluate_command(1, PROBE_APPLY_EXPRESSION));
    let last = ProbeStep::Remove { command_id: 2, applied: true };
    assert_eq!(probe_command(last), evaluate_command(2, PROBE_REMOVE_EXPRESSION));
}

#[test]
fn the_probe_is_tried_until_it_applies_or_the_time_is_up() {
    assert_eq!(test_injection(1, false, 0), ProbeStep::TryAgain { command_id: 2 });
    assert_eq!(
        test_injection(2, true, 0),
        ProbeStep::Remove { command_id: 3, applied: true }
    );
    assert_eq!(
        test_injection(9, false, 20_000),
        ProbeStep::Remove { command_id: 10, applied: false }
    );
}

#[test]
fn an_error_joins_its_message_and_its_detail() {
    assert_eq!(CodexError::detailed("a：", "b").message(), "a：b");
}
