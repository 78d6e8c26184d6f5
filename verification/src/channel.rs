//! Commands to the page over the theme channel and the replies to them.
use vstd::prelude::*;

use crate::decimal::decimal;
use crate::error::CodexError;
use crate::json::{
    clone_json, is_key_pointer, json_at, json_bool, json_from_bool, json_from_members,
    json_from_str, json_from_u64, json_is_plain, json_items, json_member, json_parsed,
    json_printed, json_str, json_tree, json_trees, json_u64, lemma_pointed, members_of, parse_json,
    pointed, print_json, reads_as, JsonTree,
};
use crate::page_script::{
    PROBE_APPLY_EXPRESSION, PROBE_REMOVE_EXPRESSION, REMOVE_THEME_EXPRESSION,
};
use crate::text::string_views;
use crate::timing::STARTUP_TIMEOUT;

verus! {

/// The number of a command as JSON.
pub open spec fn number_tree(number: u64) -> JsonTree {
    JsonTree::Number(Some(number), decimal(number as nat))
}

/// A command as JSON.
pub open spec fn command_tree(id: u64, method: Seq<char>, params: JsonTree) -> JsonTree {
    JsonTree::Object(
        map!["id"@ => number_tree(id), "method"@ => JsonTree::Text(method), "params"@ => params],
    )
}

/// The command that evaluates an expression in the page, waits for its value and gives it back.
pub open spec fn evaluate_tree(id: u64, expression: Seq<char>) -> JsonTree {
    command_tree(
        id,
        "Runtime.evaluate"@,
        JsonTree::Object(
            map![
                "expression"@ => JsonTree::Text(expression),
                "returnByValue"@ => JsonTree::Bool(true),
                "awaitPromise"@ => JsonTree::Bool(true),
            ],
        ),
    )
}

/// The command that lets the page load content that its policy does not name, or no longer.
pub open spec fn csp_bypass_tree(id: u64, enabled: bool) -> JsonTree {
    command_tree(
        id,
        "Page.setBypassCSP"@,
        JsonTree::Object(map!["enabled"@ => JsonTree::Bool(enabled)]),
    )
}

proof fn lemma_command_is_plain(id: u64, method: Seq<char>, params: JsonTree)
    requires
        json_is_plain(params, 99),
    ensures
        json_is_plain(command_tree(id, method, params), 100),
{
    reveal_with_fuel(json_is_plain, 2);
    assert(json_is_plain(number_tree(id), 99));
    assert(json_is_plain(JsonTree::Text(method), 99));
    let members = map![
        "id"@ => number_tree(id),
        "method"@ => JsonTree::Text(method),
        "params"@ => params,
    ];
    assert forall|key: Seq<char>| members.contains_key(key) implies json_is_plain(
        #[trigger] members[key],
        99,
    ) by {
        assert(key == "id"@ || key == "method"@ || key == "params"@);
    }
}

proof fn lemma_flags_are_plain(members: Map<Seq<char>, JsonTree>)
    requires
        forall|key: Seq<char>|
            members.contains_key(key) ==> #[trigger] members[key] is Bool || members[key] is Text,
    ensures
        json_is_plain(JsonTree::Object(members), 99),
{
    reveal_with_fuel(json_is_plain, 2);
}

fn command(id: u64, method: &str, params: serde_json::Value) -> (result: String)
    ensures
        result@ == json_printed(command_tree(id, method@, json_tree(params))),
        json_is_plain(json_tree(params), 99) ==> reads_as(
            result@,
            command_tree(id, method@, json_tree(params)),
        ),
{
    let mut members: Vec<(String, serde_json::Value)> = Vec::new();
    members.push(("id".to_owned(), json_from_u64(id)));
    members.push(("method".to_owned(), json_from_str(method)));
    members.push(("params".to_owned(), params));
    proof {
        let all = members@;
        assert(all.drop_last().drop_last().drop_last() =~= Seq::empty());
        assert(members_of(all.drop_last().drop_last().drop_last()) =~= Map::empty());
        assert(members_of(all.drop_last().drop_last()) =~= map!["id"@ => number_tree(id)]);
        assert(members_of(all.drop_last()) =~= map![
            "id"@ => number_tree(id),
            "method"@ => JsonTree::Text(method@),
        ]);
        assert(JsonTree::Object(members_of(all)) == command_tree(id, method@, json_tree(params)));
        reveal_strlit("id");
        reveal_strlit("method");
        reveal_strlit("params");
        assert("method"@[0] != "params"@[0]);
        if json_is_plain(json_tree(params), 99) {
            lemma_command_is_plain(id, method@, json_tree(params));
        }
    }
    print_json(&json_from_members(members))
}

/// The command that evaluates an expression in the page. A reader of JSON reads it as such.
pub fn evaluate_command(id: u64, expression: &str) -> (result: String)
    ensures
        result@ == json_printed(evaluate_tree(id, expression@)),
        reads_as(result@, evaluate_tree(id, expression@)),
{
    let mut params: Vec<(String, serde_json::Value)> = Vec::new();
    params.push(("expression".to_owned(), json_from_str(expression)));
    params.push(("returnByValue".to_owned(), json_from_bool(true)));
    params.push(("awaitPromise".to_owned(), json_from_bool(true)));
    proof {
        let all = params@;
        assert(all.drop_last().drop_last().drop_last() =~= Seq::empty());
        assert(members_of(all.drop_last().drop_last().drop_last()) =~= Map::empty());
        assert(members_of(all.drop_last().drop_last()) =~= map![
            "expression"@ => JsonTree::Text(expression@),
        ]);
        assert(members_of(all.drop_last()) =~= map![
            "expression"@ => JsonTree::Text(expression@),
            "returnByValue"@ => JsonTree::Bool(true),
        ]);
        reveal_strlit("expression");
        reveal_strlit("returnByValue");
        reveal_strlit("awaitPromise");
        assert("expression"@.len() != "returnByValue"@.len());
        assert("expression"@.len() != "awaitPromise"@.len());
        assert("returnByValue"@.len() != "awaitPromise"@.len());
        lemma_flags_are_plain(members_of(all));
    }
    command(id, "Runtime.evaluate", json_from_members(params))
}

/// The command that lets the page load content that its policy does not name, or no longer. A
/// reader of JSON reads it as such.
pub fn csp_bypass_command(id: u64, enabled: bool) -> (result: String)
    ensures
        result@ == json_printed(csp_bypass_tree(id, enabled)),
        reads_as(result@, csp_bypass_tree(id, enabled)),
{
    let mut params: Vec<(String, serde_json::Value)> = Vec::new();
    params.push(("enabled".to_owned(), json_from_bool(enabled)));
    proof {
        let all = params@;
        assert(all.drop_last() =~= Seq::empty());
        assert(members_of(all.drop_last()) =~= Map::empty());
        lemma_flags_are_plain(members_of(all));
    }
    command(id, "Page.setBypassCSP", json_from_members(params))
}

/// The number of the command that a response answers.
pub open spec fn response_id(response: JsonTree) -> Option<u64> {
    match response.member("id"@) {
        Some(JsonTree::Number(whole, _)) => whole,
        _ => None,
    }
}

/// What a response of the page amounts to: it answers another command; the command failed, with a
/// message; or the command was carried out, and an evaluation has given a value.
pub enum ReplyState {
    Unrelated,
    Value(JsonTree),
    Failed(Seq<char>),
}

/// What a response amounts to for an evaluation.
pub open spec fn evaluation_state(response: JsonTree, id: u64) -> ReplyState {
    if response_id(response) != Some(id) {
        ReplyState::Unrelated
    } else if response.member("error"@) is Some {
        ReplyState::Failed(
            "本地主题通道命令返回错误："@ + json_printed(response.member("error"@)->0),
        )
    } else {
        let result = response.member("result"@);
        if result is Some && result->0.member("exceptionDetails"@) is Some {
            ReplyState::Failed(
                "本地主题通道脚本执行失败："@ + json_printed(
                    result->0.member("exceptionDetails"@)->0,
                ),
            )
        } else if result is Some && result->0.member("result"@) is Some && result->0.member(
            "result"@,
        )->0.member("value"@) is Some {
            ReplyState::Value(result->0.member("result"@)->0.member("value"@)->0)
        } else {
            ReplyState::Failed("本地主题通道命令没有返回值"@)
        }
    }
}

/// What a message amounts to for an evaluation: one that is not a text answers nothing; a text
/// goes by what it parses to.
pub open spec fn evaluation_reply(
    parsed: Option<Result<JsonTree, Seq<char>>>,
    id: u64,
) -> ReplyState {
    match parsed {
        Some(Ok(response)) => evaluation_state(response, id),
        Some(Err(message)) => ReplyState::Failed("本地主题通道响应数据无效："@ + message),
        None => ReplyState::Unrelated,
    }
}

/// What a message amounts to for a change of the content policy, likewise.
pub open spec fn csp_bypass_reply(
    parsed: Option<Result<JsonTree, Seq<char>>>,
    id: u64,
) -> ReplyState {
    match parsed {
        Some(Ok(response)) => csp_bypass_state(response, id),
        Some(Err(message)) => ReplyState::Failed("本地主题资源通道数据无效："@ + message),
        None => ReplyState::Unrelated,
    }
}

/// What a message parses to, where it is a text.
pub open spec fn message_parsed(message: Option<&str>) -> Option<Result<JsonTree, Seq<char>>> {
    match message {
        Some(text) => Some(json_parsed(text@)),
        None => None,
    }
}

/// What a response amounts to for a change of the content policy.
pub open spec fn csp_bypass_state(response: JsonTree, id: u64) -> ReplyState {
    if response_id(response) != Some(id) {
        ReplyState::Unrelated
    } else if response.member("error"@) is Some {
        ReplyState::Failed(
            "设置本地主题资源通道失败："@ + json_printed(response.member("error"@)->0),
        )
    } else {
        ReplyState::Value(JsonTree::Null)
    }
}

/// What to do about a response to an evaluation.
#[derive(Debug)]
pub enum EvaluationReply {
    /// It answers another command; the next message is to be read.
    Unrelated,
    Value(serde_json::Value),
    Failed(CodexError),
}

/// What to do about a response to a change of the content policy.
#[derive(Debug)]
pub enum BypassReply {
    /// It answers another command; the next message is to be read.
    Unrelated,
    Done,
    Failed(CodexError),
}

impl EvaluationReply {
    /// What the reply stands for.
    pub open spec fn state(self) -> ReplyState {
        match self {
            EvaluationReply::Unrelated => ReplyState::Unrelated,
            EvaluationReply::Value(value) => ReplyState::Value(json_tree(value)),
            EvaluationReply::Failed(error) => ReplyState::Failed(error@),
        }
    }
}

impl BypassReply {
    /// What the reply stands for.
    pub open spec fn state(self) -> ReplyState {
        match self {
            BypassReply::Unrelated => ReplyState::Unrelated,
            BypassReply::Done => ReplyState::Value(JsonTree::Null),
            BypassReply::Failed(error) => ReplyState::Failed(error@),
        }
    }
}

fn answers(response: &serde_json::Value, id: u64) -> (result: bool)
    ensures
        result == (response_id(json_tree(*response)) == Some(id)),
{
    match json_member(response, "id") {
        Some(number) => match json_u64(number) {
            Some(number) => number == id,
            None => false,
        },
        None => false,
    }
}

proof fn lemma_paths(tree: JsonTree)
    ensures
        is_key_pointer("/result/exceptionDetails"@),
        is_key_pointer("/result/result/value"@),
        pointed(tree, "/result/exceptionDetails"@) == match tree.member("result"@) {
            Some(result) => result.member("exceptionDetails"@),
            None => None,
        },
        pointed(tree, "/result/result/value"@) == match tree.member("result"@) {
            Some(result) => match result.member("result"@) {
                Some(inner) => inner.member("value"@),
                None => None,
            },
            None => None,
        },
{
    reveal_strlit("/result/exceptionDetails");
    reveal_strlit("/result/result/value");
    reveal_strlit("result");
    reveal_strlit("exceptionDetails");
    reveal_strlit("value");
    let none = Seq::<char>::empty();
    let details = seq!['/'] + "exceptionDetails"@ + none;
    let value = seq!['/'] + "value"@ + none;
    let inner = seq!['/'] + "result"@ + value;
    assert("/result/exceptionDetails"@ =~= seq!['/'] + "result"@ + details);
    assert("/result/result/value"@ =~= seq!['/'] + "result"@ + inner);
    lemma_pointed(tree, "result"@, details);
    lemma_pointed(tree, "result"@, inner);
    if let Some(result) = tree.member("result"@) {
        lemma_pointed(result, "exceptionDetails"@, none);
        lemma_pointed(result, "result"@, value);
        if let Some(deeper) = result.member("result"@) {
            lemma_pointed(deeper, "value"@, none);
        }
    }
}

/// What to do about a response to an evaluation.
pub fn evaluation_outcome(response: &serde_json::Value, id: u64) -> (result: EvaluationReply)
    ensures
        result.state() == evaluation_state(json_tree(*response), id),
{
    if !answers(response, id) {
        return EvaluationReply::Unrelated;
    }
    if let Some(error) = json_member(response, "error") {
        return EvaluationReply::Failed(
            CodexError::detailed("本地主题通道命令返回错误：", print_json(error).as_str()),
        );
    }
    proof {
        lemma_paths(json_tree(*response));
    }
    if let Some(exception) = json_at(response, "/result/exceptionDetails") {
        return EvaluationReply::Failed(
            CodexError::detailed(
                "本地主题通道脚本执行失败：",
                print_json(exception).as_str(),
            ),
        );
    }
    match json_at(response, "/result/result/value") {
        Some(value) => EvaluationReply::Value(clone_json(value)),
        None => EvaluationReply::Failed(CodexError::new("本地主题通道命令没有返回值")),
    }
}

/// What to do about a message while an evaluation is awaited. A message that is not a text is
/// passed as nothing.
pub fn read_evaluation_reply(message: Option<&str>, id: u64) -> (result: EvaluationReply)
    ensures
        result.state() == evaluation_reply(message_parsed(message), id),
{
    match message {
        Some(text) => match parse_json(text) {
            Ok(response) => evaluation_outcome(&response, id),
            Err(message) => EvaluationReply::Failed(
                CodexError::detailed("本地主题通道响应数据无效：", message.as_str()),
            ),
        },
        None => EvaluationReply::Unrelated,
    }
}

/// What to do about a response to a change of the content policy.
pub fn csp_bypass_outcome(response: &serde_json::Value, id: u64) -> (result: BypassReply)
    ensures
        result.state() == csp_bypass_state(json_tree(*response), id),
{
    if !answers(response, id) {
        return BypassReply::Unrelated;
    }
    match json_member(response, "error") {
        Some(error) => BypassReply::Failed(
            CodexError::detailed("设置本地主题资源通道失败：", print_json(error).as_str()),
        ),
        None => BypassReply::Done,
    }
}

/// What to do about a message while a change of the content policy is awaited. A message that is
/// not a text is passed as nothing.
pub fn read_csp_bypass_reply(message: Option<&str>, id: u64) -> (result: BypassReply)
    ensures
        result.state() == csp_bypass_reply(message_parsed(message), id),
{
    match message {
        Some(text) => match parse_json(text) {
            Ok(response) => csp_bypass_outcome(&response, id),
            Err(message) => BypassReply::Failed(
                CodexError::detailed("本地主题资源通道数据无效：", message.as_str()),
            ),
        },
        None => BypassReply::Unrelated,
    }
}

/// The truth value that an evaluation has given.
pub fn evaluated_flag(value: &serde_json::Value) -> (result: Result<bool, CodexError>)
    ensures
        match result {
            Ok(flag) => json_tree(*value) == JsonTree::Bool(flag),
            Err(error) => !(json_tree(*value) is Bool) && error@
                == "本地主题通道没有返回布尔结果"@,
        },
{
    match json_bool(value) {
        Some(flag) => Ok(flag),
        None => Err(CodexError::new("本地主题通道没有返回布尔结果")),
    }
}

/// The texts among some JSON values.
pub open spec fn texts_among(items: Seq<JsonTree>) -> Seq<Seq<char>>
    decreases items.len(),
{
    if items.len() == 0 {
        Seq::empty()
    } else {
        match items[0] {
            JsonTree::Text(text) => seq![text] + texts_among(items.drop_first()),
            _ => texts_among(items.drop_first()),
        }
    }
}

/// The slots that an evaluation has found: the texts in a list. Other values name no slots.
pub fn evaluated_slots(value: &serde_json::Value) -> (result: Option<Vec<String>>)
    ensures
        match result {
            Some(slots) => json_tree(*value) is List && string_views(slots@) == texts_among(
                json_tree(*value)->List_0,
            ),
            None => !(json_tree(*value) is List),
        },
{
    let items = match json_items(value) {
        Some(items) => items,
        None => {
            return None;
        },
    };
    let ghost all = json_trees(items@);
    let mut slots: Vec<String> = Vec::new();
    let mut i: usize = 0;
    proof {
        assert(all.skip(0) =~= all);
        assert(string_views(slots@) + texts_among(all) =~= texts_among(all));
    }
    while i < items.len()
        invariant
            i <= items@.len(),
            all == json_trees(items@),
            string_views(slots@) + texts_among(all.skip(i as int)) == texts_among(all),
        decreases items@.len() - i,
    {
        let ghost rest = all.skip(i as int);
        let ghost before = string_views(slots@);
        assert(rest[0] == json_tree(items@[i as int]));
        assert(rest.drop_first() =~= all.skip(i + 1));
        if let Some(slot) = json_str(&items[i]) {
            slots.push(slot.to_owned());
            assert(string_views(slots@) =~= before.push(slot@));
            assert(string_views(slots@) + texts_among(all.skip(i + 1)) =~= before + texts_among(
                rest,
            ));
        }
        i += 1;
    }
    assert(all.skip(i as int) =~= Seq::<JsonTree>::empty());
    assert(string_views(slots@) =~= texts_among(all));
    Some(slots)
}

/// Why a read of the channel has failed.
#[derive(Clone, Copy, Debug, PartialEq, Eq, Structural)]
pub enum ReadFailure {
    WouldBlock,
    TimedOut,
    Interrupted,
    Other,
}

/// What to do while a message is awaited.
#[derive(Clone, Copy, Debug, PartialEq, Eq, Structural)]
pub enum ReadAction {
    Read,
    /// The time is up.
    GiveUp,
    /// The last failure is final.
    Fail,
}

/// What to do while a message is awaited: reads that only had to wait are repeated up to the
/// deadline. Times are in nanoseconds.
pub fn read_theme_channel_message_until(
    last_failure: Option<ReadFailure>,
    now: u128,
    deadline: u128,
) -> (result: ReadAction)
    ensures
        result == if last_failure == Some(ReadFailure::Other) {
            ReadAction::Fail
        } else if now >= deadline {
            ReadAction::GiveUp
        } else {
            ReadAction::Read
        },
{
    if let Some(ReadFailure::Other) = last_failure {
        return ReadAction::Fail;
    }
    if now >= deadline {
        ReadAction::GiveUp
    } else {
        ReadAction::Read
    }
}

/// The commands that take a theme off the page, in the order in which they are sent. The second one
/// is sent whatever came of the first.
#[derive(Debug)]
pub struct RemovalCommands {
    /// Takes the theme off the page, under the number 1.
    pub remove: String,
    /// Restores the content policy of the page, under the number 2.
    pub restore: String,
}

/// The commands that take a theme off the page.
pub fn removal_commands() -> (result: RemovalCommands)
    ensures
        reads_as(result.remove@, evaluate_tree(1, REMOVE_THEME_EXPRESSION@)),
        reads_as(result.restore@, csp_bypass_tree(2, false)),
{
    RemovalCommands {
        remove: evaluate_command(1, REMOVE_THEME_EXPRESSION),
        restore: csp_bypass_command(2, false),
    }
}

/// What the removal of a theme comes to: the first failure, or else whether the theme is gone.
pub fn removal_outcome(
    removed: Result<bool, CodexError>,
    restored: Result<(), CodexError>,
) -> (result: Result<bool, CodexError>)
    ensures
        result == match (removed, restored) {
            (Err(error), _) => Err::<bool, CodexError>(error),
            (Ok(_), Err(error)) => Err(error),
            (Ok(removed), Ok(())) => Ok(removed),
        },
{
    match removed {
        Ok(removed) => match restored {
            Ok(()) => Ok(removed),
            Err(error) => Err(error),
        },
        Err(error) => Err(error),
    }
}

/// A step of the probe, with the number of its command: an attempt to apply it, or, once the
/// attempts are over, its removal, and whether it was applied.
#[derive(Clone, Copy, Debug, PartialEq, Eq, Structural)]
pub enum ProbeStep {
    TryAgain { command_id: u64 },
    Remove { command_id: u64, applied: bool },
}

/// The first attempt to apply the probe, by the first command on the channel.
pub fn first_attempt() -> (result: ProbeStep)
    ensures
        result == (ProbeStep::TryAgain { command_id: 1 }),
{
    ProbeStep::TryAgain { command_id: 1 }
}

/// The command that carries out a step: it puts the probe on the page or takes it off.
pub fn probe_command(step: ProbeStep) -> (result: String)
    ensures
        match step {
            ProbeStep::TryAgain { command_id } => reads_as(
                result@,
                evaluate_tree(command_id, PROBE_APPLY_EXPRESSION@),
            ),
            ProbeStep::Remove { command_id, .. } => reads_as(
                result@,
                evaluate_tree(command_id, PROBE_REMOVE_EXPRESSION@),
            ),
        },
{
    match step {
        ProbeStep::TryAgain { command_id } => evaluate_command(command_id, PROBE_APPLY_EXPRESSION),
        ProbeStep::Remove { command_id, .. } => evaluate_command(
            command_id,
            PROBE_REMOVE_EXPRESSION,
        ),
    }
}

/// What follows an attempt to apply the probe: its removal, where it was applied or the time is up,
/// or another attempt. Each command has the number behind the one before.
pub fn test_injection(command_id: u64, applied: bool, elapsed_milliseconds: u64) -> (result:
    ProbeStep)
    requires
        command_id < u64::MAX,
    ensures
        result == if applied || elapsed_milliseconds >= STARTUP_TIMEOUT {
            ProbeStep::Remove { command_id: (command_id + 1) as u64, applied }
        } else {
            ProbeStep::TryAgain { command_id: (command_id + 1) as u64 }
        },
{
    if applied || elapsed_milliseconds >= STARTUP_TIMEOUT {
        ProbeStep::Remove { command_id: command_id + 1, applied }
    } else {
        ProbeStep::TryAgain { command_id: command_id + 1 }
    }
}

/// A response that gives back a value under the number of a command.
pub open spec fn value_response(id: u64, value: JsonTree) -> JsonTree {
    JsonTree::Object(
        map![
            "id"@ => number_tree(id),
            "result"@ => JsonTree::Object(
                map!["result"@ => JsonTree::Object(map!["value"@ => value])],
            ),
        ],
    )
}

/// The value that the page gives back for a command is the value of its evaluation, and of no
/// other.
pub proof fn evaluation_gives_the_value_of_its_own_command(id: u64, other: u64, value: JsonTree)
    ensures
        evaluation_state(value_response(id, value), id) == ReplyState::Value(value),
        other != id ==> evaluation_state(value_response(id, value), other)
            == ReplyState::Unrelated,
        csp_bypass_state(value_response(id, value), id) == ReplyState::Value(JsonTree::Null),
{
    reveal_strlit("id");
    reveal_strlit("error");
    reveal_strlit("result");
    reveal_strlit("exceptionDetails");
    let response = value_response(id, value);
    assert("id"@.len() != "result"@.len());
    assert("error"@.len() != "result"@.len() && "error"@.len() != "id"@.len());
    assert("exceptionDetails"@.len() != "result"@.len());
    assert(response.member("id"@) == Some(number_tree(id)));
    assert(response.member("error"@) is None);
}

/// The commands carry their numbers, their methods and what they are about.
pub proof fn commands_carry_their_contents(id: u64, expression: Seq<char>, enabled: bool)
    ensures
        response_id(evaluate_tree(id, expression)) == Some(id),
        evaluate_tree(id, expression).member("method"@) == Some(
            JsonTree::Text("Runtime.evaluate"@),
        ),
        evaluate_tree(id, expression).member("params"@)->0.member("expression"@) == Some(
            JsonTree::Text(expression),
        ),
        response_id(csp_bypass_tree(id, enabled)) == Some(id),
        csp_bypass_tree(id, enabled).member("method"@) == Some(
            JsonTree::Text("Page.setBypassCSP"@),
        ),
        csp_bypass_tree(id, enabled).member("params"@)->0.member("enabled"@) == Some(
            JsonTree::Bool(enabled),
        ),
{
    reveal_strlit("id");
    reveal_strlit("method");
    reveal_strlit("params");
    reveal_strlit("expression");
    reveal_strlit("returnByValue");
    reveal_strlit("awaitPromise");
    assert("method"@[0] != "params"@[0]);
    assert("id"@.len() != "method"@.len());
    assert("expression"@.len() != "returnByValue"@.len());
    assert("expression"@.len() != "awaitPromise"@.len());
}

/// The command that evaluates an expression reads as JSON with its number, its method, the
/// expression as it was given, and the demand that its value be awaited and given back, and with
/// nothing else.
pub proof fn evaluation_command_reads_back(id: u64, expression: &str, command: String)
    requires
        call_ensures(evaluate_command, (id, expression), command),
    ensures
        json_parsed(command@) == Ok::<JsonTree, Seq<char>>(
            JsonTree::Object(
                map![
                    "id"@ => JsonTree::Number(Some(id), decimal(id as nat)),
                    "method"@ => JsonTree::Text("Runtime.evaluate"@),
                    "params"@ => JsonTree::Object(
                        map![
                            "expression"@ => JsonTree::Text(expression@),
                            "returnByValue"@ => JsonTree::Bool(true),
                            "awaitPromise"@ => JsonTree::Bool(true),
                        ],
                    ),
                ],
            ),
        ),
{
}

/// The command that changes the content policy of the page reads as JSON with its number, its
/// method and what the policy is to be, and with nothing else.
pub proof fn policy_command_reads_back(id: u64, enabled: bool, command: String)
    requires
        call_ensures(csp_bypass_command, (id, enabled), command),
    ensures
        json_parsed(command@) == Ok::<JsonTree, Seq<char>>(
            JsonTree::Object(
                map![
                    "id"@ => JsonTree::Number(Some(id), decimal(id as nat)),
                    "method"@ => JsonTree::Text("Page.setBypassCSP"@),
                    "params"@ => JsonTree::Object(map!["enabled"@ => JsonTree::Bool(enabled)]),
                ],
            ),
        ),
{
}

/// A theme is taken off the page by the evaluation of the script that removes it, as the first
/// command, and the content policy is put back in force by the second one.
pub proof fn removal_restores_the_page(commands: RemovalCommands, remove: String, restore: String)
    requires
        call_ensures(removal_commands, (), commands),
        call_ensures(evaluate_command, (1, REMOVE_THEME_EXPRESSION), remove),
        call_ensures(csp_bypass_command, (2, false), restore),
    ensures
        json_parsed(commands.remove@) == json_parsed(remove@),
        json_parsed(commands.restore@) == json_parsed(restore@),
{
}

/// The probe is put on the page by the script that applies it and taken off by the one that removes
/// it, under the number of its step.
pub proof fn probe_runs_the_script_of_its_step(
    step: ProbeStep,
    command_id: u64,
    applied: bool,
    command: String,
    apply: String,
    remove: String,
)
    requires
        call_ensures(probe_command, (step,), command),
        call_ensures(evaluate_command, (command_id, PROBE_APPLY_EXPRESSION), apply),
        call_ensures(evaluate_command, (command_id, PROBE_REMOVE_EXPRESSION), remove),
    ensures
        step == (ProbeStep::TryAgain { command_id }) ==> json_parsed(command@) == json_parsed(
            apply@,
        ),
        step == (ProbeStep::Remove { command_id, applied }) ==> json_parsed(command@)
            == json_parsed(remove@),
{
}

/// The probe is tried by the first command, then again with the next number until it is on the page
/// or twenty seconds are over; it is then taken off, once, with the next number, and what is told of
/// it is whether it was on the page.
pub proof fn probe_is_tried_until_it_is_applied(
    first: ProbeStep,
    command_id: u64,
    applied: bool,
    elapsed_milliseconds: u64,
    next: ProbeStep,
)
    requires
        call_ensures(first_attempt, (), first),
        command_id < u64::MAX,
        call_ensures(test_injection, (command_id, applied, elapsed_milliseconds), next),
    ensures
        first is TryAgain && first->TryAgain_command_id == 1,
        !applied && elapsed_milliseconds < 20_000 ==> next is TryAgain && next->TryAgain_command_id
            == command_id + 1,
        applied || elapsed_milliseconds >= 20_000 ==> next is Remove && next->Remove_command_id
            == command_id + 1 && next->Remove_applied == applied,
{
}

/// What a response says of an evaluation. A response without the number of the command says
/// nothing; one that tells of an error, or else of an exception, fails the evaluation with what it
/// tells; any other gives the value in it, or, without one, fails.
pub proof fn evaluation_goes_by_its_own_response(
    response: serde_json::Value,
    id: u64,
    reply: EvaluationReply,
)
    requires
        call_ensures(evaluation_outcome, (&response, id), reply),
    ensures
        ({
            let tree = json_tree(response);
            let own = tree.member("id"@) matches Some(JsonTree::Number(Some(number), _)) && number
                == id;
            let result = tree.member("result"@);
            let details = match result {
                Some(inner) => inner.member("exceptionDetails"@),
                None => None,
            };
            let outer = match result {
                Some(inner) => inner.member("result"@),
                None => None,
            };
            let value = match outer {
                Some(inner) => inner.member("value"@),
                None => None,
            };
            &&& !own <==> reply is Unrelated
            &&& own && tree.member("error"@) is Some ==> reply is Failed && reply->Failed_0@
                == "本地主题通道命令返回错误："@ + json_printed(tree.member("error"@)->0)
            &&& own && tree.member("error"@) is None && details is Some ==> reply is Failed
                && reply->Failed_0@ == "本地主题通道脚本执行失败："@ + json_printed(details->0)
            &&& own && tree.member("error"@) is None && details is None && value is Some ==> reply
                is Value && json_tree(reply->Value_0) == value->0
            &&& own && tree.member("error"@) is None && details is None && value is None ==> reply
                is Failed && reply->Failed_0@ == "本地主题通道命令没有返回值"@
        }),
{
    let state = reply.state();
    assert(state == evaluation_state(json_tree(response), id));
}

/// What a message says of an evaluation: what the response in it says; nothing, where it is no text;
/// and a text that is no JSON fails the evaluation.
pub proof fn evaluation_message_is_read_as_json(
    message: Option<&str>,
    id: u64,
    reply: EvaluationReply,
    response: serde_json::Value,
    of_response: EvaluationReply,
)
    requires
        call_ensures(read_evaluation_reply, (message, id), reply),
        call_ensures(evaluation_outcome, (&response, id), of_response),
    ensures
        message is None ==> reply is Unrelated,
        message matches Some(text) && json_parsed(text@) is Err ==> reply is Failed
            && reply->Failed_0@ == "本地主题通道响应数据无效："@ + json_parsed(message->0@)->Err_0,
        message matches Some(text) && json_parsed(text@) == Ok::<JsonTree, Seq<char>>(
            json_tree(response),
        ) ==> match of_response {
            EvaluationReply::Unrelated => reply is Unrelated,
            EvaluationReply::Value(value) => reply is Value && json_tree(reply->Value_0)
                == json_tree(value),
            EvaluationReply::Failed(error) => reply is Failed && reply->Failed_0@ == error@,
        },
{
    let state = reply.state();
    let other = of_response.state();
}

/// What a message says of a change of the content policy. Only a response with the number of the
/// command says something: that the change is made, or the error that it tells of. A text that is no
/// JSON fails the change.
pub proof fn policy_goes_by_its_own_response(
    message: Option<&str>,
    id: u64,
    reply: BypassReply,
)
    requires
        call_ensures(read_csp_bypass_reply, (message, id), reply),
    ensures
        message is None ==> reply is Unrelated,
        message matches Some(text) && json_parsed(text@) is Err ==> reply is Failed
            && reply->Failed_0@ == "本地主题资源通道数据无效："@ + json_parsed(message->0@)->Err_0,
        message matches Some(text) && json_parsed(text@) is Ok ==> {
            let tree = json_parsed(message->0@)->Ok_0;
            let own = tree.member("id"@) matches Some(JsonTree::Number(Some(number), _)) && number
                == id;
            &&& !own <==> reply is Unrelated
            &&& own && tree.member("error"@) is None <==> reply is Done
            &&& own && tree.member("error"@) is Some ==> reply is Failed && reply->Failed_0@
                == "设置本地主题资源通道失败："@ + json_printed(tree.member("error"@)->0)
        },
{
    let state = reply.state();
}

/// The texts in a list are found in their order, and what is no text is passed over.
pub proof fn texts_are_found_in_order(left: Seq<JsonTree>, right: Seq<JsonTree>, item: JsonTree)
    ensures
        texts_among(left + right) == texts_among(left) + texts_among(right),
        texts_among(seq![item]) == match item {
            JsonTree::Text(text) => seq![text],
            _ => Seq::empty(),
        },
    decreases left.len(),
{
    reveal_with_fuel(texts_among, 2);
    assert(seq![item].drop_first() =~= Seq::empty());
    if left.len() == 0 {
        assert(left + right =~= right);
        assert(texts_among(left) + texts_among(right) =~= texts_among(right));
    } else {
        texts_are_found_in_order(left.drop_first(), right, item);
        assert((left + right).drop_first() =~= left.drop_first() + right);
        assert(texts_among(left + right) =~= texts_among(left) + texts_among(right));
    }
}

/// An evaluation that gives a list of texts has found exactly these, in their order; one that gives
/// anything but a list has found nothing at all.
pub proof fn found_slots_are_the_texts(
    value: serde_json::Value,
    slots: Option<Vec<String>>,
    texts: Seq<Seq<char>>,
)
    requires
        call_ensures(evaluated_slots, (&value,), slots),
    ensures
        json_tree(value) is List <==> slots is Some,
        json_tree(value) == JsonTree::List(
            texts.map_values(|text: Seq<char>| JsonTree::Text(text)),
        ) ==> slots is Some && string_views(slots->0@) == texts,
{
    lemma_all_texts(texts);
}

proof fn lemma_all_texts(texts: Seq<Seq<char>>)
    ensures
        texts_among(texts.map_values(|text: Seq<char>| JsonTree::Text(text))) == texts,
    decreases texts.len(),
{
    let items = texts.map_values(|text: Seq<char>| JsonTree::Text(text));
    if texts.len() > 0 {
        lemma_all_texts(texts.drop_first());
        assert(items.drop_first() =~= texts.drop_first().map_values(
            |text: Seq<char>| JsonTree::Text(text),
        ));
    }
    assert(texts_among(items) =~= texts);
}

/// An evaluation that gives a truth value tells that value, and any other tells none.
pub proof fn evaluation_tells_its_truth_value(
    value: serde_json::Value,
    told: Result<bool, CodexError>,
)
    requires
        call_ensures(evaluated_flag, (&value,), told),
    ensures
        json_tree(value) == JsonTree::Bool(true) <==> told == Ok::<bool, CodexError>(true),
        json_tree(value) == JsonTree::Bool(false) <==> told == Ok::<bool, CodexError>(false),
        told matches Err(error) ==> error@ == "本地主题通道没有返回布尔结果"@,
{
}

/// A message is awaited as long as there is time and no failure but that of having to wait: only
/// another failure is final, at any time.
pub proof fn waiting_is_no_failure(
    last_failure: Option<ReadFailure>,
    now: u128,
    deadline: u128,
    action: ReadAction,
)
    requires
        call_ensures(read_theme_channel_message_until, (last_failure, now, deadline), action),
    ensures
        action is Fail <==> last_failure == Some(ReadFailure::Other),
        action is Read <==> now < deadline && last_failure != Some(ReadFailure::Other),
        action is GiveUp <==> deadline <= now && last_failure != Some(ReadFailure::Other),
{
}

/// The removal of a theme fails with the first failure on its way, and else tells whether the theme
/// is gone.
pub proof fn removal_tells_the_first_failure(
    removed: Result<bool, CodexError>,
    restored: Result<(), CodexError>,
    told: Result<bool, CodexError>,
)
    requires
        call_ensures(removal_outcome, (removed, restored), told),
    ensures
        removed is Err ==> told == removed,
        removed is Ok && restored is Ok ==> told == removed,
        removed is Ok && restored is Err ==> told is Err && told->Err_0 == restored->Err_0,
{
}

proof fn lemma_texts_among(items: Seq<JsonTree>)
    ensures
        texts_among(items) == items.filter(|item: JsonTree| item is Text).map_values(
            |item: JsonTree| item->Text_0,
        ),
    decreases items.len(),
{
    let keeps = |item: JsonTree| item is Text;
    let inner = |item: JsonTree| item->Text_0;
    reveal(Seq::filter);
    if items.len() > 0 {
        let first = seq![items[0]];
        let rest = items.drop_first();
        lemma_texts_among(rest);
        assert(items =~= first + rest);
        Seq::filter_distributes_over_add(first, rest, keeps);
        assert(first.drop_last() =~= Seq::empty());
        assert(Seq::<JsonTree>::empty().filter(keeps) =~= Seq::empty());
        assert(first.filter(keeps) =~= if items[0] is Text {
            first
        } else {
            Seq::empty()
        });
        assert(items.filter(keeps) =~= first.filter(keeps) + rest.filter(keeps));
    }
    assert(texts_among(items) =~= items.filter(keeps).map_values(inner));
}

/// What an evaluation that gives a list has found are the texts in it, all of them and nothing else,
/// in their order.
pub proof fn found_slots_are_all_texts_of_the_list(
    value: serde_json::Value,
    items: Seq<JsonTree>,
    slots: Option<Vec<String>>,
)
    requires
        call_ensures(evaluated_slots, (&value,), slots),
        json_tree(value) == JsonTree::List(items),
    ensures
        slots is Some,
        string_views(slots->0@) == items.filter(|item: JsonTree| item is Text).map_values(
            |item: JsonTree| item->Text_0,
        ),
{
    lemma_texts_among(items);
}

/// What a response says of a change of the content policy is what the message that it came in says.
pub proof fn policy_response_is_read_as_its_message(
    text: &str,
    response: serde_json::Value,
    id: u64,
    of_message: BypassReply,
    of_response: BypassReply,
)
    requires
        call_ensures(read_csp_bypass_reply, (Some(text), id), of_message),
        call_ensures(csp_bypass_outcome, (&response, id), of_response),
        json_parsed(text@) == Ok::<JsonTree, Seq<char>>(json_tree(response)),
    ensures
        match (of_message, of_response) {
            (BypassReply::Unrelated, BypassReply::Unrelated) => true,
            (BypassReply::Done, BypassReply::Done) => true,
            (BypassReply::Failed(error), BypassReply::Failed(other)) => error@ == other@,
            _ => false,
        },
{
    let state = of_message.state();
    let other = of_response.state();
    assert(state == other);
}

} // verus!
