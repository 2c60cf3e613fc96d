use file_agent::conversation::{Role, ToolCall};
use file_agent::engine::{Agent, Step, MAX_ROUNDS};
use file_agent::tools::{FunctionCall, Tool};

fn tool_call(id: &str, name: Tool, arguments: &str) -> ToolCall {
    ToolCall {
        id: id.to_string(),
        tool_type: "function".to_string(),
        function: FunctionCall { name, arguments: arguments.to_string(), content: None },
    }
}

#[test]
fn plain_reply_ends_on_first_round() {
    let mut a = Agent::new("say hi".to_string(), MAX_ROUNDS);
    assert_eq!(a.next_step(), Step::Request);
    let r = a.receive(Some("hi there".to_string()), vec![]);
    assert_eq!(r, Some("hi there".to_string()));
    assert_eq!(a.next_step(), Step::Finished);
    assert_eq!(a.rounds(), 1);
    let h = &a.history().0;
    assert_eq!(h.len(), 2);
    assert_eq!(h[0].role, Role::User);
    assert_eq!(h[0].content, Some("say hi".to_string()));
    assert_eq!(h[1].role, Role::Assistant);
    assert_eq!(h[1].content, Some("hi there".to_string()));
    assert!(h[1].tool_calls.is_none());
}

#[test]
fn tool_rounds_then_text_interleave_in_order() {
    let mut a = Agent::new("do it".to_string(), MAX_ROUNDS);
    assert_eq!(a.next_step(), Step::Request);
    assert_eq!(a.receive(None, vec![tool_call("c1", Tool::Read, r#"{"file_path":"a"}"#)]), None);
    assert_eq!(a.next_step(), Step::RunTool);
    assert_eq!(a.pending_call().id, "c1");
    a.record_tool_result("A".to_string());
    assert_eq!(a.next_step(), Step::Request);
    assert_eq!(a.receive(None, vec![tool_call("c2", Tool::Write, r#"{"file_path":"b","content":"x"}"#)]), None);
    assert_eq!(a.pending_call().id, "c2");
    a.record_tool_result("file written succesfully".to_string());
    assert_eq!(a.next_step(), Step::Request);
    assert_eq!(a.receive(Some("done".to_string()), vec![]), Some("done".to_string()));
    assert_eq!(a.next_step(), Step::Finished);
    assert_eq!(a.rounds(), 3);

    let h = &a.history().0;
    assert_eq!(h.len(), 6);
    let roles: Vec<Role> = h.iter().map(|m| m.role).collect();
    assert_eq!(
        roles,
        vec![Role::User, Role::Assistant, Role::Tool, Role::Assistant, Role::Tool, Role::Assistant]
    );
    assert_eq!(h[1].tool_calls.as_ref().unwrap()[0].id, "c1");
    assert_eq!(h[2].tool_call_id, Some("c1".to_string()));
    assert_eq!(h[2].content, Some("A".to_string()));
    assert_eq!(h[3].tool_calls.as_ref().unwrap()[0].id, "c2");
    assert_eq!(h[4].tool_call_id, Some("c2".to_string()));
    assert_eq!(h[5].content, Some("done".to_string()));
}

#[test]
fn several_calls_in_a_round_run_in_given_order() {
    let mut a = Agent::new("p".to_string(), MAX_ROUNDS);
    a.receive(
        None,
        vec![
            tool_call("x", Tool::Read, r#"{"file_path":"1"}"#),
            tool_call("y", Tool::Read, r#"{"file_path":"2"}"#),
            tool_call("z", Tool::Read, r#"{"file_path":"3"}"#),
        ],
    );
    for (id, out) in [("x", "one"), ("y", "two"), ("z", "three")] {
        assert_eq!(a.next_step(), Step::RunTool);
        assert_eq!(a.pending_call().id, id);
        a.record_tool_result(out.to_string());
    }
    assert_eq!(a.next_step(), Step::Request);
    let h = &a.history().0;
    assert_eq!(h.len(), 5);
    assert_eq!(h[2].tool_call_id, Some("x".to_string()));
    assert_eq!(h[3].tool_call_id, Some("y".to_string()));
    assert_eq!(h[4].tool_call_id, Some("z".to_string()));
    assert_eq!(h[4].content, Some("three".to_string()));
}

#[test]
fn budget_is_exhausted_after_max_rounds() {
    let mut a = Agent::new("loop".to_string(), 2);
    for i in 0..2 {
        assert_eq!(a.next_step(), Step::Request);
        a.receive(None, vec![tool_call(&format!("c{}", i), Tool::Read, r#"{"file_path":"f"}"#)]);
        a.record_tool_result("r".to_string());
    }
    assert_eq!(a.rounds(), 2);
    assert_eq!(a.next_step(), Step::Exhausted);
    assert_eq!(a.history().0.len(), 5);
}

#[test]
fn zero_budget_asks_for_no_request() {
    let a = Agent::new("p".to_string(), 0);
    assert_eq!(a.next_step(), Step::Exhausted);
    assert_eq!(a.history().len(), 1);
}

#[test]
fn full_budget_of_tool_rounds_stops_at_forty() {
    let mut a = Agent::new("p".to_string(), MAX_ROUNDS);
    let mut requests = 0;
    while a.next_step() == Step::Request {
        requests += 1;
        a.receive(None, vec![tool_call("c", Tool::Read, "{}")]);
        a.record_tool_result("x".to_string());
    }
    assert_eq!(requests, 40);
    assert_eq!(a.next_step(), Step::Exhausted);
}

#[test]
fn empty_reply_text_still_ends_the_run() {
    let mut a = Agent::new("p".to_string(), MAX_ROUNDS);
    assert_eq!(a.receive(None, vec![]), None);
    assert_eq!(a.next_step(), Step::Finished);
}
