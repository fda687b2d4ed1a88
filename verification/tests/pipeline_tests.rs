use agent::hooks::{
    after_step_public_reply, apply_effect, into_public_effect, phase_public_reply, AgentActorEvent, AgentError, Effect,
    EffectSignal, HookDoneStep, HookEffect, HookError, HookEvent, HookPhase, HookStepResult, HookStepUpdate, HookToolCall,
    StepFrame, StepResultDraft,
};
use agent::json::JsonValue;
use agent::message::{ToolCall, ToolCallFunction};

#[test]
fn replace_result_only_after_the_step() {
    let update = HookStepUpdate::Done(HookDoneStep { content: "x".to_string(), reasoning_content: None });
    match into_public_effect("guard", HookPhase::BeforeStep, HookEffect::ReplaceResult(update)) {
        Err(e) => assert_eq!(
            e.to_text(),
            "Hook `guard` failed at BeforeStep: ReplaceResult is only supported during after_step"
        ),
        Ok(_) => panic!("expected an error"),
    }
    let update = HookStepUpdate::Done(HookDoneStep { content: "x".to_string(), reasoning_content: None });
    assert!(matches!(
        into_public_effect("guard", HookPhase::AfterStep, HookEffect::ReplaceResult(update)),
        Ok(Effect::SetResult(StepResultDraft::Done { .. }))
    ));
}

#[test]
fn metadata_effects_set_and_remove() {
    let mut frame = StepFrame::new();
    let (sig, ev) = apply_effect(&mut frame, Effect::SetMetadata { key: "b".to_string(), value: JsonValue::Bool(true) });
    assert_eq!(sig, EffectSignal::Continue);
    assert!(ev.is_none());
    apply_effect(&mut frame, Effect::SetMetadata { key: "a".to_string(), value: JsonValue::Null });
    assert_eq!(frame.metadata.iter().map(|(k, _)| k.as_str()).collect::<Vec<_>>(), vec!["a", "b"]);
    apply_effect(&mut frame, Effect::RemoveMetadata { key: "b".to_string() });
    assert_eq!(frame.metadata.len(), 1);
}

#[test]
fn abort_stops_the_public_hooks_after_the_step() {
    let mut frame = StepFrame::new();
    frame.set_result(StepResultDraft::Done { content: "ok".to_string(), reasoning_content: None });
    let effects = vec![
        HookEffect::EmitEvent(HookEvent { kind: "note".to_string(), payload: JsonValue::Null }),
        HookEffect::Abort { reason: "stop".to_string() },
        HookEffect::RemoveMetadata { key: "never".to_string() },
    ];
    let (stop, events) = after_step_public_reply(&mut frame, "h", Ok(effects));
    assert!(stop);
    assert_eq!(events.len(), 1);
    assert!(matches!(&events[0], AgentActorEvent::HookEvent { hook, kind, .. } if hook == "h" && kind == "note"));
    assert!(matches!(frame.result(), Some(StepResultDraft::Error(AgentError::Hook { .. }))));
}

#[test]
fn a_failing_hook_fails_the_phase() {
    let mut frame = StepFrame::new();
    let (res, events) = phase_public_reply(&mut frame, "h", HookPhase::OnModelEvent, Err(HookError::new("boom")));
    assert!(events.is_empty());
    match res {
        Err(e) => assert_eq!(e.to_text(), "Hook `h` failed at OnModelEvent: boom"),
        Ok(_) => panic!("expected an error"),
    }
}

#[test]
fn hook_calls_take_a_type_and_function() {
    let call = ToolCall {
        id: "1".to_string(),
        call_type: None,
        index: Some(2),
        function: None,
        name: Some("f".to_string()),
        arguments: Some(JsonValue::Bool(true)),
    };
    let h = HookToolCall::from_tool_call(&call);
    assert_eq!(h.call_type, "function");
    assert_eq!(h.function.name, "f");
    assert_eq!(h.function.arguments, "true");
    let back = h.into_tool_call();
    assert!(matches!(back.function, Some(ToolCallFunction { ref name, ref arguments }) if name == "f" && arguments == "true"));
    assert_eq!(back.index, Some(2));
}

#[test]
fn errors_reach_hooks_by_kind_and_text() {
    let draft = StepResultDraft::Error(AgentError::MaxIterations(10));
    match HookStepResult::from_draft(&draft) {
        HookStepResult::Error(e) => {
            assert_eq!(e.kind, "max_iterations");
            assert_eq!(e.message, "Max iterations (10) reached");
        }
        _ => panic!("expected an error"),
    }
}
