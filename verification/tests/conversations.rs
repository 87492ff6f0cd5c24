use temper_desktop::conversation_loop::{
    ConversationCommand, ConversationLoop, LoopAction, LoopEvent, LoopState,
};
use temper_desktop::conversations::{
    acp_close, acp_start_request, checked_directory, conversation_id_text, conversation_number,
    cwd_request, home_directory, permission_answer, prompt_outcome, AcpState, CwdRequest,
    PermissionAnswer, ReadyOutcome,
};
use temper_desktop::stop_reason::{stop_reason_string, stop_reason_text, SerializedJson, StopReason};
use temper_desktop::text::{decimal_text, trim_text};

#[test]
fn decimal_numerals() {
    assert_eq!(decimal_text(0), "0");
    assert_eq!(decimal_text(7), "7");
    assert_eq!(decimal_text(10), "10");
    assert_eq!(decimal_text(1234567890), "1234567890");
    assert_eq!(decimal_text(u64::MAX), "18446744073709551615");
}

#[test]
fn conversation_ids_round_trip() {
    assert_eq!(conversation_id_text(0), "conversation-0");
    assert_eq!(conversation_id_text(42), "conversation-42");
    for n in [0u64, 9, 10, 99, 100, 123456, u64::MAX] {
        assert_eq!(conversation_number(&conversation_id_text(n)), Some(n));
    }
}

#[test]
fn only_canonical_ids_name_conversations() {
    assert_eq!(conversation_number("conversation-07"), None);
    assert_eq!(conversation_number("conversation-"), None);
    assert_eq!(conversation_number("conversation-1x"), None);
    assert_eq!(conversation_number("Conversation-1"), None);
    assert_eq!(conversation_number("conversation-18446744073709551616"), None);
    assert_eq!(conversation_number("conversation-18446744073709551615"), Some(u64::MAX));
    assert_eq!(conversation_number(" conversation-1"), None);
}

#[test]
fn conversations_are_numbered_in_turn() {
    let mut state: AcpState<&str> = AcpState::new();
    assert_eq!(state.next_conversation(), 0);
    assert_eq!(state.next_conversation(), 1);
    assert_eq!(state.next_conversation(), 2);
    let mut fresh: AcpState<u8> = AcpState::default();
    assert_eq!(fresh.next_conversation(), 0);
    assert!(fresh.prompt_target("conversation-0").is_err());
}

#[test]
fn a_ready_conversation_is_registered_and_closed() {
    let mut state: AcpState<&str> = AcpState::new();
    let n = state.next_conversation();
    let info = state
        .finish_start(
            n,
            "handle",
            ReadyOutcome::Ready { session_id: "sess-1".to_string(), agent_info: 5u8 },
            false,
        )
        .unwrap();
    assert_eq!(info.conversation_id, "conversation-0");
    assert_eq!(info.session_id, "sess-1");
    assert_eq!(info.agent_info, 5u8);
    assert_eq!(state.prompt_target("conversation-0"), Ok(&"handle"));
    assert_eq!(acp_close(&mut state, "conversation-0"), Ok(()));
    assert_eq!(
        state.prompt_target("conversation-0"),
        Err("unknown conversation conversation-0".to_string())
    );
    assert_eq!(
        acp_close(&mut state, "conversation-0"),
        Err("unknown conversation conversation-0".to_string())
    );
}

#[test]
fn failed_starts_register_nothing() {
    let mut state: AcpState<&str> = AcpState::new();
    let n = state.next_conversation();
    let timed_out = state.finish_start(n, "h", ReadyOutcome::<u8>::TimedOut, false);
    assert_eq!(timed_out.err(), Some("agent did not answer the handshake within 60s".to_string()));
    let ended = state.finish_start(n, "h", ReadyOutcome::<u8>::Ended, false);
    assert_eq!(ended.err(), Some("conversation ended before it was ready".to_string()));
    let failed = state.finish_start(n, "h", ReadyOutcome::<u8>::Failed("boom".to_string()), false);
    assert_eq!(failed.err(), Some("boom".to_string()));
    assert_eq!(
        acp_close(&mut state, "conversation-0"),
        Err("unknown conversation conversation-0".to_string())
    );
}

#[test]
fn unknown_ids_are_reported_as_given() {
    let mut state: AcpState<u8> = AcpState::new();
    assert_eq!(acp_close(&mut state, "nope"), Err("unknown conversation nope".to_string()));
    assert_eq!(
        state.prompt_target("conversation-00"),
        Err("unknown conversation conversation-00".to_string())
    );
}

#[test]
fn a_gone_loop_drops_its_entry() {
    let mut state: AcpState<u8> = AcpState::new();
    let n = state.next_conversation();
    let _ = state.finish_start(
        n,
        9,
        ReadyOutcome::Ready { session_id: "s".to_string(), agent_info: () },
        false,
    );
    assert_eq!(state.conversation_gone("conversation-0"), "conversation has ended");
    assert!(state.prompt_target("conversation-0").is_err());
}

#[test]
fn prompt_outcomes() {
    assert_eq!(prompt_outcome(Some(Ok("end_turn".to_string()))), Ok("end_turn".to_string()));
    assert_eq!(prompt_outcome(Some(Err("bad".to_string()))), Err("bad".to_string()));
    assert_eq!(
        prompt_outcome(None),
        Err("conversation ended before the turn completed".to_string())
    );
}

#[test]
fn working_directory_requests() {
    assert_eq!(cwd_request("~"), CwdRequest::Home);
    assert_eq!(cwd_request("  ~ \n"), CwdRequest::Home);
    assert_eq!(cwd_request(" ~/projects/x "), CwdRequest::InHome("projects/x".to_string()));
    assert_eq!(cwd_request("~/"), CwdRequest::InHome(String::new()));
    assert_eq!(cwd_request("/tmp/work"), CwdRequest::Path("/tmp/work".to_string()));
    assert_eq!(cwd_request("~user"), CwdRequest::Path("~user".to_string()));
    assert_eq!(cwd_request(""), CwdRequest::Path(String::new()));
}

#[test]
fn start_requests() {
    assert!(acp_start_request("", "/tmp").is_err());
    assert!(acp_start_request("   ", "/tmp").is_err());
    let (_agent, cwd) = acp_start_request("opencode acp", "~/w").unwrap();
    assert!(acp_start_request("{not json", "/tmp").is_err());
    assert_eq!(cwd, CwdRequest::InHome("w".to_string()));
    let (_agent, cwd) = acp_start_request("npx -y @example/agent-acp --verbose", "/tmp")
        .expect("agent command should parse");
    assert_eq!(cwd, CwdRequest::Path("/tmp".to_string()));
}

#[test]
fn stop_reasons_have_their_wire_names() {
    assert_eq!(stop_reason_string(&StopReason::EndTurn), "end_turn");
    assert_eq!(stop_reason_string(&StopReason::MaxTokens), "max_tokens");
    assert_eq!(stop_reason_string(&StopReason::MaxTurnRequests), "max_turn_requests");
    assert_eq!(stop_reason_string(&StopReason::Refusal), "refusal");
    assert_eq!(stop_reason_string(&StopReason::Cancelled), "cancelled");
}

#[test]
fn serialized_stop_reasons_to_text() {
    assert_eq!(stop_reason_text(Ok(SerializedJson::Text("end_turn".to_string()))), "end_turn");
    assert_eq!(stop_reason_text(Ok(SerializedJson::Other("{\"a\":1}".to_string()))), "{\"a\":1}");
    assert_eq!(stop_reason_text(Err("oops".to_string())), "<unserializable: oops>");
}

#[test]
fn a_conversation_runs_its_turns_in_one_session() {
    let mut lp: ConversationLoop<&str, u8> = ConversationLoop::new();
    assert!(matches!(
        lp.step::<String>(LoopEvent::Initialized(Ok(1))),
        LoopAction::CreateSession
    ));
    match lp.step::<String>(LoopEvent::SessionCreated(Ok("sess".to_string()))) {
        LoopAction::SignalReady { session_id, agent_info } => {
            assert_eq!(session_id, "sess");
            assert_eq!(agent_info, 1);
        }
        _ => panic!("the conversation signals ready once its session exists"),
    }
    for (text, reply) in [("Reply with exactly: OK", "r1"), ("again", "r2")] {
        match lp.step::<String>(LoopEvent::Command(Some(ConversationCommand::Prompt {
            text: text.to_string(),
            reply,
        }))) {
            LoopAction::SendPrompt { session_id, text: sent } => {
                assert_eq!(session_id, "sess");
                assert_eq!(sent, text);
            }
            _ => panic!("a prompt is sent into the session"),
        }
        match lp.step::<String>(LoopEvent::TurnEnded(Ok(StopReason::EndTurn))) {
            LoopAction::Reply { reply: r, result } => {
                assert_eq!(r, reply);
                assert_eq!(result, Ok("end_turn".to_string()));
            }
            _ => panic!("the turn's end answers the prompt"),
        }
    }
    match lp.step::<String>(LoopEvent::Command(Some(ConversationCommand::Prompt {
        text: "x".to_string(),
        reply: "r3",
    }))) {
        LoopAction::SendPrompt { .. } => {}
        _ => panic!("a prompt is sent into the session"),
    }
    match lp.step::<String>(LoopEvent::TurnEnded(Err("agent crashed".to_string()))) {
        LoopAction::Reply { reply, result } => {
            assert_eq!(reply, "r3");
            assert_eq!(result, Err("agent crashed".to_string()));
        }
        _ => panic!("a failed turn still answers the prompt"),
    }
    assert!(matches!(lp.step::<String>(LoopEvent::Command(None)), LoopAction::Finish(Ok(()))));
    assert!(lp.is_done());
    assert!(matches!(lp.state, LoopState::Done));
}

#[test]
fn a_failed_handshake_ends_the_loop() {
    let mut lp: ConversationLoop<(), u8> = ConversationLoop::new();
    match lp.step(LoopEvent::Initialized(Err("no agent".to_string()))) {
        LoopAction::Finish(Err(e)) => assert_eq!(e, "no agent"),
        _ => panic!("a failed initialize ends the loop with its error"),
    }
    assert!(lp.is_done());

    let mut lp: ConversationLoop<(), u8> = ConversationLoop::new();
    let _ = lp.step::<String>(LoopEvent::Initialized(Ok(0)));
    match lp.step(LoopEvent::SessionCreated(Err("no session".to_string()))) {
        LoopAction::Finish(Err(e)) => assert_eq!(e, "no session"),
        _ => panic!("a failed session/new ends the loop with its error"),
    }
    assert!(lp.is_done());
}

#[test]
fn a_dead_conversation_is_unknown() {
    let mut state: AcpState<u8> = AcpState::new();
    let n = state.next_conversation();
    let _ = state.finish_start(
        n,
        1,
        ReadyOutcome::Ready { session_id: "s".to_string(), agent_info: () },
        false,
    );
    let m = state.next_conversation();
    let _ = state.finish_start(
        m,
        2,
        ReadyOutcome::Ready { session_id: "t".to_string(), agent_info: () },
        false,
    );
    state.conversation_ended(n);
    assert_eq!(
        state.prompt_target("conversation-0"),
        Err("unknown conversation conversation-0".to_string())
    );
    assert_eq!(state.prompt_target("conversation-1"), Ok(&2));
    assert_eq!(
        acp_close(&mut state, "conversation-0"),
        Err("unknown conversation conversation-0".to_string())
    );
}

#[test]
fn home_and_directory_checks() {
    assert_eq!(home_directory(Some("/home/a")), Ok("/home/a"));
    assert_eq!(
        home_directory::<&str>(None),
        Err("home directory cannot be resolved".to_string())
    );
    assert_eq!(checked_directory(3u8, true, "/tmp"), Ok(3u8));
    assert_eq!(
        checked_directory(3u8, false, "/nope"),
        Err("working directory is not an existing directory: /nope".to_string())
    );
}

#[test]
fn permission_requests_are_declined() {
    assert_eq!(permission_answer(&vec!["allow-once".to_string()]), PermissionAnswer::Cancel);
    assert_eq!(permission_answer(&Vec::new()), PermissionAnswer::Cancel);
}

#[test]
fn trimming_matches_str_trim() {
    for s in ["", "   ", " a b ", "\u{3000}x\u{a0}", "\t\nabc\r\n", "no-space", "\u{85}\u{2028}"] {
        assert_eq!(trim_text(s), s.trim());
    }
}

#[test]
fn a_loop_that_ended_before_registration_leaves_no_entry() {
    let mut state: AcpState<u8> = AcpState::new();
    let n = state.next_conversation();
    let info = state
        .finish_start(
            n,
            1,
            ReadyOutcome::Ready { session_id: "s".to_string(), agent_info: 4u8 },
            true,
        )
        .unwrap();
    assert_eq!(info.conversation_id, "conversation-0");
    assert_eq!(info.session_id, "s");
    assert_eq!(
        state.prompt_target("conversation-0"),
        Err("unknown conversation conversation-0".to_string())
    );
}
