use wormhole_core::code::{
    Code, CodeError, CodeEvent, CodeMachine, CodeOutput, Nameplate, Wordlist,
};

fn set_code(m: &mut CodeMachine, s: &str) -> Result<Vec<CodeOutput>, CodeError> {
    m.process(CodeEvent::SetCode(Code(s.to_string())))
}

#[test]
fn set_code_splits_nameplate_at_first_dash() {
    let mut m = CodeMachine::new();
    let outs = set_code(&mut m, "4-purple-sausages").unwrap();
    assert_eq!(outs.len(), 2);
    assert!(matches!(&outs[0], CodeOutput::SetNameplate(n) if n.0 == "4"));
    assert!(matches!(&outs[1], CodeOutput::GotCode(c) if c.0 == "4-purple-sausages"));
}

#[test]
fn set_code_without_dash_claims_whole_code() {
    let mut m = CodeMachine::new();
    let outs = set_code(&mut m, "justonetoken").unwrap();
    assert!(matches!(&outs[0], CodeOutput::SetNameplate(n) if n.0 == "justonetoken"));
}

#[test]
fn set_code_is_terminal() {
    let mut m = CodeMachine::new();
    set_code(&mut m, "4-purple-sausages").unwrap();
    let again = set_code(&mut m, "5-hollow-kangaroo");
    assert!(matches!(again, Err(CodeError::WrongState)));
}

#[test]
fn allocation_flow_passes_wordlist_and_checks_prefix() {
    let mut m = CodeMachine::new();
    let outs = m
        .process(CodeEvent::AllocateCode(Wordlist { num_words: 2 }))
        .unwrap();
    assert_eq!(outs.len(), 1);
    assert!(matches!(&outs[0], CodeOutput::Allocate(w) if w.num_words == 2));
    let outs = m
        .process(CodeEvent::Allocated(
            Nameplate("4".to_string()),
            Code("4-purple-sausages".to_string()),
        ))
        .unwrap();
    assert!(matches!(&outs[0], CodeOutput::SetNameplate(n) if n.0 == "4"));
    assert!(matches!(&outs[1], CodeOutput::GotCode(c) if c.0 == "4-purple-sausages"));
}

#[test]
fn allocation_with_foreign_nameplate_is_a_protocol_error() {
    let mut m = CodeMachine::new();
    m.process(CodeEvent::AllocateCode(Wordlist { num_words: 2 }))
        .unwrap();
    let r = m.process(CodeEvent::Allocated(
        Nameplate("4".to_string()),
        Code("5-purple-sausages".to_string()),
    ));
    assert!(matches!(r, Err(CodeError::AllocationMismatch)));
}

#[test]
fn allocation_needs_dash_right_after_nameplate() {
    let mut m = CodeMachine::new();
    m.process(CodeEvent::AllocateCode(Wordlist { num_words: 2 }))
        .unwrap();
    let r = m.process(CodeEvent::Allocated(
        Nameplate("4".to_string()),
        Code("42-purple".to_string()),
    ));
    assert!(matches!(r, Err(CodeError::AllocationMismatch)));
}

#[test]
fn input_flow_composes_nameplate_and_words() {
    let mut m = CodeMachine::new();
    let outs = m.process(CodeEvent::InputCode).unwrap();
    assert!(matches!(&outs[0], CodeOutput::StartInput));
    let outs = m
        .process(CodeEvent::GotNameplate(Nameplate("4".to_string())))
        .unwrap();
    assert!(matches!(&outs[0], CodeOutput::SetNameplate(n) if n.0 == "4"));
    let outs = m
        .process(CodeEvent::FinishedInput("purple-sausages".to_string()))
        .unwrap();
    assert!(matches!(&outs[0], CodeOutput::GotCode(c) if c.0 == "4-purple-sausages"));
}

#[test]
fn events_outside_their_state_are_refused() {
    let mut m = CodeMachine::new();
    let r = m.process(CodeEvent::GotNameplate(Nameplate("4".to_string())));
    assert!(matches!(r, Err(CodeError::WrongState)));
    let r = m.process(CodeEvent::FinishedInput("words".to_string()));
    assert!(matches!(r, Err(CodeError::WrongState)));
    let r = m.process(CodeEvent::Allocated(
        Nameplate("4".to_string()),
        Code("4-a".to_string()),
    ));
    assert!(matches!(r, Err(CodeError::WrongState)));
}
