//! Code negotiation: turns code-related intents (allocate, input,
//! set) into a resolved code and nameplate, emitting the intents the
//! surrounding machinery acts on.

use vstd::prelude::*;
use vstd::string::*;

verus! {

/// The short public identifier a peer announces to the rendezvous
/// service: the leading token of a code.
#[derive(Clone, PartialEq, Eq, Debug)]
pub struct Nameplate(pub String);

impl View for Nameplate {
    type V = Seq<char>;

    open spec fn view(&self) -> Seq<char> {
        self.0@
    }
}

/// The full human-exchanged secret: a nameplate followed by
/// `-`-separated words.
#[derive(Clone, PartialEq, Eq, Debug)]
pub struct Code(pub String);

impl View for Code {
    type V = Seq<char>;

    open spec fn view(&self) -> Seq<char> {
        self.0@
    }
}

/// Names an externally supplied wordlist capability by the word count
/// it was asked for; the core never interprets it, only passes it to
/// the allocator.
#[derive(Clone, Copy, PartialEq, Eq, Structural, Debug)]
pub struct Wordlist {
    pub num_words: u32,
}

/// What the code machine is fed.
#[derive(Debug)]
pub enum CodeEvent {
    AllocateCode(Wordlist),
    InputCode,
    SetCode(Code),
    Allocated(Nameplate, Code),
    GotNameplate(Nameplate),
    FinishedInput(String),
}

/// The intents the code machine emits for its collaborators: ask the
/// allocator for a code, start interactive input, claim a nameplate,
/// announce the resolved code.
#[derive(Debug)]
pub enum CodeOutput {
    Allocate(Wordlist),
    StartInput,
    SetNameplate(Nameplate),
    GotCode(Code),
}

/// A code-machine output with its strings as character sequences.
pub enum CodeAction {
    Allocate(Wordlist),
    StartInput,
    SetNameplate(Seq<char>),
    GotCode(Seq<char>),
}

impl View for CodeOutput {
    type V = CodeAction;

    open spec fn view(&self) -> CodeAction {
        match self {
            CodeOutput::Allocate(w) => CodeAction::Allocate(*w),
            CodeOutput::StartInput => CodeAction::StartInput,
            CodeOutput::SetNameplate(n) => CodeAction::SetNameplate(n@),
            CodeOutput::GotCode(c) => CodeAction::GotCode(c@),
        }
    }
}

/// The outputs of a call, each with its strings as sequences.
pub open spec fn acts(outs: Seq<CodeOutput>) -> Seq<CodeAction> {
    outs.map_values(|o: CodeOutput| o@)
}

/// Why the code machine refused an event.
#[derive(Clone, Copy, PartialEq, Eq, Structural, Debug)]
pub enum CodeError {
    /// The event is not valid in the machine's current state.
    WrongState,
    /// The allocator returned a code that does not begin with the
    /// allocated nameplate followed by `-`.
    AllocationMismatch,
}

/// Where the code machine stands; `Known` is terminal.
#[derive(Clone, PartialEq, Eq, Debug)]
pub enum CodeState {
    Idle,
    InputtingNameplate,
    InputtingWords(Nameplate),
    Allocating,
    Known(Code),
}

/// The machine's state with its strings as character sequences.
pub enum CodeStateView {
    Idle,
    InputtingNameplate,
    InputtingWords(Seq<char>),
    Allocating,
    Known(Seq<char>),
}

impl View for CodeState {
    type V = CodeStateView;

    open spec fn view(&self) -> CodeStateView {
        match self {
            CodeState::Idle => CodeStateView::Idle,
            CodeState::InputtingNameplate => CodeStateView::InputtingNameplate,
            CodeState::InputtingWords(n) => CodeStateView::InputtingWords(n@),
            CodeState::Allocating => CodeStateView::Allocating,
            CodeState::Known(c) => CodeStateView::Known(c@),
        }
    }
}

/// The position of the first `-` in a code, or its length when it has
/// none.
pub open spec fn first_dash(s: Seq<char>) -> int
    decreases s.len(),
{
    if s.len() == 0 {
        0
    } else if s[0] == '-' {
        0
    } else {
        1 + first_dash(s.skip(1))
    }
}

/// The substring of a code before its first `-`: its nameplate.
pub open spec fn nameplate_of(code: Seq<char>) -> Seq<char> {
    code.take(first_dash(code))
}

/// The first dash sits exactly where scanning finds it: before `i`
/// there is none, and at `i` (if within the code) there is one.
pub proof fn lemma_first_dash_at(s: Seq<char>, i: int)
    requires
        0 <= i <= s.len(),
        forall|j: int| 0 <= j < i ==> s[j] != '-',
        i < s.len() ==> s[i] == '-',
    ensures
        first_dash(s) == i,
    decreases s.len(),
{
    if s.len() == 0 {
    } else if s[0] == '-' {
        if i > 0 {
            assert(s[0] != '-');
        }
    } else {
        if i == 0 {
            assert(s[0] == '-');
        }
        assert forall|j: int| 0 <= j < i - 1 implies s.skip(1)[j] != '-' by {
            assert(s.skip(1)[j] == s[j + 1]);
        }
        assert(i - 1 < s.skip(1).len() ==> s.skip(1)[i - 1] == s[i]);
        lemma_first_dash_at(s.skip(1), i - 1);
    }
}

/// The position of a first `-` is never past the end of the code.
pub proof fn lemma_first_dash_in_bounds(s: Seq<char>)
    ensures
        0 <= first_dash(s) <= s.len(),
    decreases s.len(),
{
    if s.len() == 0 {
    } else if s[0] == '-' {
    } else {
        lemma_first_dash_in_bounds(s.skip(1));
    }
}

/// The index of the first `-` in the string, or its length when it
/// has none.
fn find_first_dash(s: &str) -> (i: usize)
    ensures
        i as int == first_dash(s@),
        i <= s@.len(),
{
    let n = s.unicode_len();
    let mut i: usize = 0;
    while i < n
        invariant
            0 <= i <= n,
            n == s@.len(),
            forall|j: int| 0 <= j < i ==> s@[j] != '-',
        decreases n - i,
    {
        if s.get_char(i) == '-' {
            proof {
                lemma_first_dash_at(s@, i as int);
            }
            return i;
        }
        i = i + 1;
    }
    proof {
        lemma_first_dash_at(s@, n as int);
    }
    n
}

/// Whether a code begins with the given nameplate followed by `-`.
pub open spec fn extends_nameplate(code: Seq<char>, nameplate: Seq<char>) -> bool {
    &&& code.len() > nameplate.len()
    &&& code.take(nameplate.len() as int) == nameplate
    &&& code[nameplate.len() as int] == '-'
}

/// Whether the code begins with the nameplate followed by `-`.
fn check_extends(code: &str, nameplate: &str) -> (r: bool)
    ensures
        r == extends_nameplate(code@, nameplate@),
{
    let cn = code.unicode_len();
    let nn = nameplate.unicode_len();
    if cn <= nn {
        return false;
    }
    let mut i: usize = 0;
    while i < nn
        invariant
            0 <= i <= nn,
            nn == nameplate@.len(),
            cn == code@.len(),
            nn < cn,
            forall|j: int| 0 <= j < i ==> code@[j] == nameplate@[j],
        decreases nn - i,
    {
        if code.get_char(i) != nameplate.get_char(i) {
            assert(!(code@.take(nn as int) == nameplate@)) by {
                if code@.take(nn as int) == nameplate@ {
                    assert(code@.take(nn as int)[i as int] == code@[i as int]);
                }
            }
            return false;
        }
        i = i + 1;
    }
    if code.get_char(nn) != '-' {
        return false;
    }
    assert(code@.take(nn as int) =~= nameplate@);
    true
}

/// Resolves code-related intents into a known code and nameplate.
/// `Idle` accepts `AllocateCode`, `InputCode` and `SetCode`; the
/// input path runs through `GotNameplate` then `FinishedInput`; the
/// allocation path through `Allocated`; `Known` is terminal.
pub struct CodeMachine {
    state: CodeState,
}

impl CodeMachine {
    /// The machine's current state.
    pub closed spec fn spec_state(&self) -> CodeStateView {
        self.state@
    }

    /// A fresh machine with no code yet.
    pub fn new() -> (r: CodeMachine)
        ensures
            r.spec_state() == CodeStateView::Idle,
    {
        CodeMachine { state: CodeState::Idle }
    }

    /// One transition of the code machine. Setting a code splits it
    /// at its first `-`: the piece before it is claimed as the
    /// nameplate, the whole code is announced, and the machine is
    /// done. Interactive input collects a nameplate and words and
    /// composes `nameplate-words`. An allocated code must begin with
    /// its nameplate followed by `-`, else it is a protocol error.
    /// Every event outside its state's row is refused as `WrongState`
    /// with the machine unchanged.
    pub fn process(&mut self, event: CodeEvent) -> (r: Result<Vec<CodeOutput>, CodeError>)
        ensures
            match event {
                CodeEvent::AllocateCode(wordlist) => match old(self).spec_state() {
                    CodeStateView::Idle => (r matches Ok(outs) && acts(outs@) == seq![
                        CodeAction::Allocate(wordlist),
                    ]) && final(self).spec_state() == CodeStateView::Allocating,
                    _ => (r matches Err(e) && e == CodeError::WrongState) && final(self).spec_state() == old(self).spec_state(),
                },
                CodeEvent::InputCode => match old(self).spec_state() {
                    CodeStateView::Idle => (r matches Ok(outs) && acts(outs@) == seq![
                        CodeAction::StartInput,
                    ]) && final(self).spec_state() == CodeStateView::InputtingNameplate,
                    _ => (r matches Err(e) && e == CodeError::WrongState) && final(self).spec_state() == old(self).spec_state(),
                },
                CodeEvent::SetCode(code) => match old(self).spec_state() {
                    CodeStateView::Idle => (r matches Ok(outs) && acts(outs@) == seq![
                        CodeAction::SetNameplate(nameplate_of(code@)),
                        CodeAction::GotCode(code@),
                    ]) && final(self).spec_state() == CodeStateView::Known(code@),
                    _ => (r matches Err(e) && e == CodeError::WrongState) && final(self).spec_state() == old(self).spec_state(),
                },
                CodeEvent::GotNameplate(nameplate) => match old(self).spec_state() {
                    CodeStateView::InputtingNameplate => (r matches Ok(outs) && acts(outs@)
                        == seq![CodeAction::SetNameplate(nameplate@)]) && final(self).spec_state()
                        == CodeStateView::InputtingWords(nameplate@),
                    _ => (r matches Err(e) && e == CodeError::WrongState) && final(self).spec_state() == old(self).spec_state(),
                },
                CodeEvent::FinishedInput(words) => match old(self).spec_state() {
                    CodeStateView::InputtingWords(nameplate) => (r matches Ok(outs) && acts(outs@)
                        == seq![CodeAction::GotCode(nameplate + seq!['-'] + words@)]) && final(self).spec_state() == CodeStateView::Known(nameplate + seq!['-'] + words@),
                    _ => (r matches Err(e) && e == CodeError::WrongState) && final(self).spec_state() == old(self).spec_state(),
                },
                CodeEvent::Allocated(nameplate, code) => match old(self).spec_state() {
                    CodeStateView::Allocating => if extends_nameplate(code@, nameplate@) {
                        (r matches Ok(outs) && acts(outs@) == seq![
                            CodeAction::SetNameplate(nameplate@),
                            CodeAction::GotCode(code@),
                        ]) && final(self).spec_state() == CodeStateView::Known(code@)
                    } else {
                        (r matches Err(e) && e == CodeError::AllocationMismatch) && final(self).spec_state() == old(self).spec_state()
                    },
                    _ => (r matches Err(e) && e == CodeError::WrongState) && final(self).spec_state() == old(self).spec_state(),
                },
            },
    {
        match event {
            CodeEvent::AllocateCode(wordlist) => match &self.state {
                CodeState::Idle => {
                    self.state = CodeState::Allocating;
                    let mut outs: Vec<CodeOutput> = Vec::new();
                    outs.push(CodeOutput::Allocate(wordlist));
                    assert(acts(outs@) =~= seq![CodeAction::Allocate(wordlist)]);
                    Ok(outs)
                },
                _ => Err(CodeError::WrongState),
            },
            CodeEvent::InputCode => match &self.state {
                CodeState::Idle => {
                    self.state = CodeState::InputtingNameplate;
                    let mut outs: Vec<CodeOutput> = Vec::new();
                    outs.push(CodeOutput::StartInput);
                    assert(acts(outs@) =~= seq![CodeAction::StartInput]);
                    Ok(outs)
                },
                _ => Err(CodeError::WrongState),
            },
            CodeEvent::SetCode(code) => match &self.state {
                CodeState::Idle => {
                    let ghost cv = code@;
                    let i = find_first_dash(code.0.as_str());
                    let np = code.0.as_str().substring_char(0, i);
                    proof {
                        lemma_first_dash_in_bounds(cv);
                    }
                    let nameplate = Nameplate(np.to_owned());
                    let stored = Code(code.0.clone());
                    self.state = CodeState::Known(stored);
                    let mut outs: Vec<CodeOutput> = Vec::new();
                    outs.push(CodeOutput::SetNameplate(nameplate));
                    outs.push(CodeOutput::GotCode(code));
                    assert(acts(outs@) =~= seq![
                        CodeAction::SetNameplate(nameplate_of(cv)),
                        CodeAction::GotCode(cv),
                    ]);
                    Ok(outs)
                },
                _ => Err(CodeError::WrongState),
            },
            CodeEvent::GotNameplate(nameplate) => match &self.state {
                CodeState::InputtingNameplate => {
                    let ghost nv = nameplate@;
                    let kept = Nameplate(nameplate.0.clone());
                    self.state = CodeState::InputtingWords(kept);
                    let mut outs: Vec<CodeOutput> = Vec::new();
                    outs.push(CodeOutput::SetNameplate(nameplate));
                    assert(acts(outs@) =~= seq![CodeAction::SetNameplate(nv)]);
                    Ok(outs)
                },
                _ => Err(CodeError::WrongState),
            },
            CodeEvent::FinishedInput(words) => match &self.state {
                CodeState::InputtingWords(nameplate) => {
                    let ghost nv = nameplate@;
                    let composed = nameplate.0.clone().concat("-").concat(words.as_str());
                    proof {
                        reveal_strlit("-");
                        assert("-"@ =~= seq!['-']);
                    }
                    let ghost cv = composed@;
                    assert(cv =~= nv + seq!['-'] + words@);
                    let announced = Code(composed.clone());
                    self.state = CodeState::Known(Code(composed));
                    let mut outs: Vec<CodeOutput> = Vec::new();
                    outs.push(CodeOutput::GotCode(announced));
                    assert(acts(outs@) =~= seq![CodeAction::GotCode(nv + seq!['-'] + words@)]);
                    Ok(outs)
                },
                _ => Err(CodeError::WrongState),
            },
            CodeEvent::Allocated(nameplate, code) => match &self.state {
                CodeState::Allocating => {
                    let ghost nv = nameplate@;
                    let ghost cv = code@;
                    if check_extends(code.0.as_str(), nameplate.0.as_str()) {
                        let stored = Code(code.0.clone());
                        self.state = CodeState::Known(stored);
                        let mut outs: Vec<CodeOutput> = Vec::new();
                        outs.push(CodeOutput::SetNameplate(nameplate));
                        outs.push(CodeOutput::GotCode(code));
                        assert(acts(outs@) =~= seq![
                            CodeAction::SetNameplate(nv),
                            CodeAction::GotCode(cv),
                        ]);
                        Ok(outs)
                    } else {
                        Err(CodeError::AllocationMismatch)
                    }
                },
                _ => Err(CodeError::WrongState),
            },
        }
    }
}

} // verus!
