//! When a language server is ready to answer: the work it reports as begun and ended,
//! and the work that has to begin before its start-up counts as done.

use crate::text::{decimal, join, joined, signed_decimal, str_eq, texts, u64_to_string};
use vstd::prelude::*;
use vstd::string::*;

verus! {

/// The name under which a server reports one piece of work.
#[derive(Debug, Clone)]
pub enum ProgressToken {
    Number(i32),
    Text(String),
}

/// What a `ProgressToken` holds.
pub ghost enum TokenName {
    Number(i32),
    Text(Seq<char>),
}

impl View for ProgressToken {
    type V = TokenName;

    open spec fn view(&self) -> TokenName {
        match self {
            ProgressToken::Number(n) => TokenName::Number(*n),
            ProgressToken::Text(s) => TokenName::Text(s@),
        }
    }
}

impl ProgressToken {
    /// Whether two tokens are the same name.
    pub fn same(&self, other: &ProgressToken) -> (res: bool)
        ensures
            res == (self@ == other@),
    {
        match self {
            ProgressToken::Number(a) => match other {
                ProgressToken::Number(b) => *a == *b,
                ProgressToken::Text(_) => false,
            },
            ProgressToken::Text(a) => match other {
                ProgressToken::Number(_) => false,
                ProgressToken::Text(b) => str_eq(a.as_str(), b.as_str()),
            },
        }
    }

    /// A copy of the token.
    pub fn duplicate(&self) -> (res: ProgressToken)
        ensures
            res@ == self@,
    {
        match self {
            ProgressToken::Number(n) => ProgressToken::Number(*n),
            ProgressToken::Text(s) => ProgressToken::Text(s.clone()),
        }
    }
}

/// What a server says of a piece of work.
#[derive(Debug, Clone)]
pub enum WorkDone {
    Begin { title: String, message: Option<String>, percentage: Option<u32> },
    Report { message: Option<String>, percentage: Option<u32> },
    End { message: Option<String> },
}

/// The three things that can be said of a piece of work.
#[derive(Debug, Clone, Copy, PartialEq, Eq, Structural)]
pub enum Phase {
    Begin,
    Report,
    End,
}

impl WorkDone {
    /// Which of the three things is said.
    pub open spec fn phase(&self) -> Phase {
        match self {
            WorkDone::Begin { .. } => Phase::Begin,
            WorkDone::Report { .. } => Phase::Report,
            WorkDone::End { .. } => Phase::End,
        }
    }
}

/// One notification of progress: the work's token and what is said of the work.
#[derive(Debug, Clone)]
pub struct ProgressParams {
    pub token: ProgressToken,
    pub value: WorkDone,
}

/// The two conditions under which a server answers requests.
#[derive(Debug, Clone, Copy, PartialEq, Eq, Structural)]
pub struct Ready {
    /// All work of the start-up has begun (and was begun only once).
    pub init: bool,
    /// No work is under way.
    pub progress: bool,
}

impl Ready {
    /// Whether requests can be sent.
    pub open spec fn is_ready(&self) -> bool {
        self.init && self.progress
    }

    /// Whether requests can be sent: the start-up is done and no work is under way.
    pub fn ready(&self) -> (res: bool)
        ensures
            res == self.is_ready(),
    {
        self.init && self.progress
    }
}

/// How a notification breaks the rules of progress reports.
#[derive(Debug, Clone, Copy, PartialEq, Eq, Structural)]
pub enum ProgressError {
    /// Work begins that is under way already.
    DoubleStart,
    /// Work ends that never began.
    EndWithoutStart,
}

/// How a token is written in a message: a number in base ten, a text as it is.
pub open spec fn token_text(token: TokenName) -> Seq<char> {
    match token {
        TokenName::Number(n) => signed_decimal(n as int),
        TokenName::Text(name) => name,
    }
}

impl ProgressError {
    /// The error in words, without the token.
    pub open spec fn text(self) -> Seq<char> {
        match self {
            ProgressError::DoubleStart => "Progress double start"@,
            ProgressError::EndWithoutStart => "Progress end without start"@,
        }
    }

    /// The error in words, without the token.
    pub fn message(&self) -> (res: String)
        ensures
            res@ == self.text(),
    {
        match self {
            ProgressError::DoubleStart => String::from_str("Progress double start"),
            ProgressError::EndWithoutStart => String::from_str("Progress end without start"),
        }
    }

    /// The error in words, with the token of the notification that broke the rules.
    pub fn describe(&self, token: &ProgressToken) -> (res: String)
        ensures
            res@ == self.text() + ": "@ + token_text(token@),
    {
        let mut out = self.message();
        out.append(": ");
        match token {
            ProgressToken::Number(n) => {
                if *n < 0 {
                    out.append("-");
                    out.append(u64_to_string((-(*n as i64)) as u64).as_str());
                } else {
                    out.append(u64_to_string(*n as u64).as_str());
                }
            },
            ProgressToken::Text(name) => {
                out.append(name.as_str());
            },
        }
        out
    }
}

/// What a tracker knows: the work under way, the work that the start-up still waits
/// for, and the readiness that was published last.
pub ghost struct ProgressState {
    pub running: Set<TokenName>,
    pub expected: Set<Seq<char>>,
    pub ready: Ready,
}

impl ProgressState {
    /// The state before any notification: nothing is under way, and the start-up is not
    /// done, whatever it waits for.
    pub open spec fn initial(expected: Set<Seq<char>>) -> ProgressState {
        ProgressState {
            running: Set::empty(),
            expected,
            ready: Ready { init: false, progress: true },
        }
    }

    /// Once the start-up counts as done it waits for nothing.
    pub open spec fn consistent(self) -> bool {
        self.ready.init ==> self.expected =~= Set::empty()
    }

    /// The state after one notification, or how the notification breaks the rules.
    ///
    /// Work that begins joins the work under way, and the start-up stops waiting for it.
    /// Work that ends leaves the work under way. A report changes neither. After each
    /// notification the readiness says whether the start-up still waits for work and
    /// whether work is under way.
    pub open spec fn next(self, token: TokenName, phase: Phase) -> Result<
        ProgressState,
        ProgressError,
    > {
        match phase {
            Phase::Begin => if self.running.contains(token) {
                Err(ProgressError::DoubleStart)
            } else {
                Ok(
                    ProgressState::settled(
                        self.running.insert(token),
                        match token {
                            TokenName::Text(name) => self.expected.remove(name),
                            TokenName::Number(_) => self.expected,
                        },
                    ),
                )
            },
            Phase::Report => Ok(ProgressState::settled(self.running, self.expected)),
            Phase::End => if !self.running.contains(token) {
                Err(ProgressError::EndWithoutStart)
            } else {
                Ok(ProgressState::settled(self.running.remove(token), self.expected))
            },
        }
    }

    /// The state with the readiness that its two sets call for.
    pub open spec fn settled(running: Set<TokenName>, expected: Set<Seq<char>>) -> ProgressState {
        ProgressState {
            running,
            expected,
            ready: Ready { init: expected =~= Set::empty(), progress: running =~= Set::empty() },
        }
    }

    /// The state after a run of notifications, or `None` where one of them breaks the
    /// rules.
    pub open spec fn after(self, trace: Seq<(TokenName, Phase)>) -> Option<ProgressState>
        decreases trace.len(),
    {
        if trace.len() == 0 {
            Some(self)
        } else {
            match self.after(trace.drop_last()) {
                None => None,
                Some(before) => match before.next(trace.last().0, trace.last().1) {
                    Err(_) => None,
                    Ok(state) => Some(state),
                },
            }
        }
    }
}

/// Once the start-up counts as done, it stays done: no notification takes that back.
pub proof fn lemma_init_stays_done(state: ProgressState, trace: Seq<(TokenName, Phase)>)
    requires
        state.consistent(),
        state.ready.init,
        state.after(trace) is Some,
    ensures
        state.after(trace)->0.ready.init,
        state.after(trace)->0.consistent(),
    decreases trace.len(),
{
    if trace.len() > 0 {
        lemma_init_stays_done(state, trace.drop_last());
        let before = state.after(trace.drop_last())->0;
        assert(before.expected =~= Set::empty());
        match trace.last().0 {
            TokenName::Text(name) => {
                assert(before.expected.remove(name) =~= Set::empty());
            },
            TokenName::Number(_) => {},
        }
    }
}

/// Every state that a run of notifications reaches is consistent.
pub proof fn lemma_states_stay_consistent(state: ProgressState, trace: Seq<(TokenName, Phase)>)
    requires
        state.consistent(),
        state.after(trace) is Some,
    ensures
        state.after(trace)->0.consistent(),
    decreases trace.len(),
{
    if trace.len() > 0 {
        lemma_states_stay_consistent(state, trace.drop_last());
    }
}

/// Whether a run of notifications ends the work `token`.
pub open spec fn ends_work(trace: Seq<(TokenName, Phase)>, token: TokenName) -> bool {
    exists|i: int| 0 <= i < trace.len() && #[trigger] trace[i] == (token, Phase::End)
}

/// Work that has begun is under way until a notification ends it: after a run of
/// notifications that keeps the rules and does not end it, it still is.
pub proof fn lemma_begun_work_stays(
    state: ProgressState,
    trace: Seq<(TokenName, Phase)>,
    token: TokenName,
)
    requires
        state.running.contains(token),
        state.after(trace) is Some,
        !ends_work(trace, token),
    ensures
        state.after(trace)->0.running.contains(token),
    decreases trace.len(),
{
    if trace.len() > 0 {
        let front = trace.drop_last();
        assert forall|i: int| 0 <= i < front.len() implies #[trigger] front[i] != (
            token,
            Phase::End,
        ) by {
            assert(front[i] == trace[i]);
        }
        lemma_begun_work_stays(state, front, token);
        assert(trace[trace.len() - 1] != (token, Phase::End));
    }
}

/// Work is under way once it has begun, and no more once it has ended; it can begin
/// only while it is not under way, and end only while it is.
pub proof fn lemma_begin_and_end(state: ProgressState, token: TokenName)
    ensures
        state.next(token, Phase::Begin) is Ok <==> !state.running.contains(token),
        state.next(token, Phase::Begin) is Ok ==> state.next(
            token,
            Phase::Begin,
        )->Ok_0.running.contains(token),
        state.next(token, Phase::End) is Ok <==> state.running.contains(token),
        state.next(token, Phase::End) is Ok ==> !state.next(
            token,
            Phase::End,
        )->Ok_0.running.contains(token),
{
}

/// The words of a notification, in their order: the phase, the token where it is a text,
/// the title, the message, and the percentage with a percent sign.
pub open spec fn event_parts(
    token: TokenName,
    phase: Seq<char>,
    title: Option<Seq<char>>,
    message: Option<Seq<char>>,
    percentage: Option<u32>,
) -> Seq<Seq<char>> {
    seq![phase] + match token {
        TokenName::Text(name) => seq![name],
        TokenName::Number(_) => Seq::empty(),
    } + match title {
        Some(title) => seq![title],
        None => Seq::empty(),
    } + match message {
        Some(message) => seq![message],
        None => Seq::empty(),
    } + match percentage {
        Some(percentage) => seq![decimal(percentage as nat) + seq!['%']],
        None => Seq::empty(),
    }
}

/// Writes a notification as one line of words with blanks between: see `event_parts`.
pub fn format_event(
    token: &ProgressToken,
    phase: &str,
    title: Option<String>,
    message: Option<String>,
    percentage: Option<u32>,
) -> (res: String)
    ensures
        res@ == joined(
            event_parts(
                token@,
                phase@,
                crate::text::opt_text(title),
                crate::text::opt_text(message),
                percentage,
            ),
            " "@,
        ),
{
    let mut parts: Vec<String> = Vec::new();
    parts.push(String::from_str(phase));
    match token {
        ProgressToken::Text(name) => {
            parts.push(name.clone());
        },
        ProgressToken::Number(_) => {},
    }
    match title {
        Some(title) => {
            parts.push(title);
        },
        None => {},
    }
    match message {
        Some(message) => {
            parts.push(message);
        },
        None => {},
    }
    match percentage {
        Some(percentage) => {
            let mut text = u64_to_string(percentage as u64);
            proof {
                reveal_strlit("%");
                assert("%"@ =~= seq!['%']);
            }
            text.append("%");
            parts.push(text);
        },
        None => {},
    }
    proof {
        assert(texts(parts@) =~= event_parts(
            token@,
            phase@,
            crate::text::opt_text(title),
            crate::text::opt_text(message),
            percentage,
        ));
    }
    join(&parts, " ")
}

/// What a notification comes to.
#[derive(Debug)]
pub struct ProgressUpdate {
    /// The notification as a line for those who watch the progress.
    pub event: String,
    /// The readiness after the notification.
    pub ready: Ready,
    /// Whether the readiness differs from the one before, so that it is published anew.
    pub modified: bool,
}

/// The line that stands for a notification: see `event_parts`. A begin is written as
/// `start`, a report as `progress`, an end as `end`. Only a begin has a title, and an end
/// has no percentage.
pub open spec fn event_line(token: TokenName, value: WorkDone) -> Seq<char> {
    match value {
        WorkDone::Begin { title, message, percentage } => joined(
            event_parts(
                token,
                "start"@,
                Some(title@),
                crate::text::opt_text(message),
                percentage,
            ),
            " "@,
        ),
        WorkDone::Report { message, percentage } => joined(
            event_parts(token, "progress"@, None, crate::text::opt_text(message), percentage),
            " "@,
        ),
        WorkDone::End { message } => joined(
            event_parts(token, "end"@, None, crate::text::opt_text(message), None),
            " "@,
        ),
    }
}

/// Follows the notifications of a server and says when the server is ready.
#[derive(Debug)]
pub struct ProgressTracker {
    running: Vec<ProgressToken>,
    init_parts: Vec<String>,
    ready: Ready,
}

impl View for ProgressTracker {
    type V = ProgressState;

    closed spec fn view(&self) -> ProgressState {
        ProgressState {
            running: Set::new(
                |t: TokenName| self.running@.map_values(|r: ProgressToken| r@).contains(t),
            ),
            expected: Set::new(|s: Seq<char>| texts(self.init_parts@).contains(s)),
            ready: self.ready,
        }
    }
}

impl ProgressTracker {
    /// What every tracker keeps: no work is held twice, and once the start-up counts as
    /// done it waits for nothing.
    #[verifier::type_invariant]
    spec fn well_formed(&self) -> bool {
        &&& forall|i: int, j: int|
            0 <= i < j < self.running@.len() ==> self.running@[i]@ != self.running@[j]@
        &&& self.ready.init ==> self.init_parts@.len() == 0
    }

    /// A tracker that has seen no notification yet. `expected` names the work that has
    /// to begin before the start-up counts as done.
    pub fn new(expected: Vec<String>) -> (res: Self)
        ensures
            res@ == ProgressState::initial(Set::new(|s: Seq<char>| texts(expected@).contains(s))),
    {
        let tracker = ProgressTracker {
            running: Vec::new(),
            init_parts: expected,
            ready: Ready { init: false, progress: true },
        };
        proof {
            assert(tracker@.running =~= Set::empty());
        }
        tracker
    }

    /// The readiness that was published last. Once it says that the start-up is done,
    /// the tracker waits for no work.
    pub fn readiness(&self) -> (res: Ready)
        ensures
            res == self@.ready,
            self@.consistent(),
    {
        proof {
            use_type_invariant(self);
            if self.ready.init {
                assert(texts(self.init_parts@).len() == 0);
                assert(self@.expected =~= Set::empty());
            }
        }
        self.ready
    }

    /// How much work is under way.
    pub fn running_len(&self) -> (res: usize)
        ensures
            self@.running.finite(),
            res == self@.running.len(),
    {
        proof {
            use_type_invariant(self);
            let names = self.running@.map_values(|r: ProgressToken| r@);
            assert(names.no_duplicates());
            names.unique_seq_to_set();
            assert(names.to_set() =~= self@.running);
        }
        self.running.len()
    }

    fn find_running(&self, token: &ProgressToken) -> (res: Option<usize>)
        ensures
            match res {
                Some(i) => i < self.running@.len() && self.running@[i as int]@ == token@,
                None => forall|k: int|
                    0 <= k < self.running@.len() ==> (#[trigger] self.running@[k])@ != token@,
            },
    {
        let mut i: usize = 0;
        while i < self.running.len()
            invariant
                i <= self.running@.len(),
                forall|k: int| 0 <= k < i ==> (#[trigger] self.running@[k])@ != token@,
            decreases self.running@.len() - i,
        {
            if self.running[i].same(token) {
                return Some(i);
            }
            i += 1;
        }
        None
    }

    /// Takes one notification in.
    ///
    /// Where the notification keeps the rules, the tracker moves on as
    /// `ProgressState::next` says and hands out the notification's line and the new
    /// readiness. Where it breaks them, the tracker stays as it is.
    pub fn step(&mut self, params: &ProgressParams) -> (res: Result<ProgressUpdate, ProgressError>)
        ensures
            match res {
                Ok(update) => {
                    &&& old(self)@.next(params.token@, params.value.phase()) == Ok::<
                        ProgressState,
                        ProgressError,
                    >(final(self)@)
                    &&& update.event@ == event_line(params.token@, params.value)
                    &&& update.ready == final(self)@.ready
                    &&& update.modified == (old(self)@.ready != final(self)@.ready)
                },
                Err(e) => {
                    &&& old(self)@.next(params.token@, params.value.phase()) == Err::<
                        ProgressState,
                        ProgressError,
                    >(e)
                    &&& final(self)@ == old(self)@
                },
            },
    {
        proof {
            use_type_invariant(&*self);
        }
        let ghost before = self@;
        let ghost names = self.running@.map_values(|r: ProgressToken| r@);
        let ghost waiting = texts(self.init_parts@);
        let event = match &params.value {
            WorkDone::Begin { title, message, percentage } => {
                if self.find_running(&params.token).is_some() {
                    assert(names.contains(params.token@)) by {
                        let i = choose|i: int|
                            0 <= i < self.running@.len() && self.running@[i]@ == params.token@;
                        assert(names[i] == params.token@);
                    }
                    return Err(ProgressError::DoubleStart);
                }
                assert(!names.contains(params.token@)) by {
                    if names.contains(params.token@) {
                        let i = choose|i: int| 0 <= i < names.len() && names[i] == params.token@;
                        assert(self.running@[i]@ == params.token@);
                    }
                }
                let mut running: Vec<ProgressToken> = Vec::new();
                core::mem::swap(&mut self.running, &mut running);
                running.push(params.token.duplicate());
                proof {
                    let after = running@.map_values(|r: ProgressToken| r@);
                    assert(after =~= names.push(params.token@));
                    assert forall|i: int, j: int| 0 <= i < j < running@.len() implies running@[i]@
                        != running@[j]@ by {
                        assert(after[i] == running@[i]@);
                        assert(after[j] == running@[j]@);
                        if j == names.len() {
                            assert(names[i] == after[i]);
                        } else {
                            assert(names[i] == after[i] && names[j] == after[j]);
                            assert(old(self).running@[i]@ == names[i]);
                            assert(old(self).running@[j]@ == names[j]);
                        }
                    }
                }
                self.running = running;
                match &params.token {
                    ProgressToken::Text(name) => {
                        let mut kept: Vec<String> = Vec::new();
                        let mut i: usize = 0;
                        while i < self.init_parts.len()
                            invariant
                                i <= self.init_parts@.len(),
                                waiting == texts(self.init_parts@),
                                forall|s: Seq<char>|
                                    texts(kept@).contains(s) <==> (s != name@ && waiting.take(
                                        i as int,
                                    ).contains(s)),
                            decreases self.init_parts@.len() - i,
                        {
                            let ghost had = texts(kept@);
                            if !str_eq(self.init_parts[i].as_str(), name.as_str()) {
                                kept.push(self.init_parts[i].clone());
                                proof {
                                    assert(texts(kept@) =~= had.push(waiting[i as int]));
                                }
                            }
                            proof {
                                let s0 = waiting[i as int];
                                assert(waiting.take(i + 1) =~= waiting.take(i as int).push(s0));
                                assert forall|s: Seq<char>|
                                    texts(kept@).contains(s) <==> (s != name@ && waiting.take(
                                        i + 1,
                                    ).contains(s)) by {
                                    lemma_push_contains(waiting.take(i as int), s0, s);
                                    if s0 != name@ {
                                        lemma_push_contains(had, s0, s);
                                    }
                                }
                            }
                            i += 1;
                        }
                        proof {
                            assert(waiting.take(self.init_parts@.len() as int) =~= waiting);
                        }
                        proof {
                            if self.ready.init {
                                assert(waiting.len() == 0);
                                if kept@.len() > 0 {
                                    assert(texts(kept@).contains(kept@[0]@)) by {
                                        assert(texts(kept@)[0] == kept@[0]@);
                                    }
                                }
                            }
                        }
                        self.init_parts = kept;
                        proof {
                            assert(Set::new(|s: Seq<char>| texts(self.init_parts@).contains(s))
                                =~= before.expected.remove(name@));
                        }
                    },
                    ProgressToken::Number(_) => {},
                }
                proof {
                    let after = self.running@.map_values(|r: ProgressToken| r@);
                    assert(after =~= names.push(params.token@));
                    assert forall|t: TokenName|
                        after.contains(t) <==> before.running.insert(params.token@).contains(
                            t,
                        ) by {
                        lemma_push_contains(names, params.token@, t);
                    }
                    assert(Set::new(|t: TokenName| after.contains(t)) =~= before.running.insert(
                        params.token@,
                    ));
                }
                format_event(
                    &params.token,
                    "start",
                    Some(title.clone()),
                    clone_text(message),
                    *percentage,
                )
            },
            WorkDone::Report { message, percentage } => {
                format_event(&params.token, "progress", None, clone_text(message), *percentage)
            },
            WorkDone::End { message } => {
                let at = match self.find_running(&params.token) {
                    Some(at) => at,
                    None => {
                        assert(!names.contains(params.token@)) by {
                            if names.contains(params.token@) {
                                let i = choose|i: int|
                                    0 <= i < names.len() && names[i] == params.token@;
                                assert(self.running@[i]@ == params.token@);
                            }
                        }
                        return Err(ProgressError::EndWithoutStart);
                    },
                };
                assert(names[at as int] == params.token@);
                let mut running: Vec<ProgressToken> = Vec::new();
                core::mem::swap(&mut self.running, &mut running);
                running.remove(at);
                proof {
                    assert forall|i: int, j: int| 0 <= i < j < running@.len() implies running@[i]@
                        != running@[j]@ by {
                        let oi = if i < at { i } else { i + 1 };
                        let oj = if j < at { j } else { j + 1 };
                        assert(running@[i] == old(self).running@[oi]);
                        assert(running@[j] == old(self).running@[oj]);
                    }
                }
                self.running = running;
                proof {
                    let after = self.running@.map_values(|r: ProgressToken| r@);
                    assert(after =~= names.remove(at as int));
                    assert forall|t: TokenName|
                        after.contains(t) <==> before.running.remove(params.token@).contains(
                            t,
                        ) by {
                        if after.contains(t) {
                            let i = choose|i: int| 0 <= i < after.len() && after[i] == t;
                            let oi = if i < at { i } else { i + 1 };
                            assert(names[oi] == t);
                            assert(old(self).running@[oi]@ == names[oi]);
                            assert(old(self).running@[at as int]@ == names[at as int]);
                        }
                        if names.contains(t) && t != params.token@ {
                            let i = choose|i: int| 0 <= i < names.len() && names[i] == t;
                            let ni = if i < at { i } else { i - 1 };
                            assert(after[ni] == t);
                        }
                    }
                    assert(Set::new(|t: TokenName| after.contains(t)) =~= before.running.remove(
                        params.token@,
                    ));
                }
                format_event(&params.token, "end", None, clone_text(message), None)
            },
        };
        let ready = Ready { init: self.init_parts.len() == 0, progress: self.running.len() == 0 };
        let modified = !(ready.init == self.ready.init && ready.progress == self.ready.progress);
        proof {
            let running_now = self.running@.map_values(|r: ProgressToken| r@);
            let running_set = Set::new(|t: TokenName| running_now.contains(t));
            let waiting_now = texts(self.init_parts@);
            let waiting_set = Set::new(|s: Seq<char>| waiting_now.contains(s));
            if running_now.len() > 0 {
                assert(running_set.contains(running_now[0]));
            }
            if waiting_now.len() > 0 {
                assert(waiting_set.contains(waiting_now[0]));
            }
            assert(ready.progress == (running_set =~= Set::empty()));
            assert(ready.init == (waiting_set =~= Set::empty()));
            if before.ready.init {
                assert(texts(old(self).init_parts@).len() == 0);
            }
        }
        self.ready = ready;
        Ok(ProgressUpdate { event, ready, modified })
    }
}

fn clone_text(text: &Option<String>) -> (res: Option<String>)
    ensures
        crate::text::opt_text(res) == crate::text::opt_text(*text),
{
    match text {
        Some(text) => Some(text.clone()),
        None => None,
    }
}

proof fn lemma_push_contains<A>(s: Seq<A>, last: A, x: A)
    ensures
        s.push(last).contains(x) <==> (s.contains(x) || x == last),
{
    if s.contains(x) {
        let i = choose|i: int| 0 <= i < s.len() && s[i] == x;
        assert(s.push(last)[i] == x);
    }
    if x == last {
        assert(s.push(last)[s.len() as int] == x);
    }
    if s.push(last).contains(x) {
        let i = choose|i: int| 0 <= i < s.push(last).len() && s.push(last)[i] == x;
        if i < s.len() {
            assert(s[i] == x);
        }
    }
}

/// What a caller who asked for it is told of the server's progress.
#[derive(Debug)]
pub struct ProgressNotification {
    /// How many notifications went before this one.
    pub progress: u64,
    /// The line of the server's notification.
    pub message: String,
}

/// Hands the lines of a server's notifications on to a caller, each with its number.
#[derive(Debug)]
pub struct ProgressForwarder {
    pub sent: u64,
}

impl ProgressForwarder {
    /// A forwarder that has handed on nothing yet.
    pub fn new() -> (res: Self)
        ensures
            res.sent == 0,
    {
        ProgressForwarder { sent: 0 }
    }

    /// Makes the notification for the next line. The lines are numbered from zero.
    pub fn notification(&mut self, event: String) -> (res: ProgressNotification)
        requires
            old(self).sent < u64::MAX,
        ensures
            res.progress == old(self).sent,
            res.message@ == event@,
            final(self).sent == old(self).sent + 1,
    {
        let progress = self.sent;
        self.sent = self.sent + 1;
        ProgressNotification { progress, message: event }
    }
}

} // verus!
