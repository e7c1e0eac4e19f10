use vstd::prelude::*;

use crate::input::Input;
use crate::key::Key;

verus! {

/// What a backend call returns; an error holds the text of the I/O failure.
pub type BackendResult<T> = Result<T, String>;

/// One call made on a backend, with the text that it was handed and how it
/// ended: `None` where it succeeded, else the text of its error.
pub enum BackendCall {
    FrameSetup(Option<Seq<char>>),
    ErrorMessage(Seq<char>, Option<Seq<char>>),
    /// The message, the default-value hint and the text of the line.
    Prompt(Seq<char>, Option<Seq<char>>, Seq<char>, Option<Seq<char>>),
    HelpMessage(Seq<char>, Option<Seq<char>>),
    FrameFinish(Option<Seq<char>>),
    /// The key that was read, or the text of the error.
    ReadKey(Result<Key, Seq<char>>),
    /// The message and the formatted answer.
    FinishPrompt(Seq<char>, Seq<char>, Option<Seq<char>>),
}

pub open spec fn opt_view(s: Option<&str>) -> Option<Seq<char>> {
    match s {
        Some(t) => Some(t@),
        None => None,
    }
}

/// How a backend call ended, as the log holds it.
pub open spec fn outcome<V>(r: BackendResult<V>) -> Option<Seq<char>> {
    match r {
        Ok(_) => None,
        Err(e) => Some(e@),
    }
}

pub open spec fn key_read(r: BackendResult<Key>) -> Result<Key, Seq<char>> {
    match r {
        Ok(k) => Ok(k),
        Err(e) => Err(e@),
    }
}

/// The error of a drawing call, `None` where it succeeded.
pub open spec fn failure(call: BackendCall) -> Option<Seq<char>> {
    match call {
        BackendCall::FrameSetup(o) => o,
        BackendCall::ErrorMessage(_, o) => o,
        BackendCall::Prompt(_, _, _, o) => o,
        BackendCall::HelpMessage(_, o) => o,
        BackendCall::FrameFinish(o) => o,
        BackendCall::ReadKey(r) => match r {
            Ok(_) => None,
            Err(e) => Some(e),
        },
        BackendCall::FinishPrompt(_, _, o) => o,
    }
}

/// The same drawing call, ended as `o` says.
pub open spec fn with_outcome(call: BackendCall, o: Option<Seq<char>>) -> BackendCall {
    match call {
        BackendCall::FrameSetup(_) => BackendCall::FrameSetup(o),
        BackendCall::ErrorMessage(m, _) => BackendCall::ErrorMessage(m, o),
        BackendCall::Prompt(m, h, t, _) => BackendCall::Prompt(m, h, t, o),
        BackendCall::HelpMessage(m, _) => BackendCall::HelpMessage(m, o),
        BackendCall::FrameFinish(_) => BackendCall::FrameFinish(o),
        BackendCall::ReadKey(r) => BackendCall::ReadKey(r),
        BackendCall::FinishPrompt(m, a, _) => BackendCall::FinishPrompt(m, a, o),
    }
}

/// `calls` is `planned` cut short: its calls succeeded as planned up to the
/// last one, which is the next planned call, failed with `error`.
pub open spec fn fails_at(planned: Seq<BackendCall>, calls: Seq<BackendCall>, error: Seq<char>) -> bool {
    &&& 0 < calls.len() <= planned.len()
    &&& calls.drop_last() == planned.take(calls.len() - 1)
    &&& calls.last() == with_outcome(planned[calls.len() - 1], Some(error))
}

/// Where a backend stands between calls: ready for a frame, inside one, done
/// drawing one and waiting for a key read, or finished for good.
#[derive(PartialEq, Eq, Structural)]
pub enum FrameState {
    Idle,
    Drawing,
    Drawn,
    Finished,
}

/// The calls a backend admits in each state: a frame opens only when idle, is
/// drawn into only while open, and a key is read only after a frame is closed.
pub open spec fn frame_step(state: FrameState, call: BackendCall) -> Option<FrameState> {
    match (state, call) {
        (FrameState::Idle, BackendCall::FrameSetup(_)) => Some(FrameState::Drawing),
        (FrameState::Drawing, BackendCall::ErrorMessage(_, _)) => Some(FrameState::Drawing),
        (FrameState::Drawing, BackendCall::Prompt(_, _, _, _)) => Some(FrameState::Drawing),
        (FrameState::Drawing, BackendCall::HelpMessage(_, _)) => Some(FrameState::Drawing),
        (FrameState::Drawing, BackendCall::FrameFinish(_)) => Some(FrameState::Drawn),
        (FrameState::Drawn, BackendCall::ReadKey(_)) => Some(FrameState::Idle),
        (FrameState::Idle, BackendCall::FinishPrompt(_, _, _)) => Some(FrameState::Finished),
        _ => None,
    }
}

/// The state after a sequence of calls made from `state`, or `None` where one
/// of them was out of place.
pub open spec fn frames_from(state: FrameState, calls: Seq<BackendCall>) -> Option<FrameState>
    decreases calls.len(),
{
    if calls.len() == 0 {
        Some(state)
    } else {
        match frames_from(state, calls.drop_last()) {
            Some(s) => frame_step(s, calls.last()),
            None => None,
        }
    }
}

pub proof fn lemma_frames_push(state: FrameState, calls: Seq<BackendCall>, call: BackendCall)
    ensures
        frames_from(state, calls.push(call)) == match frames_from(state, calls) {
            Some(s) => frame_step(s, call),
            None => None,
        },
{
    assert(calls.push(call).drop_last() =~= calls);
}

/// Running two sequences of calls one after the other is running the second from
/// where the first left off.
pub proof fn lemma_frames_append(state: FrameState, a: Seq<BackendCall>, b: Seq<BackendCall>)
    ensures
        frames_from(state, a + b) == match frames_from(state, a) {
            Some(s) => frames_from(s, b),
            None => None,
        },
    decreases b.len(),
{
    if b.len() == 0 {
        assert(a + b =~= a);
    } else {
        lemma_frames_append(state, a, b.drop_last());
        assert((a + b).drop_last() =~= a + b.drop_last());
        assert((a + b).last() == b.last());
    }
}

/// Whether `after` is `before` with more calls appended.
pub open spec fn extends(before: Seq<BackendCall>, after: Seq<BackendCall>) -> bool {
    before.len() <= after.len() && after.subrange(0, before.len() as int) == before
}

/// The calls that were made on a backend after it held `before`.
pub open spec fn calls_since(before: Seq<BackendCall>, after: Seq<BackendCall>) -> Seq<
    BackendCall,
> {
    after.subrange(before.len() as int, after.len() as int)
}

pub proof fn lemma_calls_since_push(before: Seq<BackendCall>, after: Seq<BackendCall>, call: BackendCall)
    requires
        extends(before, after),
    ensures
        extends(before, after.push(call)),
        calls_since(before, after.push(call)) == calls_since(before, after).push(call),
{
    assert(after.push(call).subrange(0, before.len() as int) =~= after.subrange(0, before.len() as int));
    assert(calls_since(before, after.push(call)) =~= calls_since(before, after).push(call));
}

pub proof fn lemma_calls_since_self(calls: Seq<BackendCall>)
    ensures
        extends(calls, calls),
        calls_since(calls, calls) == Seq::<BackendCall>::empty(),
{
    assert(calls.subrange(0, calls.len() as int) =~= calls);
    assert(calls_since(calls, calls) =~= Seq::<BackendCall>::empty());
}

/// What a prompt draws with and reads keys from. Each call is logged in
/// `calls`, so that a prompt's contract can say in which order it made them.
pub trait CustomTypeBackend {
    spec fn calls(&self) -> Seq<BackendCall>;

    /// Opens a frame: what is drawn until `frame_finish` appears at once.
    fn frame_setup(&mut self) -> (r: BackendResult<()>)
        ensures
            final(self).calls() == old(self).calls().push(BackendCall::FrameSetup(outcome(r))),
    ;

    fn render_error_message(&mut self, message: &str) -> (r: BackendResult<()>)
        ensures
            final(self).calls() == old(self).calls().push(BackendCall::ErrorMessage(message@, outcome(r))),
    ;

    fn render_prompt(&mut self, prompt: &str, default: Option<&str>, input: &Input) -> (r:
        BackendResult<()>)
        ensures
            final(self).calls() == old(self).calls().push(
                BackendCall::Prompt(prompt@, opt_view(default), input.text(), outcome(r)),
            ),
    ;

    fn render_help_message(&mut self, message: &str) -> (r: BackendResult<()>)
        ensures
            final(self).calls() == old(self).calls().push(BackendCall::HelpMessage(message@, outcome(r))),
    ;

    /// Closes the frame opened by `frame_setup`.
    fn frame_finish(&mut self) -> (r: BackendResult<()>)
        ensures
            final(self).calls() == old(self).calls().push(BackendCall::FrameFinish(outcome(r))),
    ;

    /// Blocks until the next key.
    fn read_key(&mut self) -> (r: BackendResult<Key>)
        ensures
            final(self).calls() == old(self).calls().push(BackendCall::ReadKey(key_read(r))),
    ;

    /// Replaces the interactive frame with a line holding the message and the answer.
    fn finish_prompt(&mut self, prompt: &str, answer: &str) -> (r: BackendResult<()>)
        ensures
            final(self).calls() == old(self).calls().push(
                BackendCall::FinishPrompt(prompt@, answer@, outcome(r)),
            ),
    ;
}

/// What a scripted backend drew in one frame.
#[derive(Debug)]
pub struct Frame {
    pub error: Option<String>,
    pub prompt: String,
    pub default: Option<String>,
    pub content: String,
    pub help: Option<String>,
    pub finished: bool,
}

/// How far a script has been read, and the calls made so far.
struct Progress {
    next: usize,
    log: Ghost<Seq<BackendCall>>,
}

/// The keys a scripted backend hands out, and the log of the calls made on it.
struct KeyScript {
    keys: Vec<Key>,
    progress: Progress,
}

impl KeyScript {
    /// The keys read so far are the script's first ones, in order.
    #[verifier::type_invariant]
    closed spec fn keys_follow_script(&self) -> bool {
        &&& self.progress.next <= self.keys.len()
        &&& keys_in(self.progress.log@) == self.keys@.take(self.progress.next as int)
    }

    closed spec fn calls(&self) -> Seq<BackendCall> {
        self.progress.log@
    }

    closed spec fn script(&self) -> Seq<Key> {
        self.keys@
    }

    fn new(keys: Vec<Key>) -> (r: KeyScript)
        ensures
            r.calls() == Seq::<BackendCall>::empty(),
            r.script() == keys@,
    {
        proof {
            assert(keys@.take(0) =~= Seq::<Key>::empty());
        }
        KeyScript { keys, progress: Progress { next: 0, log: Ghost(Seq::empty()) } }
    }

    /// Logs a call that reads no key.
    fn record(&mut self, call: Ghost<BackendCall>)
        requires
            !(call@ is ReadKey),
        ensures
            final(self).calls() == old(self).calls().push(call@),
            final(self).script() == old(self).script(),
    {
        proof {
            use_type_invariant(&*self);
            lemma_keys_in_push(self.progress.log@, call@);
        }
        self.progress = Progress { next: self.progress.next, log: Ghost(self.progress.log@.push(call@)) };
    }

    /// Hands out the next key of the script, or fails once it is used up.
    fn read(&mut self) -> (r: BackendResult<Key>)
        ensures
            final(self).calls() == old(self).calls().push(BackendCall::ReadKey(key_read(r))),
            final(self).script() == old(self).script(),
    {
        proof {
            use_type_invariant(&*self);
        }
        let next = self.progress.next;
        if next < self.keys.len() {
            let k = self.keys[next];
            let r = Ok(k);
            proof {
                assert(self.keys@.take(next + 1) =~= self.keys@.take(next as int).push(k));
                lemma_keys_in_push(self.progress.log@, BackendCall::ReadKey(key_read(r)));
            }
            self.progress = Progress {
                next: next + 1,
                log: Ghost(self.progress.log@.push(BackendCall::ReadKey(key_read(r)))),
            };
            r
        } else {
            let r = Err("the key script is exhausted".to_owned());
            proof {
                lemma_keys_in_push(self.progress.log@, BackendCall::ReadKey(key_read(r)));
            }
            self.progress = Progress {
                next,
                log: Ghost(self.progress.log@.push(BackendCall::ReadKey(key_read(r)))),
            };
            r
        }
    }

    fn keys_read(&self) -> (r: usize)
        ensures
            r <= self.script().len(),
            keys_in(self.calls()) == self.script().take(r as int),
    {
        proof {
            use_type_invariant(self);
        }
        self.progress.next
    }
}

/// A backend that feeds keys from a script and keeps what it was asked to draw.
pub struct ScriptedBackend {
    keys: KeyScript,
    frames: Vec<Frame>,
    answer: Option<(String, String)>,
}

impl ScriptedBackend {
    pub closed spec fn script(&self) -> Seq<Key> {
        self.keys.script()
    }

    /// The frames recorded so far, oldest first.
    pub closed spec fn drawn(&self) -> Seq<Frame> {
        self.frames@
    }

    /// The final line, once it was drawn.
    pub closed spec fn final_line(&self) -> Option<(String, String)> {
        self.answer
    }

    pub fn new(keys: Vec<Key>) -> (r: ScriptedBackend)
        ensures
            r.calls() == Seq::<BackendCall>::empty(),
            r.script() == keys@,
    {
        ScriptedBackend { keys: KeyScript::new(keys), frames: Vec::new(), answer: None }
    }

    /// The frames drawn so far, oldest first.
    pub fn frames(&self) -> (r: &Vec<Frame>)
        ensures
            r@ == self.drawn(),
    {
        &self.frames
    }

    /// The message and the answer of the final line, once it was drawn.
    pub fn answer(&self) -> (r: &Option<(String, String)>)
        ensures
            *r == self.final_line(),
    {
        &self.answer
    }

    /// How many keys have been read: the keys the calls so far read are the
    /// script's first that many, in order.
    pub fn keys_read(&self) -> (r: usize)
        ensures
            r <= self.script().len(),
            keys_in(self.calls()) == self.script().take(r as int),
    {
        self.keys.keys_read()
    }
}

impl CustomTypeBackend for ScriptedBackend {
    closed spec fn calls(&self) -> Seq<BackendCall> {
        self.keys.calls()
    }

    fn frame_setup(&mut self) -> (r: BackendResult<()>) {
        self.frames.push(
            Frame {
                error: None,
                prompt: String::new(),
                default: None,
                content: String::new(),
                help: None,
                finished: false,
            },
        );
        let r = Ok(());
        self.keys.record(Ghost(BackendCall::FrameSetup(outcome(r))));
        r
    }

    fn render_error_message(&mut self, message: &str) -> (r: BackendResult<()>) {
        let n = self.frames.len();
        if n > 0 {
            self.frames[n - 1].error = Some(message.to_owned());
        }
        let r = Ok(());
        self.keys.record(Ghost(BackendCall::ErrorMessage(message@, outcome(r))));
        r
    }

    fn render_prompt(&mut self, prompt: &str, default: Option<&str>, input: &Input) -> (r:
        BackendResult<()>) {
        let n = self.frames.len();
        if n > 0 {
            self.frames[n - 1].prompt = prompt.to_owned();
            self.frames[n - 1].default = match default {
                Some(d) => Some(d.to_owned()),
                None => None,
            };
            self.frames[n - 1].content = input.content();
        }
        let r = Ok(());
        self.keys.record(Ghost(BackendCall::Prompt(prompt@, opt_view(default), input.text(), outcome(r))));
        r
    }

    fn render_help_message(&mut self, message: &str) -> (r: BackendResult<()>) {
        let n = self.frames.len();
        if n > 0 {
            self.frames[n - 1].help = Some(message.to_owned());
        }
        let r = Ok(());
        self.keys.record(Ghost(BackendCall::HelpMessage(message@, outcome(r))));
        r
    }

    fn frame_finish(&mut self) -> (r: BackendResult<()>) {
        let n = self.frames.len();
        if n > 0 {
            self.frames[n - 1].finished = true;
        }
        let r = Ok(());
        self.keys.record(Ghost(BackendCall::FrameFinish(outcome(r))));
        r
    }

    fn read_key(&mut self) -> (r: BackendResult<Key>) {
        self.keys.read()
    }

    fn finish_prompt(&mut self, prompt: &str, answer: &str) -> (r: BackendResult<()>) {
        self.answer = Some((prompt.to_owned(), answer.to_owned()));
        let r = Ok(());
        self.keys.record(Ghost(BackendCall::FinishPrompt(prompt@, answer@, outcome(r))));
        r
    }
}

} // verus!

verus! {

/// One more call on a backend, seen from the calls made since `start`.
pub proof fn lemma_log_step(
    start: Seq<BackendCall>,
    before: Seq<BackendCall>,
    after: Seq<BackendCall>,
    call: BackendCall,
    state: FrameState,
)
    requires
        extends(start, before),
        after == before.push(call),
        frames_from(FrameState::Idle, calls_since(start, before)) == Some(state),
    ensures
        extends(start, after),
        calls_since(start, after) == calls_since(start, before).push(call),
        frames_from(FrameState::Idle, calls_since(start, after)) == frame_step(state, call),
{
    lemma_calls_since_push(start, before, call);
    lemma_frames_push(FrameState::Idle, calls_since(start, before), call);
}

} // verus!

verus! {

/// A sequence of calls that has not reached `Finished` never drew the final
/// line: `finish_prompt` is only ever called once an answer is accepted.
pub proof fn lemma_unfinished_has_no_final_line(calls: Seq<BackendCall>)
    requires
        frames_from(FrameState::Idle, calls) matches Some(s) && s != FrameState::Finished,
    ensures
        forall|i: int| 0 <= i < calls.len() ==> !(#[trigger] calls[i] is FinishPrompt),
    decreases calls.len(),
{
    if calls.len() > 0 {
        let before = calls.drop_last();
        let s = frames_from(FrameState::Idle, before);
        assert(s is Some);
        assert(s != Some(FrameState::Finished));
        lemma_unfinished_has_no_final_line(before);
        assert forall|i: int| 0 <= i < calls.len() implies !(#[trigger] calls[i] is FinishPrompt) by {
            if i < calls.len() - 1 {
                assert(calls[i] == before[i]);
            }
        }
    }
}

/// Turns that each leave the backend idle compose: after a run of calls that
/// ends idle, what follows is framed exactly as it would be on its own, so
/// every read sits after a closed frame and every frame is closed before the
/// next one opens.
pub proof fn lemma_turns_compose(a: Seq<BackendCall>, b: Seq<BackendCall>)
    requires
        frames_from(FrameState::Idle, a) == Some(FrameState::Idle),
    ensures
        frames_from(FrameState::Idle, a + b) == frames_from(FrameState::Idle, b),
{
    lemma_frames_append(FrameState::Idle, a, b);
}

} // verus!

verus! {

/// One more call of a planned sequence, seen from the calls made since `start`:
/// where it succeeded the calls so far are the plan's first `j + 1`, where it
/// failed they are the plan cut short there.
pub proof fn lemma_planned_step(
    start: Seq<BackendCall>,
    before: Seq<BackendCall>,
    after: Seq<BackendCall>,
    planned: Seq<BackendCall>,
    j: int,
    call: BackendCall,
    state: FrameState,
)
    requires
        extends(start, before),
        0 <= j < planned.len(),
        calls_since(start, before) == planned.take(j),
        failure(planned[j]) is None,
        call == with_outcome(planned[j], failure(call)),
        after == before.push(call),
        frames_from(FrameState::Idle, calls_since(start, before)) == Some(state),
    ensures
        extends(start, after),
        frames_from(FrameState::Idle, calls_since(start, after)) == frame_step(state, call),
        failure(call) is None ==> calls_since(start, after) == planned.take(j + 1),
        failure(call) matches Some(e) ==> fails_at(planned, calls_since(start, after), e),
{
    lemma_log_step(start, before, after, call, state);
    if failure(call) is None {
        assert(planned.take(j).push(planned[j]) =~= planned.take(j + 1));
    } else {
        assert(calls_since(start, after).drop_last() =~= planned.take(j));
    }
}

} // verus!

verus! {

/// The keys that a sequence of calls read successfully, in order.
pub open spec fn keys_in(calls: Seq<BackendCall>) -> Seq<Key>
    decreases calls.len(),
{
    if calls.len() == 0 {
        Seq::empty()
    } else {
        match calls.last() {
            BackendCall::ReadKey(Ok(k)) => keys_in(calls.drop_last()).push(k),
            _ => keys_in(calls.drop_last()),
        }
    }
}

pub proof fn lemma_keys_in_push(calls: Seq<BackendCall>, call: BackendCall)
    ensures
        keys_in(calls.push(call)) == match call {
            BackendCall::ReadKey(Ok(k)) => keys_in(calls).push(k),
            _ => keys_in(calls),
        },
{
    assert(calls.push(call).drop_last() =~= calls);
}

} // verus!
