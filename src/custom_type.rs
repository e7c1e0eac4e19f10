use vstd::prelude::*;

use crate::backend::{
    calls_since, extends, fails_at, frames_from, key_read, lemma_calls_since_self, lemma_log_step,
    lemma_planned_step, opt_view, outcome, BackendCall, CustomTypeBackend, FrameState,
};
use crate::error::{InquireError, InquireResult};
use crate::input::{edit, Input};
use crate::key::Key;
use crate::render_config::RenderConfig;

verus! {

/// Relies on `str::parse`: the value that `T`'s `FromStr` reads from the text, or
/// a failure, whose detail is dropped.
#[verifier::external_body]
fn parse_from_str<T: core::str::FromStr>(s: &str) -> (r: Result<T, ()>) {
    match s.parse::<T>() {
        Ok(v) => Ok(v),
        Err(_) => Err(()),
    }
}

/// No default, typed after the formatter that a default would carry.
fn no_default<T, G>(_formatter: &G) -> (r: Option<(T, G)>)
    ensures
        r is None,
{
    None
}

/// Whether `parser`, handed a string that holds `text`, may return `r`.
pub open spec fn parses_to<T, P: Fn(&str) -> Result<T, ()>>(
    parser: P,
    text: Seq<char>,
    r: Result<T, ()>,
) -> bool {
    exists|s: &str| s@ == text && #[trigger] parser.ensures((s,), r)
}

/// Whether `formatter` may turn a clone of `v` into `text`.
pub open spec fn formats_to<T: Clone, F: Fn(T) -> String>(formatter: F, v: T, text: Seq<char>) -> bool {
    exists|w: T, s: String| cloned(v, w) && s@ == text && #[trigger] formatter.ensures((w,), s)
}

/// A prompt that reads a value of type `T`: the text the user submits is handed
/// to `parser`, and `formatter` shows the value once it is accepted. Where the
/// submitted text is empty and a default is set, the default is the answer.
pub struct CustomType<'a, T, P, F, D> {
    /// Message to be presented to the user.
    pub message: &'a str,
    /// Default value, returned when the user input is empty, with the function
    /// that formats it as a hint.
    pub default: Option<(T, D)>,
    /// Short hint that describes the expected value of the input.
    pub placeholder: Option<&'a str>,
    /// Help message to be presented to the user.
    pub help_message: Option<&'a str>,
    /// Formats the accepted value for the final line of the prompt.
    pub formatter: F,
    /// Reads a value from the submitted text.
    pub parser: P,
    /// Shown when the submitted text could not be parsed.
    pub error_message: String,
    /// Style options for the terminal adapter.
    pub render_config: RenderConfig,
}

impl<'a, T> CustomType<'a, T, (), (), ()> {
    /// A prompt with the given message that parses with `T`'s `FromStr`, formats
    /// with its `Display`, has no default, and says "Invalid input" on failure.
    pub fn new(message: &'a str) -> (r: CustomType<
        'a,
        T,
        impl Fn(&str) -> Result<T, ()>,
        impl Fn(T) -> String,
        impl Fn(T) -> String,
    >) where T: Clone + core::str::FromStr + core::fmt::Display
        ensures
            r.message == message,
            r.default is None,
            r.placeholder is None,
            r.help_message is None,
            r.error_message@ == "Invalid input"@,
            r.render_config.colored,
            r.wf(),
            forall|v: T, s: String|
                #[trigger] r.formatter.ensures((v,), s) ==> vstd::string::to_string_from_display_ensures::<T>(&v, s),
    {
        let formatter = |v: T| -> (s: String)
            ensures
                vstd::string::to_string_from_display_ensures::<T>(&v, s),
            { v.to_string() };
        let default = no_default(&formatter);
        CustomType {
            message,
            default,
            placeholder: None,
            help_message: None,
            formatter,
            parser: |s: &str| parse_from_str::<T>(s),
            error_message: "Invalid input".to_owned(),
            render_config: RenderConfig::default_colored(),
        }
    }
}

impl<'a, T: Clone, P: Fn(&str) -> Result<T, ()>, F: Fn(T) -> String, D: Fn(T) -> String> CustomType<
    'a,
    T,
    P,
    F,
    D,
> {
    /// The parser and the formatters can be called on every input.
    pub open spec fn wf(&self) -> bool {
        &&& forall|s: &str| #[trigger] self.parser.requires((s,))
        &&& forall|v: T| #[trigger] self.formatter.requires((v,))
        &&& self.default matches Some((_, f)) ==> forall|v: T| #[trigger] f.requires((v,))
    }

    /// Sets the default value and the function that formats it as a hint.
    pub fn with_default<E: Fn(T) -> String>(self, default: (T, E)) -> (r: CustomType<
        'a,
        T,
        P,
        F,
        E,
    >)
        ensures
            r.message == self.message,
            r.default == Some(default),
            r.placeholder == self.placeholder,
            r.help_message == self.help_message,
            r.formatter == self.formatter,
            r.parser == self.parser,
            r.error_message == self.error_message,
            r.render_config == self.render_config,
    {
        CustomType {
            message: self.message,
            default: Some(default),
            placeholder: self.placeholder,
            help_message: self.help_message,
            formatter: self.formatter,
            parser: self.parser,
            error_message: self.error_message,
            render_config: self.render_config,
        }
    }

    /// Sets the placeholder.
    pub fn with_placeholder(self, placeholder: &'a str) -> (r: Self)
        ensures
            r == (Self { placeholder: Some(placeholder), ..self }),
    {
        Self { placeholder: Some(placeholder), ..self }
    }

    /// Sets the help message.
    pub fn with_help_message(self, message: &'a str) -> (r: Self)
        ensures
            r == (Self { help_message: Some(message), ..self }),
    {
        Self { help_message: Some(message), ..self }
    }

    /// Sets the function that formats the accepted value.
    pub fn with_formatter<G: Fn(T) -> String>(self, formatter: G) -> (r: CustomType<'a, T, P, G, D>)
        ensures
            r.message == self.message,
            r.default == self.default,
            r.placeholder == self.placeholder,
            r.help_message == self.help_message,
            r.formatter == formatter,
            r.parser == self.parser,
            r.error_message == self.error_message,
            r.render_config == self.render_config,
    {
        CustomType {
            message: self.message,
            default: self.default,
            placeholder: self.placeholder,
            help_message: self.help_message,
            formatter,
            parser: self.parser,
            error_message: self.error_message,
            render_config: self.render_config,
        }
    }

    /// Sets the function that reads a value from the submitted text.
    pub fn with_parser<Q: Fn(&str) -> Result<T, ()>>(self, parser: Q) -> (r: CustomType<
        'a,
        T,
        Q,
        F,
        D,
    >)
        ensures
            r.message == self.message,
            r.default == self.default,
            r.placeholder == self.placeholder,
            r.help_message == self.help_message,
            r.formatter == self.formatter,
            r.parser == parser,
            r.error_message == self.error_message,
            r.render_config == self.render_config,
    {
        CustomType {
            message: self.message,
            default: self.default,
            placeholder: self.placeholder,
            help_message: self.help_message,
            formatter: self.formatter,
            parser,
            error_message: self.error_message,
            render_config: self.render_config,
        }
    }

    /// Sets the message shown when the submitted text could not be parsed.
    pub fn with_error_message(self, error_message: &'a str) -> (r: Self)
        ensures
            r.error_message@ == error_message@,
            r == (Self { error_message: r.error_message, ..self }),
    {
        Self { error_message: error_message.to_owned(), ..self }
    }

    /// Sets the style options handed on to the terminal adapter.
    pub fn with_render_config(self, render_config: RenderConfig) -> (r: Self)
        ensures
            r == (Self { render_config, ..self }),
    {
        Self { render_config, ..self }
    }
}

} // verus!

verus! {

/// What a key read in a turn leads to.
pub enum Turn<T> {
    /// The cancel key: the prompt ends without a value.
    Cancelled,
    /// A submission that resolved to a value.
    Accepted(T),
    /// A submission that failed to parse: the error is set and the line emptied.
    Retry,
    /// An edit of the line.
    Continue,
}

/// The live state of a `CustomType` prompt: its configuration, the line being
/// edited and the error left by the last failed submission.
pub struct CustomTypePrompt<'a, T, P, F, D> {
    pub message: &'a str,
    pub error: Option<String>,
    pub help_message: Option<&'a str>,
    pub default: Option<(T, D)>,
    pub input: Input,
    pub formatter: F,
    pub parser: P,
    pub error_message: String,
}

impl<'a, T: Clone, P: Fn(&str) -> Result<T, ()>, F: Fn(T) -> String, D: Fn(T) -> String> CustomTypePrompt<
    'a,
    T,
    P,
    F,
    D,
> {
    pub open spec fn wf(&self) -> bool {
        &&& self.input.wf()
        &&& forall|s: &str| #[trigger] self.parser.requires((s,))
        &&& forall|v: T| #[trigger] self.formatter.requires((v,))
        &&& self.default matches Some((_, f)) ==> forall|v: T| #[trigger] f.requires((v,))
    }

    /// Both prompts hold the same configuration.
    pub open spec fn same_config(&self, other: &Self) -> bool {
        &&& self.message == other.message
        &&& self.help_message == other.help_message
        &&& self.default == other.default
        &&& self.formatter == other.formatter
        &&& self.parser == other.parser
        &&& self.error_message == other.error_message
    }

    /// Whether submitting `text` may resolve to `r`: the default where one is set
    /// and the text is empty, without the parser; else what the parser returns.
    pub open spec fn resolves(&self, text: Seq<char>, r: Result<T, ()>) -> bool {
        if self.default is Some && text.len() == 0 {
            r matches Ok(v) && cloned(self.default->Some_0.0, v)
        } else {
            parses_to(self.parser, text, r)
        }
    }

    /// Whether `hint` is what the default is shown as: nothing without a default,
    /// else its formatted text.
    pub open spec fn default_hint(&self, hint: Option<Seq<char>>) -> bool {
        match self.default {
            None => hint is None,
            Some((d, f)) => hint matches Some(h) && formats_to(f, d, h),
        }
    }

    /// The calls that draw one frame: the error banner if an error is set, the
    /// message with the default hint and the line, and the help message if any.
    pub open spec fn frame_calls(&self, hint: Option<Seq<char>>) -> Seq<BackendCall> {
        seq![BackendCall::FrameSetup(None)] + match self.error {
            Some(e) => seq![BackendCall::ErrorMessage(e@, None)],
            None => Seq::<BackendCall>::empty(),
        } + seq![BackendCall::Prompt(self.message@, hint, self.input.text(), None)] + match self.help_message {
            Some(m) => seq![BackendCall::HelpMessage(m@, None)],
            None => Seq::<BackendCall>::empty(),
        } + seq![BackendCall::FrameFinish(None)]
    }

    /// `calls` are what drawing a frame with `hint` made, ending as `r` says:
    /// the whole frame on success, else the frame cut short at the call that
    /// failed, whose error `r` hands on.
    pub open spec fn rendered(&self, hint: Option<Seq<char>>, calls: Seq<BackendCall>, r: InquireResult<()>) -> bool {
        match r {
            Ok(_) => calls == self.frame_calls(hint),
            Err(InquireError::IO(m)) => fails_at(self.frame_calls(hint), calls, m@),
            Err(InquireError::OperationCanceled) => false,
        }
    }

    /// What the key read in a turn leads to, with `rest` the calls made after
    /// the read: cancel ends the prompt; submit either accepts a value that the
    /// line resolves to and draws the final line, or fails to parse and goes
    /// on; any other key edits the line.
    pub open spec fn key_turn(
        &self,
        key: Key,
        rest: Seq<BackendCall>,
        after: Self,
        r: InquireResult<Option<T>>,
    ) -> bool {
        if key == Key::Cancel {
            rest.len() == 0 && after == *self && (r matches Err(InquireError::OperationCanceled))
        } else if key == Key::Submit {
            ||| rest.len() == 0 && r == Ok::<Option<T>, InquireError>(None) && after.retried_from(self)
            ||| after == *self && rest.len() == 1 && (rest[0] matches BackendCall::FinishPrompt(m, a, o)
                && m == self.message@ && exists|v: T|
                {
                    &&& self.resolves(self.input.text(), Ok(v))
                    &&& #[trigger] formats_to(self.formatter, v, a)
                    &&& match o {
                        None => r == Ok::<Option<T>, InquireError>(Some(v)),
                        Some(e) => r matches Err(InquireError::IO(x)) && x@ == e,
                    }
                })
        } else {
            rest.len() == 0 && r == Ok::<Option<T>, InquireError>(None) && after.edited_from(self, key)
        }
    }

    /// `calls` are what one turn made, leaving `after` and returning `r`: a
    /// frame drawn with `hint`, cut short where a call failed; then a key read,
    /// which ends the turn where it failed; then what the key leads to.
    pub open spec fn turn(
        &self,
        hint: Option<Seq<char>>,
        calls: Seq<BackendCall>,
        after: Self,
        r: InquireResult<Option<T>>,
    ) -> bool {
        let frame = self.frame_calls(hint);
        if calls.len() <= frame.len() {
            r matches Err(InquireError::IO(m)) && fails_at(frame, calls, m@) && after == *self
        } else {
            &&& calls.take(frame.len() as int) == frame
            &&& calls[frame.len() as int] matches BackendCall::ReadKey(read)
            &&& match read {
                Err(e) => calls.len() == frame.len() + 1 && after == *self && (r matches Err(
                    InquireError::IO(m),
                ) && m@ == e),
                Ok(key) => self.key_turn(key, calls.subrange(frame.len() + 1 as int, calls.len() as int), after, r),
            }
        }
    }

    /// `self` is `before` after a submission that failed to parse: the error is
    /// set to the configured message and the line is emptied.
    pub open spec fn retried_from(&self, before: &Self) -> bool {
        &&& self.same_config(before)
        &&& self.wf()
        &&& before.resolves(before.input.text(), Err(()))
        &&& self.error matches Some(e) && e@ == before.error_message@
        &&& self.input.text().len() == 0
        &&& self.input.pos() == 0
        &&& self.input.hint() == before.input.hint()
    }

    /// `self` is `before` after the edit that `key` stands for.
    pub open spec fn edited_from(&self, before: &Self, key: Key) -> bool {
        &&& self.same_config(before)
        &&& self.wf()
        &&& self.error == before.error
        &&& (self.input.text(), self.input.pos()) == edit(before.input.text(), before.input.pos(), key)
        &&& self.input.hint() == before.input.hint()
    }

    /// The live state of a prompt that has just started: no error, and an empty
    /// line that shows the configured placeholder.
    pub fn from(co: CustomType<'a, T, P, F, D>) -> (r: Self)
        requires
            co.wf(),
        ensures
            r.wf(),
            r.message == co.message,
            r.error is None,
            r.help_message == co.help_message,
            r.default == co.default,
            r.formatter == co.formatter,
            r.parser == co.parser,
            r.error_message == co.error_message,
            r.input.text().len() == 0,
            r.input.pos() == 0,
            match co.placeholder {
                Some(p) => r.input.hint() == Some(p@),
                None => r.input.hint() is None,
            },
    {
        let input = match co.placeholder {
            Some(p) => Input::new().with_placeholder(p),
            None => Input::new(),
        };
        CustomTypePrompt {
            message: co.message,
            error: None,
            help_message: co.help_message,
            default: co.default,
            input,
            formatter: co.formatter,
            parser: co.parser,
            error_message: co.error_message,
        }
    }

    /// Hands an edit key to the line.
    pub fn on_change(&mut self, key: Key)
        requires
            old(self).wf(),
        ensures
            final(self).edited_from(old(self), key),
    {
        self.input.handle_key(key);
    }

    /// The value that the current line resolves to, or the configured error
    /// message where the parser rejects it.
    pub fn get_final_answer(&self) -> (r: Result<T, String>)
        requires
            self.wf(),
        ensures
            match r {
                Ok(v) => self.resolves(self.input.text(), Ok(v)),
                Err(m) => self.resolves(self.input.text(), Err(())) && m@ == self.error_message@,
            },
    {
        if let Some(pair) = &self.default {
            if self.input.is_empty() {
                return Ok(pair.0.clone());
            }
        }
        let content = self.input.content();
        let text = content.as_str();
        let parsed = (self.parser)(text);
        assert(text@ == self.input.text() && self.parser.ensures((text,), parsed));
        match parsed {
            Ok(v) => Ok(v),
            Err(u) => {
                assert(u == ());
                assert(self.parser.ensures((text,), Err(())));
                Err(self.error_message.clone())
            },
        }
    }

    /// Submits the line. On success the value comes back and nothing changes;
    /// on a parse failure the configured error is set and the line is emptied,
    /// and the prompt goes on editing.
    pub fn on_submit(&mut self) -> (r: Option<T>)
        requires
            old(self).wf(),
        ensures
            match r {
                Some(v) => *final(self) == *old(self) && old(self).resolves(old(self).input.text(), Ok(v)),
                None => final(self).retried_from(old(self)),
            },
    {
        match self.get_final_answer() {
            Ok(answer) => Some(answer),
            Err(message) => {
                self.error = Some(message);
                self.input.clear();
                None
            },
        }
    }

    /// Acts on a key read in a turn: cancel ends the prompt, submit resolves the
    /// line (accepting a value, or setting the error and emptying the line),
    /// and any other key edits the line.
    pub fn on_key(&mut self, key: Key) -> (r: Turn<T>)
        requires
            old(self).wf(),
        ensures
            final(self).wf(),
            final(self).same_config(old(self)),
            key == Key::Cancel ==> r is Cancelled && *final(self) == *old(self),
            key == Key::Submit ==> (r matches Turn::Accepted(v) && *final(self) == *old(self) && old(
                self,
            ).resolves(old(self).input.text(), Ok(v))) || (r is Retry && final(self).retried_from(
                old(self),
            )),
            key != Key::Cancel && key != Key::Submit ==> r is Continue && final(self).edited_from(
                old(self),
                key,
            ),
    {
        match key {
            Key::Cancel => Turn::Cancelled,
            Key::Submit => match self.on_submit() {
                Some(answer) => Turn::Accepted(answer),
                None => Turn::Retry,
            },
            k => {
                self.on_change(k);
                Turn::Continue
            },
        }
    }

    /// Draws one frame: the error banner if an error is set, the message with
    /// the default hint and the line, the help message if any. The first call
    /// that fails ends the frame, and its error is handed on.
    pub fn render<B: CustomTypeBackend>(&self, backend: &mut B) -> (r: InquireResult<()>)
        requires
            self.wf(),
        ensures
            extends(old(backend).calls(), final(backend).calls()),
            exists|hint: Option<Seq<char>>|
                self.default_hint(hint) && self.rendered(
                    hint,
                    calls_since(old(backend).calls(), final(backend).calls()),
                    r,
                ),
            r is Ok ==> frames_from(FrameState::Idle, calls_since(old(backend).calls(), final(backend).calls()))
                == Some(FrameState::Drawn),
            r is Err ==> (frames_from(FrameState::Idle, calls_since(old(backend).calls(), final(backend).calls()))
                matches Some(s) && s != FrameState::Finished),
    {
        let default_message: Option<String> = match &self.default {
            Some(pair) => {
                let v = pair.0.clone();
                let shown = (pair.1)(v);
                assert(formats_to(pair.1, pair.0, shown@));
                Some(shown)
            },
            None => None,
        };
        let hint: Option<&str> = match &default_message {
            Some(s) => Some(s.as_str()),
            None => None,
        };
        let ghost h = opt_view(hint);
        assert(self.default_hint(h));
        let ghost planned = self.frame_calls(h);
        let ghost start = backend.calls();
        proof {
            lemma_calls_since_self(start);
            assert(planned.take(0) =~= Seq::<BackendCall>::empty());
        }
        let ghost c0 = backend.calls();
        let r0 = backend.frame_setup();
        proof {
            lemma_planned_step(start, c0, backend.calls(), planned, 0, BackendCall::FrameSetup(outcome(r0)), FrameState::Idle);
        }
        if let Err(e) = r0 {
            return Err(InquireError::IO(e));
        }
        if let Some(error_message) = &self.error {
            let ghost c1 = backend.calls();
            let r1 = backend.render_error_message(error_message.as_str());
            proof {
                assert(planned[1] == BackendCall::ErrorMessage(error_message@, None));
                lemma_planned_step(
                    start,
                    c1,
                    backend.calls(),
                    planned,
                    1,
                    BackendCall::ErrorMessage(error_message@, outcome(r1)),
                    FrameState::Drawing,
                );
            }
            if let Err(e) = r1 {
                return Err(InquireError::IO(e));
            }
        }
        let ghost jp: int = if self.error is Some { 2 } else { 1 };
        let ghost c2 = backend.calls();
        let r2 = backend.render_prompt(self.message, hint, &self.input);
        proof {
            assert(planned[jp] == BackendCall::Prompt(self.message@, h, self.input.text(), None));
            lemma_planned_step(
                start,
                c2,
                backend.calls(),
                planned,
                jp,
                BackendCall::Prompt(self.message@, h, self.input.text(), outcome(r2)),
                FrameState::Drawing,
            );
        }
        if let Err(e) = r2 {
            return Err(InquireError::IO(e));
        }
        if let Some(message) = self.help_message {
            let ghost c3 = backend.calls();
            let r3 = backend.render_help_message(message);
            proof {
                assert(planned[jp + 1] == BackendCall::HelpMessage(message@, None));
                lemma_planned_step(
                    start,
                    c3,
                    backend.calls(),
                    planned,
                    jp + 1,
                    BackendCall::HelpMessage(message@, outcome(r3)),
                    FrameState::Drawing,
                );
            }
            if let Err(e) = r3 {
                return Err(InquireError::IO(e));
            }
        }
        let ghost jf: int = if self.help_message is Some { jp + 2 } else { jp + 1 };
        let ghost c4 = backend.calls();
        let r4 = backend.frame_finish();
        proof {
            assert(planned.len() == jf + 1);
            assert(planned[jf] == BackendCall::FrameFinish(None));
            lemma_planned_step(start, c4, backend.calls(), planned, jf, BackendCall::FrameFinish(outcome(r4)), FrameState::Drawing);
        }
        if let Err(e) = r4 {
            return Err(InquireError::IO(e));
        }
        assert(planned.take(jf + 1) =~= planned);
        Ok(())
    }

    /// One turn of the prompt: draws a frame, reads a key and acts on it.
    /// `Ok(Some(v))` once a value is accepted and the final line is drawn,
    /// `Ok(None)` while the user goes on editing, `OperationCanceled` on the
    /// cancel key, and the error of the first backend call that fails.
    pub fn step<B: CustomTypeBackend>(&mut self, backend: &mut B) -> (r: InquireResult<Option<T>>)
        requires
            old(self).wf(),
        ensures
            final(self).wf(),
            final(self).same_config(old(self)),
            extends(old(backend).calls(), final(backend).calls()),
            exists|hint: Option<Seq<char>>|
                old(self).default_hint(hint) && old(self).turn(
                    hint,
                    calls_since(old(backend).calls(), final(backend).calls()),
                    *final(self),
                    r,
                ),
            frames_from(FrameState::Idle, calls_since(old(backend).calls(), final(backend).calls())) is Some,
            (r == Ok::<Option<T>, InquireError>(None) || r matches Err(InquireError::OperationCanceled)) ==> frames_from(
                FrameState::Idle,
                calls_since(old(backend).calls(), final(backend).calls()),
            ) == Some(FrameState::Idle),
            r matches Ok(Some(_)) ==> frames_from(
                FrameState::Idle,
                calls_since(old(backend).calls(), final(backend).calls()),
            ) == Some(FrameState::Finished),
    {
        let ghost start = backend.calls();
        let ghost before = *self;
        let rendered = self.render(backend);
        let ghost hint = choose|h: Option<Seq<char>>|
            self.default_hint(h) && self.rendered(h, calls_since(start, backend.calls()), rendered);
        let ghost frame = self.frame_calls(hint);
        if let Err(e) = rendered {
            assert(before.turn(hint, calls_since(start, backend.calls()), *self, Err(e)));
            return Err(e);
        }
        let ghost c0 = backend.calls();
        let read = backend.read_key();
        proof {
            lemma_log_step(start, c0, backend.calls(), BackendCall::ReadKey(key_read(read)), FrameState::Drawn);
            assert(calls_since(start, backend.calls()).take(frame.len() as int) =~= frame);
        }
        let key = match read {
            Ok(k) => k,
            Err(e) => {
                assert(before.turn(hint, calls_since(start, backend.calls()), *self, Err(InquireError::IO(e))));
                return Err(InquireError::IO(e));
            },
        };
        let ghost read_calls = calls_since(start, backend.calls());
        proof {
            assert(read_calls.subrange(frame.len() + 1 as int, read_calls.len() as int) =~= Seq::<BackendCall>::empty());
        }
        let turn = self.on_key(key);
        let ghost outcome_of_key = turn;
        let r = match turn {
            Turn::Cancelled => Err(InquireError::OperationCanceled),
            Turn::Retry => Ok(None),
            Turn::Continue => Ok(None),
            Turn::Accepted(answer) => {
                let formatted = (self.formatter)(answer.clone());
                assert(formats_to(self.formatter, answer, formatted@));
                let ghost c1 = backend.calls();
                let finished = backend.finish_prompt(self.message, formatted.as_str());
                proof {
                    lemma_log_step(
                        start,
                        c1,
                        backend.calls(),
                        BackendCall::FinishPrompt(self.message@, formatted@, outcome(finished)),
                        FrameState::Idle,
                    );
                    let calls = calls_since(start, backend.calls());
                    assert(calls.take(frame.len() as int) =~= frame);
                    assert(calls[frame.len() as int] == read_calls[frame.len() as int]);
                    assert(calls.subrange(frame.len() + 1 as int, calls.len() as int) =~= seq![
                        BackendCall::FinishPrompt(self.message@, formatted@, outcome(finished)),
                    ]);
                }
                let ghost accepted = answer;
                let res = match finished {
                    Ok(_) => Ok(Some(answer)),
                    Err(e) => Err(InquireError::IO(e)),
                };
                proof {
                    let calls = calls_since(start, backend.calls());
                    let rest = calls.subrange(frame.len() + 1 as int, calls.len() as int);
                    assert(rest[0] == BackendCall::FinishPrompt(self.message@, formatted@, outcome(finished)));
                    assert(before.resolves(before.input.text(), Ok(accepted)));
                    assert(formats_to(before.formatter, accepted, formatted@));
                    assert(key == Key::Submit);
                    assert(*self == before);
                    assert(rest.len() == 1);
                    assert(match outcome(finished) {
                        None => res == Ok::<Option<T>, InquireError>(Some(accepted)),
                        Some(e) => res matches Err(InquireError::IO(x)) && x@ == e,
                    });
                    assert(rest[0] matches BackendCall::FinishPrompt(m, a, o) && m == before.message@ && a == formatted@ && o == outcome(finished));
                    assert(exists|v: T| {
                        &&& before.resolves(before.input.text(), Ok(v))
                        &&& #[trigger] formats_to(before.formatter, v, formatted@)
                        &&& match outcome(finished) {
                            None => res == Ok::<Option<T>, InquireError>(Some(v)),
                            Some(e) => res matches Err(InquireError::IO(x)) && x@ == e,
                        }
                    });
                    assert(before.key_turn(key, rest, *self, res));
                }
                res
            },
        };
        proof {
            let calls = calls_since(start, backend.calls());
            assert(calls.len() > frame.len());
            assert(calls.take(frame.len() as int) =~= frame);
            assert(calls[frame.len() as int] == BackendCall::ReadKey(Ok(key)));
            if !(outcome_of_key is Accepted) {
                assert(calls =~= read_calls);
            }
            assert(before.key_turn(key, calls.subrange(frame.len() + 1 as int, calls.len() as int), *self, r));
        }
        assert(before.turn(hint, calls_since(start, backend.calls()), *self, r));
        r
    }

    /// With a default set, an empty submission resolves to the default alone,
    /// whatever the parser would say: the parser is not consulted.
    pub proof fn lemma_default_short_circuit(&self, r: Result<T, ()>)
        requires
            self.default is Some,
        ensures
            self.resolves(Seq::<char>::empty(), r) <==> (r matches Ok(v) && cloned(self.default->Some_0.0, v)),
    {
    }
}

} // verus!