use inquire::{
    CustomType, CustomTypeBackend, CustomTypePrompt, InquireError, InquireResult, Key,
    RenderConfig, ScriptedBackend,
};

fn run<T, P, F, D, B>(prompt: &mut CustomTypePrompt<'_, T, P, F, D>, backend: &mut B) -> InquireResult<T>
where
    T: Clone,
    P: Fn(&str) -> Result<T, ()>,
    F: Fn(T) -> String,
    D: Fn(T) -> String,
    B: CustomTypeBackend,
{
    loop {
        if let Some(v) = prompt.step(backend)? {
            return Ok(v);
        }
    }
}

fn chars(text: &str) -> Vec<Key> {
    text.chars().map(Key::Char).collect()
}

fn script(parts: &[Vec<Key>]) -> ScriptedBackend {
    ScriptedBackend::new(parts.concat())
}

#[test]
fn new_has_plain_defaults() {
    let ct = CustomType::<i64, _, _, _>::new("Age:");
    assert_eq!(ct.message, "Age:");
    assert!(ct.default.is_none());
    assert!(ct.placeholder.is_none());
    assert!(ct.help_message.is_none());
    assert_eq!(ct.error_message, "Invalid input");
    assert!(ct.render_config.colored);
    assert_eq!((ct.parser)("17"), Ok(17));
    assert_eq!((ct.parser)("x"), Err(()));
    assert_eq!((ct.formatter)(17), "17");
}

#[test]
fn builders_set_fields() {
    let ct = CustomType::<i64, _, _, _>::new("Age:")
        .with_placeholder("42")
        .with_help_message("whole years")
        .with_error_message("not a number")
        .with_render_config(RenderConfig::empty())
        .with_formatter(|v: i64| format!("{} years", v))
        .with_default((30, |v: i64| format!("<{}>", v)));
    assert_eq!(ct.placeholder, Some("42"));
    assert_eq!(ct.help_message, Some("whole years"));
    assert_eq!(ct.error_message, "not a number");
    assert!(!ct.render_config.colored);
    assert_eq!((ct.formatter)(3), "3 years");
    let (d, f) = ct.default.as_ref().unwrap();
    assert_eq!(*d, 30);
    assert_eq!(f(*d), "<30>");
}

#[test]
fn from_starts_with_empty_line_and_placeholder() {
    let ct = CustomType::<i64, _, _, _>::new("Age:").with_placeholder("42");
    let prompt = CustomTypePrompt::from(ct);
    assert!(prompt.error.is_none());
    assert_eq!(prompt.input.content(), "");
    assert_eq!(prompt.input.placeholder(), Some("42"));
}

#[test]
fn default_short_circuits_parser() {
    let ct = CustomType::<i64, _, _, _>::new("Age:")
        .with_parser(|_s: &str| Err(()))
        .with_default((7, |v: i64| v.to_string()));
    let mut prompt = CustomTypePrompt::from(ct);
    assert_eq!(prompt.get_final_answer(), Ok(7));
    let mut backend = script(&[vec![Key::Submit]]);
    assert_eq!(run(&mut prompt, &mut backend).unwrap(), 7);
    assert_eq!(backend.frames()[0].default.as_deref(), Some("7"));
}

#[test]
fn default_is_not_used_for_non_empty_text() {
    let ct = CustomType::<i64, _, _, _>::new("Age:").with_default((7, |v: i64| v.to_string()));
    let mut prompt = CustomTypePrompt::from(ct);
    let mut backend = script(&[chars("12"), vec![Key::Submit]]);
    assert_eq!(run(&mut prompt, &mut backend).unwrap(), 12);
}

#[test]
fn integer_round_trip() {
    let ct = CustomType::<i64, _, _, _>::new("Number:");
    let mut prompt = CustomTypePrompt::from(ct);
    let mut backend = script(&[chars("42"), vec![Key::Submit]]);
    assert_eq!(run(&mut prompt, &mut backend).unwrap(), 42);
    let (message, answer) = backend.answer().clone().unwrap();
    assert_eq!(message, "Number:");
    assert_eq!(answer, "42");
}

#[test]
fn currency_formatter_round_trip() {
    let ct = CustomType::<i64, _, _, _>::new("Price:").with_formatter(|v: i64| format!("${}.00", v));
    let mut prompt = CustomTypePrompt::from(ct);
    let mut backend = script(&[chars("42"), vec![Key::Submit]]);
    assert_eq!(run(&mut prompt, &mut backend).unwrap(), 42);
    assert_eq!(backend.answer().clone().unwrap().1, "$42.00");
}

#[test]
fn parse_failure_sets_error_and_clears_line() {
    let ct = CustomType::<i64, _, _, _>::new("Number:").with_error_message("type digits");
    let mut prompt = CustomTypePrompt::from(ct);
    for c in "abc".chars() {
        prompt.on_change(Key::Char(c));
    }
    assert_eq!(prompt.get_final_answer(), Err("type digits".to_string()));
    assert_eq!(prompt.on_submit(), None);
    assert_eq!(prompt.error.as_deref(), Some("type digits"));
    assert_eq!(prompt.input.content(), "");
    assert_eq!(prompt.input.cursor(), 0);
}

#[test]
fn parse_failure_keeps_prompt_going() {
    let ct = CustomType::<i64, _, _, _>::new("Number:");
    let mut prompt = CustomTypePrompt::from(ct);
    let mut backend = script(&[chars("abc"), vec![Key::Submit], chars("5"), vec![Key::Submit]]);
    assert_eq!(run(&mut prompt, &mut backend).unwrap(), 5);
    let frames = backend.frames();
    assert_eq!(frames.len(), 6);
    assert_eq!(frames[3].content, "abc");
    assert_eq!(frames[3].error, None);
    assert_eq!(frames[4].content, "");
    assert_eq!(frames[4].error.as_deref(), Some("Invalid input"));
}

#[test]
fn cancel_on_empty_line() {
    let ct = CustomType::<i64, _, _, _>::new("Number:");
    let mut prompt = CustomTypePrompt::from(ct);
    let mut backend = script(&[vec![Key::Cancel]]);
    assert!(matches!(run(&mut prompt, &mut backend), Err(InquireError::OperationCanceled)));
    assert!(backend.answer().is_none());
}

#[test]
fn cancel_with_partial_line() {
    let ct = CustomType::<i64, _, _, _>::new("Number:");
    let mut prompt = CustomTypePrompt::from(ct);
    let mut backend = script(&[chars("12"), vec![Key::Cancel, Key::Submit]]);
    assert!(matches!(run(&mut prompt, &mut backend), Err(InquireError::OperationCanceled)));
    assert!(backend.answer().is_none());
    assert_eq!(backend.keys_read(), 3);
}

#[test]
fn cancel_after_error() {
    let ct = CustomType::<i64, _, _, _>::new("Number:");
    let mut prompt = CustomTypePrompt::from(ct);
    let mut backend = script(&[chars("x"), vec![Key::Submit, Key::Cancel]]);
    assert!(matches!(run(&mut prompt, &mut backend), Err(InquireError::OperationCanceled)));
    assert!(backend.answer().is_none());
    assert_eq!(prompt.error.as_deref(), Some("Invalid input"));
}

#[test]
fn exhausted_script_is_an_io_failure() {
    let ct = CustomType::<i64, _, _, _>::new("Number:");
    let mut prompt = CustomTypePrompt::from(ct);
    let mut backend = script(&[chars("1")]);
    assert!(matches!(run(&mut prompt, &mut backend), Err(InquireError::IO(_))));
    assert!(backend.answer().is_none());
}

#[test]
fn one_closed_frame_per_key() {
    let ct = CustomType::<i64, _, _, _>::new("Number:").with_help_message("digits only");
    let mut prompt = CustomTypePrompt::from(ct);
    let keys = [chars("1x"), vec![Key::Backspace, Key::MoveLeft, Key::Submit]];
    let mut backend = script(&keys);
    assert_eq!(run(&mut prompt, &mut backend).unwrap(), 1);
    let frames = backend.frames();
    assert_eq!(frames.len(), backend.keys_read());
    assert_eq!(frames.len(), 5);
    for frame in frames {
        assert!(frame.finished);
        assert_eq!(frame.prompt, "Number:");
        assert_eq!(frame.help.as_deref(), Some("digits only"));
    }
    assert_eq!(frames[2].content, "1x");
    assert_eq!(frames[3].content, "1");
}

#[test]
fn step_reports_each_turn() {
    let ct = CustomType::<i64, _, _, _>::new("Number:");
    let mut prompt = CustomTypePrompt::from(ct);
    let mut backend = script(&[vec![Key::Char('9'), Key::Submit]]);
    assert!(matches!(prompt.step(&mut backend), Ok(None)));
    assert_eq!(prompt.input.content(), "9");
    assert!(backend.answer().is_none());
    assert!(matches!(prompt.step(&mut backend), Ok(Some(9))));
    assert_eq!(backend.answer().clone().unwrap(), ("Number:".to_string(), "9".to_string()));
}

#[test]
fn amount_scenario_accepts_decimal() {
    let ct = CustomType::<f64, _, _, _>::new("Amount:")
        .with_formatter(|v: f64| format!("${:.2}", v))
        .with_error_message("Please type a valid number")
        .with_parser(|s: &str| s.parse::<f64>().map_err(|_| ()));
    let mut prompt = CustomTypePrompt::from(ct);
    let mut backend = script(&[chars("12.5"), vec![Key::Submit]]);
    assert_eq!(run(&mut prompt, &mut backend).unwrap(), 12.5);
    let (message, answer) = backend.answer().clone().unwrap();
    assert_eq!(format!("{} {}", message, answer), "Amount: $12.50");
}

#[test]
fn amount_scenario_rejects_text() {
    let ct = CustomType::<f64, _, _, _>::new("Amount:")
        .with_formatter(|v: f64| format!("${:.2}", v))
        .with_error_message("Please type a valid number")
        .with_parser(|s: &str| s.parse::<f64>().map_err(|_| ()));
    let mut prompt = CustomTypePrompt::from(ct);
    let mut backend = script(&[chars("abc"), vec![Key::Submit]]);
    assert!(matches!(run(&mut prompt, &mut backend), Err(InquireError::IO(_))));
    let last = backend.frames().last().unwrap();
    assert_eq!(last.error.as_deref(), Some("Please type a valid number"));
    assert_eq!(last.content, "");
    assert!(backend.answer().is_none());
}

#[test]
fn cancel_takes_priority_over_default() {
    let ct = CustomType::<i64, _, _, _>::new("Age:").with_default((7, |v: i64| v.to_string()));
    let mut prompt = CustomTypePrompt::from(ct);
    let mut backend = script(&[vec![Key::Cancel]]);
    assert!(matches!(run(&mut prompt, &mut backend), Err(InquireError::OperationCanceled)));
    assert!(backend.answer().is_none());
    assert_eq!(backend.keys_read(), 1);
}

#[test]
fn failed_parse_then_cancel_run() {
    let ct = CustomType::<i32, _, _, _>::new("n").with_error_message("Not a number");
    let mut prompt = CustomTypePrompt::from(ct);
    let mut backend = script(&[chars("abc"), vec![Key::Submit, Key::Cancel]]);
    assert!(matches!(run(&mut prompt, &mut backend), Err(InquireError::OperationCanceled)));
    let frames = backend.frames();
    assert_eq!(frames.len(), 5);
    for frame in &frames[..4] {
        assert_eq!(frame.error, None);
    }
    assert_eq!(frames[3].content, "abc");
    assert_eq!(frames[4].error.as_deref(), Some("Not a number"));
    assert_eq!(frames[4].content, "");
    assert_eq!(backend.keys_read(), 5);
    assert!(backend.answer().is_none());
}

#[test]
fn error_banner_stays_through_later_edits() {
    let ct = CustomType::<i64, _, _, _>::new("Number:");
    let mut prompt = CustomTypePrompt::from(ct);
    let mut backend = script(&[chars("x"), vec![Key::Submit], chars("12"), vec![Key::Backspace, Key::Submit]]);
    assert_eq!(run(&mut prompt, &mut backend).unwrap(), 1);
    let frames = backend.frames();
    assert_eq!(frames.len(), 6);
    assert_eq!(frames[1].error, None);
    for frame in &frames[2..] {
        assert_eq!(frame.error.as_deref(), Some("Invalid input"));
    }
    assert_eq!(frames[4].content, "12");
    assert_eq!(frames[5].content, "1");
}

#[test]
fn default_hint_is_drawn_and_answer_uses_formatter() {
    let ct = CustomType::<i64, _, _, _>::new("Age:")
        .with_formatter(|v: i64| format!("{} years", v))
        .with_default((30, |v: i64| format!("<{}>", v)));
    let mut prompt = CustomTypePrompt::from(ct);
    let mut backend = script(&[vec![Key::Submit]]);
    assert_eq!(run(&mut prompt, &mut backend).unwrap(), 30);
    assert_eq!(backend.frames()[0].default.as_deref(), Some("<30>"));
    assert_eq!(backend.answer().clone().unwrap().1, "30 years");
}

#[test]
fn on_key_dispatches_by_key() {
    let ct = CustomType::<i64, _, _, _>::new("Number:");
    let mut prompt = CustomTypePrompt::from(ct);
    assert!(matches!(prompt.on_key(Key::Char('4')), inquire::Turn::Continue));
    assert!(matches!(prompt.on_key(Key::Cancel), inquire::Turn::Cancelled));
    assert_eq!(prompt.input.content(), "4");
    assert!(matches!(prompt.on_key(Key::Submit), inquire::Turn::Accepted(4)));
    prompt.on_key(Key::Char('z'));
    assert!(matches!(prompt.on_key(Key::Submit), inquire::Turn::Retry));
    assert_eq!(prompt.input.content(), "");
}
