use vstd::prelude::*;

verus! {

/// The error type of terminal operations, `std::io::Error`, carried through opaquely.
#[verifier::external_type_specification]
#[verifier::external_body]
pub struct ExIoError(std::io::Error);

/// The kind of an `std::io::Error`, carried through opaquely.
#[verifier::external_type_specification]
#[verifier::external_body]
pub struct ExIoErrorKind(std::io::ErrorKind);

/// One terminal operation, in the words of `TerminalOps`.
#[derive(Clone, Copy, Debug, PartialEq, Eq, Structural)]
pub enum TerminalStep {
    EnableRawMode,
    EnterAlternateScreen,
    HideCursor,
    ShowCursor,
    LeaveAlternateScreen,
    DisableRawMode,
}

/// The terminal resources that a guard holds.
pub struct Held {
    pub raw_mode: bool,
    pub alternate_screen: bool,
    pub cursor_hidden: bool,
}

impl Held {
    pub open spec fn none() -> Held {
        Held { raw_mode: false, alternate_screen: false, cursor_hidden: false }
    }

    pub open spec fn all() -> Held {
        Held { raw_mode: true, alternate_screen: true, cursor_hidden: true }
    }

    /// The resources held once `step` has succeeded.
    pub open spec fn after(self, step: TerminalStep) -> Held {
        match step {
            TerminalStep::EnableRawMode => Held { raw_mode: true, ..self },
            TerminalStep::EnterAlternateScreen => Held { alternate_screen: true, ..self },
            TerminalStep::HideCursor => Held { cursor_hidden: true, ..self },
            TerminalStep::ShowCursor => Held { cursor_hidden: false, ..self },
            TerminalStep::LeaveAlternateScreen => Held { alternate_screen: false, ..self },
            TerminalStep::DisableRawMode => Held { raw_mode: false, ..self },
        }
    }

    /// The resources held once every step of `steps` has succeeded, in order.
    pub open spec fn after_all(self, steps: Seq<TerminalStep>) -> Held
        decreases steps.len(),
    {
        if steps.len() == 0 {
            self
        } else {
            self.after(steps[0]).after_all(steps.drop_first())
        }
    }
}

/// The setup steps still to take from `held`: raw mode, then the alternate screen, then the
/// hidden cursor, each only where it is not held yet.
pub open spec fn missing_steps(held: Held) -> Seq<TerminalStep> {
    (if held.raw_mode { seq![] } else { seq![TerminalStep::EnableRawMode] })
        + (if held.alternate_screen { seq![] } else { seq![TerminalStep::EnterAlternateScreen] })
        + (if held.cursor_hidden { seq![] } else { seq![TerminalStep::HideCursor] })
}

/// The steps that give back what `held` holds, in reverse order of acquisition: cursor, alternate
/// screen, raw mode.
pub open spec fn release_steps(held: Held) -> Seq<TerminalStep> {
    (if held.cursor_hidden { seq![TerminalStep::ShowCursor] } else { seq![] })
        + (if held.alternate_screen { seq![TerminalStep::LeaveAlternateScreen] } else { seq![] })
        + (if held.raw_mode { seq![TerminalStep::DisableRawMode] } else { seq![] })
}

/// The steps that give back what `held` holds, in the order to take them (see `release_steps`).
pub fn release_order(held: &Held) -> (steps: Vec<TerminalStep>)
    ensures
        steps@ == release_steps(*held),
{
    let mut steps: Vec<TerminalStep> = Vec::new();
    if held.cursor_hidden {
        steps.push(TerminalStep::ShowCursor);
    }
    if held.alternate_screen {
        steps.push(TerminalStep::LeaveAlternateScreen);
    }
    if held.raw_mode {
        steps.push(TerminalStep::DisableRawMode);
    }
    proof {
        assert(steps@ =~= release_steps(*held));
    }
    steps
}

/// The step that undoes `step`.
pub open spec fn undo(step: TerminalStep) -> TerminalStep {
    match step {
        TerminalStep::EnableRawMode => TerminalStep::DisableRawMode,
        TerminalStep::EnterAlternateScreen => TerminalStep::LeaveAlternateScreen,
        TerminalStep::HideCursor => TerminalStep::ShowCursor,
        TerminalStep::ShowCursor => TerminalStep::HideCursor,
        TerminalStep::LeaveAlternateScreen => TerminalStep::EnterAlternateScreen,
        TerminalStep::DisableRawMode => TerminalStep::EnableRawMode,
    }
}

/// What a setup from `held` does: on success every missing step, in order; on failure the
/// missing steps up to and including the one that failed, holding those before it.
pub open spec fn setup_outcome(
    held: Held,
    succeeded: bool,
    steps_before: Seq<TerminalStep>,
    steps_after: Seq<TerminalStep>,
    held_after: Held,
) -> bool {
    if succeeded {
        &&& held_after == Held::all()
        &&& steps_after == steps_before + missing_steps(held)
    } else {
        exists|n: int|
            0 <= n < missing_steps(held).len() && steps_after == steps_before + missing_steps(
                held,
            ).take(n + 1) && held_after == held.after_all(#[trigger] missing_steps(held).take(n))
    }
}

/// Whether every operation in `outcomes` succeeded.
pub open spec fn all_succeeded(outcomes: Seq<bool>) -> bool {
    forall|i: int| 0 <= i < outcomes.len() ==> #[trigger] outcomes[i]
}

/// A sequence of outcomes with one more at its end succeeded throughout exactly where the
/// sequence did and the new one did.
pub proof fn lemma_all_succeeded_push(outcomes: Seq<bool>, last: bool)
    ensures
        all_succeeded(outcomes.push(last)) <==> (all_succeeded(outcomes) && last),
{
    if all_succeeded(outcomes.push(last)) {
        assert(outcomes.push(last)[outcomes.len() as int] == last);
        assert forall|i: int| 0 <= i < outcomes.len() implies #[trigger] outcomes[i] by {
            assert(outcomes.push(last)[i] == outcomes[i]);
        }
    }
    if all_succeeded(outcomes) && last {
        assert forall|i: int| 0 <= i < outcomes.push(last).len() implies #[trigger] outcomes.push(last)[i] by {
            if i < outcomes.len() {
                assert(outcomes[i]);
            }
        }
    }
}

/// The outcomes of a setup that took `count` operations: all succeeded but, where it `failed`,
/// the last.
pub open spec fn setup_outcomes(count: nat, failed: bool) -> Seq<bool> {
    Seq::new(count, |i: int| !(failed && i == count - 1))
}

/// The steps of a log of terminal operations.
pub open spec fn steps_of(log: Seq<(TerminalStep, bool)>) -> Seq<TerminalStep> {
    log.map_values(|entry: (TerminalStep, bool)| entry.0)
}

/// Whether each operation of a log succeeded.
pub open spec fn outcomes_of(log: Seq<(TerminalStep, bool)>) -> Seq<bool> {
    log.map_values(|entry: (TerminalStep, bool)| entry.1)
}

/// `after` is `before` with more operations at its end.
pub open spec fn extends(before: Seq<(TerminalStep, bool)>, after: Seq<(TerminalStep, bool)>) -> bool {
    &&& before.len() <= after.len()
    &&& after.take(before.len() as int) == before
}

/// Whether each operation that `after` adds to `before` succeeded.
pub open spec fn appended_outcomes(before: Seq<(TerminalStep, bool)>, after: Seq<(TerminalStep, bool)>) -> Seq<bool> {
    outcomes_of(after.skip(before.len() as int))
}

/// One more operation at the end of a log that extends `start`.
pub proof fn lemma_log_push(
    start: Seq<(TerminalStep, bool)>,
    log: Seq<(TerminalStep, bool)>,
    entry: (TerminalStep, bool),
)
    requires
        extends(start, log),
    ensures
        extends(start, log.push(entry)),
        steps_of(log.push(entry)) == steps_of(log).push(entry.0),
        appended_outcomes(start, log.push(entry)) == appended_outcomes(start, log).push(entry.1),
{
    assert(log.push(entry).take(start.len() as int) =~= log.take(start.len() as int));
    assert(steps_of(log.push(entry)) =~= steps_of(log).push(entry.0));
    assert(log.push(entry).skip(start.len() as int) =~= log.skip(start.len() as int).push(entry));
    assert(appended_outcomes(start, log.push(entry)) =~= appended_outcomes(start, log).push(entry.1));
}

/// A log extends itself, adding nothing.
pub proof fn lemma_extends_refl(a: Seq<(TerminalStep, bool)>)
    ensures
        extends(a, a),
        appended_outcomes(a, a) == Seq::<bool>::empty(),
{
    assert(a.take(a.len() as int) =~= a);
    assert(appended_outcomes(a, a) =~= Seq::<bool>::empty());
}

/// A log that extends one that extends `a` extends `a`; what the
/// longer adds to `a` begins with what the middle one added.
pub proof fn lemma_extends_chain(
    a: Seq<(TerminalStep, bool)>,
    b: Seq<(TerminalStep, bool)>,
    c: Seq<(TerminalStep, bool)>,
)
    requires
        extends(a, b),
        extends(b, c),
    ensures
        extends(a, a),
        extends(a, c),
        appended_outcomes(a, c).take(b.len() - a.len()) == appended_outcomes(a, b),
{
    assert(a.take(a.len() as int) =~= a);
    assert(c.take(a.len() as int) =~= b.take(a.len() as int));
    let n = b.len() - a.len();
    assert(c.skip(a.len() as int).take(n) =~= b.skip(a.len() as int)) by {
        assert forall|i: int| 0 <= i < n implies #[trigger] c.skip(a.len() as int)[i] == b.skip(
            a.len() as int,
        )[i] by {
            assert(c.take(b.len() as int)[a.len() + i] == c[a.len() + i]);
        }
    }
    assert(appended_outcomes(a, c).take(n) =~= outcomes_of(c.skip(a.len() as int).take(n)));
}

/// A setup from nothing, on a log that was `before`, that failed at its `k`-th step: the log is
/// now `after`, which holds the steps up to and including that one, all but the last succeeding,
/// and then exactly what the steps before it acquired given back, in reverse order.
pub open spec fn acquire_failed_from(k: int, before: Seq<(TerminalStep, bool)>, after: Seq<(TerminalStep, bool)>) -> bool {
    &&& 0 <= k < missing_steps(Held::none()).len()
    &&& extends(before, after)
    &&& steps_of(after) == steps_of(before) + missing_steps(Held::none()).take(k + 1) + release_steps(
        Held::none().after_all(missing_steps(Held::none()).take(k)),
    )
    &&& appended_outcomes(before, after).take(k + 1) == setup_outcomes((k + 1) as nat, true)
}

/// The operations that put a terminal into the state the application draws in, and take it
/// back out. Each method's contract says what it adds to `log`, the record of the operations
/// performed through the value; an implementation that does not define `log` keeps the default,
/// which nothing here assumes of an implementation it does not know.
pub trait TerminalOps {
    /// The operations performed through this value so far, in order, each with whether it
    /// succeeded.
    closed spec fn log(&self) -> Seq<(TerminalStep, bool)> {
        Seq::empty()
    }

    /// Puts the terminal into raw mode.
    fn enable_raw_mode(&mut self) -> (result: std::io::Result<()>)
        ensures
            final(self).log() == old(self).log().push((TerminalStep::EnableRawMode, result is Ok));

    /// Switches to the alternate screen.
    fn enter_alternate_screen(&mut self) -> (result: std::io::Result<()>)
        ensures
            final(self).log() == old(self).log().push((TerminalStep::EnterAlternateScreen, result is Ok));

    /// Hides the cursor.
    fn hide_cursor(&mut self) -> (result: std::io::Result<()>)
        ensures
            final(self).log() == old(self).log().push((TerminalStep::HideCursor, result is Ok));

    /// Shows the cursor.
    fn show_cursor(&mut self) -> (result: std::io::Result<()>)
        ensures
            final(self).log() == old(self).log().push((TerminalStep::ShowCursor, result is Ok));

    /// Leaves the alternate screen.
    fn leave_alternate_screen(&mut self) -> (result: std::io::Result<()>)
        ensures
            final(self).log() == old(self).log().push((TerminalStep::LeaveAlternateScreen, result is Ok));

    /// Takes the terminal out of raw mode.
    fn disable_raw_mode(&mut self) -> (result: std::io::Result<()>)
        ensures
            final(self).log() == old(self).log().push((TerminalStep::DisableRawMode, result is Ok));
}

/// A terminal session that can be left for a while (to run an external program) and entered
/// again.
pub trait TerminalSuspend {
    /// The suspensions (`true`) and resumptions (`false`) asked of this value so far, in order,
    /// each with whether it succeeded.
    closed spec fn switches(&self) -> Seq<(bool, bool)> {
        Seq::empty()
    }

    /// Gives the terminal up for a while.
    fn suspend(&mut self) -> (result: std::io::Result<()>)
        ensures
            final(self).switches() == old(self).switches().push((true, result is Ok));

    /// Takes the terminal again.
    fn resume(&mut self) -> (result: std::io::Result<()>)
        ensures
            final(self).switches() == old(self).switches().push((false, result is Ok));
}

/// `std::io::Error::other`: an error of kind `Other` that displays `message`. What the error
/// displays is not stated: `std::io::Error` is opaque here.
#[verifier::external_body]
fn other_error(message: String) -> std::io::Error {
    std::io::Error::other(message)
}

/// `std::io::Error::kind`. Which kind it is is not stated: both types are opaque here.
#[verifier::external_body]
fn error_kind(error: &std::io::Error) -> std::io::ErrorKind {
    error.kind()
}

/// `std::io::Error::new`: an error of `kind` that displays `message`. What the error displays is
/// not stated: `std::io::Error` is opaque here.
#[verifier::external_body]
fn error_of_kind(kind: std::io::ErrorKind, message: String) -> std::io::Error {
    std::io::Error::new(kind, message)
}

/// The message that a failure in `context` with `primary` (and, where a second operation failed
/// too, `secondary`) carries: `"{context}: {primary}"` or `"{context}: {primary}; {secondary}"`.
pub open spec fn context_message(
    context: Seq<char>,
    primary: Seq<char>,
    secondary: Option<Seq<char>>,
) -> Seq<char> {
    match secondary {
        None => context + ": "@ + primary,
        Some(second) => context + ": "@ + primary + "; "@ + second,
    }
}

/// See `context_message`.
pub fn context_message_text(context: &str, primary: &str, secondary: Option<&str>) -> (message:
    String)
    ensures
        message@ == context_message(
            context@,
            primary@,
            match secondary {
                Some(second) => Some(second@),
                None => None,
            },
        ),
{
    let mut message = String::new();
    crate::text::push_text(&mut message, context);
    crate::text::push_text(&mut message, ": ");
    crate::text::push_text(&mut message, primary);
    match secondary {
        Some(second) => {
            crate::text::push_text(&mut message, "; ");
            crate::text::push_text(&mut message, second);
        },
        None => {},
    }
    message
}

/// An error that adds `context` to `primary`, keeping its kind, or, where cleanup failed too
/// (`secondary`), an error of kind `Other` that names both.
fn combine_errors(context: &str, primary: std::io::Error, secondary: Option<std::io::Error>) -> std::io::Error {
    let primary_text = primary.to_string();
    match secondary {
        Some(second) => {
            let second_text = second.to_string();
            other_error(
                context_message_text(context, primary_text.as_str(), Some(second_text.as_str())),
            )
        },
        None => error_of_kind(
            error_kind(&primary),
            context_message_text(context, primary_text.as_str(), None),
        ),
    }
}

/// Holds a terminal in raw mode, on the alternate screen, with the cursor hidden, and gives each
/// back exactly once, in reverse order.
pub struct TerminalGuard<O: TerminalOps> {
    ops: O,
    raw_mode: bool,
    alternate_screen: bool,
    cursor_hidden: bool,
    restored: bool,
    switches: Ghost<Seq<(bool, bool)>>,
}

impl<O: TerminalOps> TerminalGuard<O> {
    /// The log of the operations performed on the terminal this guard holds.
    pub closed spec fn ops_log(&self) -> Seq<(TerminalStep, bool)> {
        self.ops.log()
    }

    /// The operations performed on the terminal this guard holds, in order.
    pub open spec fn steps(&self) -> Seq<TerminalStep> {
        steps_of(self.ops_log())
    }

    /// The resources this guard holds.
    pub closed spec fn held(&self) -> Held {
        Held {
            raw_mode: self.raw_mode,
            alternate_screen: self.alternate_screen,
            cursor_hidden: self.cursor_hidden,
        }
    }

    /// Whether the session has been restored for good.
    pub closed spec fn is_restored(&self) -> bool {
        self.restored
    }

    /// Sets the terminal up through `ops`: raw mode, the alternate screen, the hidden cursor. On
    /// failure it gives back what it had acquired, in reverse order, and reports the setup error
    /// together with any cleanup error; `ops` is then gone, and some value of its type holds the
    /// log that `acquire_failed_from` describes.
    pub fn acquire(ops: O) -> (guard: std::io::Result<Self>)
        ensures
            match guard {
                Ok(guard) => {
                    &&& extends(ops.log(), guard.ops_log())
                    &&& guard.steps() == steps_of(ops.log()) + seq![
                        TerminalStep::EnableRawMode,
                        TerminalStep::EnterAlternateScreen,
                        TerminalStep::HideCursor,
                    ]
                    &&& appended_outcomes(ops.log(), guard.ops_log()) == setup_outcomes(3, false)
                    &&& guard.held() == Held::all()
                    &&& !guard.is_restored()
                },
                Err(_) => exists|after: O, k: int| #[trigger] acquire_failed_from(k, ops.log(), after.log()),
            },
    {
        let ghost start_log = ops.log();
        let mut guard = TerminalGuard {
            ops,
            raw_mode: false,
            alternate_screen: false,
            cursor_hidden: false,
            restored: false,
            switches: Ghost(Seq::empty()),
        };
        proof {
            assert(missing_steps(Held::none()) =~= seq![
                TerminalStep::EnableRawMode,
                TerminalStep::EnterAlternateScreen,
                TerminalStep::HideCursor,
            ]);
        }
        match guard.setup() {
            Ok(()) => {
                proof {
                    assert(guard.steps() == steps_of(start_log) + missing_steps(Held::none()));
                    assert(guard.steps().len() - steps_of(start_log).len() == 3);
                }
                Ok(guard)
            },
            Err(setup_error) => {
                let ghost setup_log = guard.ops.log();
                let ghost k = choose|n: int|
                    0 <= n < missing_steps(Held::none()).len() && steps_of(setup_log) == steps_of(start_log)
                        + missing_steps(Held::none()).take(n + 1) && guard.held() == Held::none().after_all(
                        #[trigger] missing_steps(Held::none()).take(n),
                    );
                let cleanup_error = match guard.restore() {
                    Ok(()) => None,
                    Err(error) => Some(error),
                };
                proof {
                    let after = guard.ops;
                    lemma_extends_chain(start_log, setup_log, after.log());
                    assert(setup_log.len() - start_log.len() == k + 1) by {
                        assert(steps_of(setup_log).len() == setup_log.len());
                        assert(steps_of(start_log).len() == start_log.len());
                    }
                    assert(steps_of(after.log()) =~= steps_of(start_log) + missing_steps(Held::none()).take(k + 1)
                        + release_steps(Held::none().after_all(missing_steps(Held::none()).take(k))));
                    assert(acquire_failed_from(k, start_log, after.log()));
                }
                Err(combine_errors("terminal setup failed", setup_error, cleanup_error))
            },
        }
    }

    /// Takes each missing setup step in order, stopping at the first failure.
    fn setup(&mut self) -> (result: std::io::Result<()>)
        ensures
            final(self).switches@ == old(self).switches@,
            final(self).is_restored() == old(self).is_restored(),
            extends(old(self).ops_log(), final(self).ops_log()),
            appended_outcomes(old(self).ops_log(), final(self).ops_log()) == setup_outcomes(
                (final(self).steps().len() - old(self).steps().len()) as nat,
                result is Err,
            ),
            setup_outcome(
                old(self).held(),
                result is Ok,
                old(self).steps(),
                final(self).steps(),
                final(self).held(),
            ),
    {
        let ghost start = self.held();
        let ghost start_log = self.ops.log();
        let ghost before = self.steps();
        let ghost missing = missing_steps(start);
        let ghost mut k: int = 0;
        proof {
            lemma_extends_refl(start_log);
            assert(start_log.take(start_log.len() as int) =~= start_log);
            assert(appended_outcomes(start_log, start_log) =~= setup_outcomes(0, false));
            assert(missing.take(0) =~= seq![]);
            assert(before + missing.take(0) =~= before);
        }
        if !self.raw_mode {
            let ghost log_before = self.ops.log();
            let step_result = self.ops.enable_raw_mode();
            proof {
                lemma_log_push(start_log, log_before, (TerminalStep::EnableRawMode, step_result is Ok));
                assert(missing[k] == TerminalStep::EnableRawMode);
                lemma_take_step(missing, k);
                assert(self.steps() =~= before + missing.take(k + 1));
            }
            match step_result {
                Ok(()) => {},
                Err(error) => {
                    proof {
                        assert(setup_failed_at(start, before, self.steps(), self.held(), k));
                        assert(appended_outcomes(start_log, self.ops.log()) =~= setup_outcomes((k + 1) as nat, true));
                    }
                    return Err(error);
                },
            }
            self.raw_mode = true;
            proof {
                assert(appended_outcomes(start_log, self.ops.log()) =~= setup_outcomes((k + 1) as nat, false));
                lemma_after_all_step(start, missing.take(k), missing[k]);
                k = k + 1;
            }
        }
        if !self.alternate_screen {
            let ghost log_before = self.ops.log();
            let step_result = self.ops.enter_alternate_screen();
            proof {
                lemma_log_push(start_log, log_before, (TerminalStep::EnterAlternateScreen, step_result is Ok));
                assert(missing[k] == TerminalStep::EnterAlternateScreen);
                lemma_take_step(missing, k);
                assert(self.steps() =~= before + missing.take(k + 1));
            }
            match step_result {
                Ok(()) => {},
                Err(error) => {
                    proof {
                        assert(setup_failed_at(start, before, self.steps(), self.held(), k));
                        assert(appended_outcomes(start_log, self.ops.log()) =~= setup_outcomes((k + 1) as nat, true));
                    }
                    return Err(error);
                },
            }
            self.alternate_screen = true;
            proof {
                assert(appended_outcomes(start_log, self.ops.log()) =~= setup_outcomes((k + 1) as nat, false));
                lemma_after_all_step(start, missing.take(k), missing[k]);
                k = k + 1;
            }
        }
        if !self.cursor_hidden {
            let ghost log_before = self.ops.log();
            let step_result = self.ops.hide_cursor();
            proof {
                lemma_log_push(start_log, log_before, (TerminalStep::HideCursor, step_result is Ok));
                assert(missing[k] == TerminalStep::HideCursor);
                lemma_take_step(missing, k);
                assert(self.steps() =~= before + missing.take(k + 1));
            }
            match step_result {
                Ok(()) => {},
                Err(error) => {
                    proof {
                        assert(setup_failed_at(start, before, self.steps(), self.held(), k));
                        assert(appended_outcomes(start_log, self.ops.log()) =~= setup_outcomes((k + 1) as nat, true));
                    }
                    return Err(error);
                },
            }
            self.cursor_hidden = true;
            proof {
                assert(appended_outcomes(start_log, self.ops.log()) =~= setup_outcomes((k + 1) as nat, false));
                lemma_after_all_step(start, missing.take(k), missing[k]);
                k = k + 1;
            }
        }
        proof {
            assert(k == missing.len());
            assert(missing.take(k) =~= missing);
        }
        Ok(())
    }

    /// Gives back the terminal for good; later calls do nothing.
    pub fn restore(&mut self) -> (result: std::io::Result<()>)
        ensures
            final(self).is_restored(),
            old(self).is_restored() ==> {
                &&& result is Ok
                &&& final(self).ops_log() == old(self).ops_log()
                &&& final(self).held() == old(self).held()
            },
            !old(self).is_restored() ==> {
                &&& extends(old(self).ops_log(), final(self).ops_log())
                &&& final(self).steps() == old(self).steps() + release_steps(old(self).held())
                &&& final(self).held() == Held::none()
                &&& (result is Ok <==> all_succeeded(appended_outcomes(old(self).ops_log(), final(self).ops_log())))
            },
    {
        if self.restored {
            return Ok(());
        }
        let result = self.release("terminal restoration failed");
        self.restored = true;
        result
    }

    /// Gives back each held resource in reverse order of acquisition, going on past a failure,
    /// and reports every failure in one error.
    fn release(&mut self, context: &str) -> (result: std::io::Result<()>)
        ensures
            final(self).switches@ == old(self).switches@,
            final(self).is_restored() == old(self).is_restored(),
            extends(old(self).ops_log(), final(self).ops_log()),
            final(self).steps() == old(self).steps() + release_steps(old(self).held()),
            final(self).held() == Held::none(),
            result is Ok <==> all_succeeded(appended_outcomes(old(self).ops_log(), final(self).ops_log())),
    {
        let ghost start = self.held();
        let ghost start_log = self.ops.log();
        let ghost before = self.steps();
        let ghost mut expected: Seq<TerminalStep> = Seq::empty();
        let mut failures: Vec<String> = Vec::new();
        proof {
            lemma_extends_refl(start_log);
            assert(appended_outcomes(start_log, start_log) =~= Seq::<bool>::empty());
            assert(failures@.len() == 0 <==> all_succeeded(appended_outcomes(start_log, self.ops.log())));
            assert(self.steps() =~= before + expected);
        }
        if self.cursor_hidden {
            let ghost log_before = self.ops.log();
            let step_result = self.ops.show_cursor();
            proof {
                lemma_log_push(start_log, log_before, (TerminalStep::ShowCursor, step_result is Ok));
                lemma_all_succeeded_push(appended_outcomes(start_log, log_before), step_result is Ok);
                expected = expected.push(TerminalStep::ShowCursor);
            }
            match step_result {
                Ok(()) => {},
                Err(error) => failures.push(error.to_string()),
            }
            proof {
                assert(failures@.len() == 0 <==> all_succeeded(appended_outcomes(start_log, self.ops.log())));
                assert(self.steps() =~= before + expected);
            }
            self.cursor_hidden = false;
        }
        if self.alternate_screen {
            let ghost log_before = self.ops.log();
            let step_result = self.ops.leave_alternate_screen();
            proof {
                lemma_log_push(start_log, log_before, (TerminalStep::LeaveAlternateScreen, step_result is Ok));
                lemma_all_succeeded_push(appended_outcomes(start_log, log_before), step_result is Ok);
                expected = expected.push(TerminalStep::LeaveAlternateScreen);
            }
            match step_result {
                Ok(()) => {},
                Err(error) => failures.push(error.to_string()),
            }
            proof {
                assert(failures@.len() == 0 <==> all_succeeded(appended_outcomes(start_log, self.ops.log())));
                assert(self.steps() =~= before + expected);
            }
            self.alternate_screen = false;
        }
        if self.raw_mode {
            let ghost log_before = self.ops.log();
            let step_result = self.ops.disable_raw_mode();
            proof {
                lemma_log_push(start_log, log_before, (TerminalStep::DisableRawMode, step_result is Ok));
                lemma_all_succeeded_push(appended_outcomes(start_log, log_before), step_result is Ok);
                expected = expected.push(TerminalStep::DisableRawMode);
            }
            match step_result {
                Ok(()) => {},
                Err(error) => failures.push(error.to_string()),
            }
            proof {
                assert(failures@.len() == 0 <==> all_succeeded(appended_outcomes(start_log, self.ops.log())));
                assert(self.steps() =~= before + expected);
            }
            self.raw_mode = false;
        }
        proof {
            assert(expected =~= release_steps(start));
        }
        if failures.len() == 0 {
            Ok(())
        } else {
            let message = crate::text::join_texts(&failures, "; ");
            Err(other_error(context_message_text(context, message.as_str(), None)))
        }
    }
}

impl<O: TerminalOps> TerminalSuspend for TerminalGuard<O> {
    /// The suspensions and resumptions asked of this guard.
    closed spec fn switches(&self) -> Seq<(bool, bool)> {
        self.switches@
    }

    /// Gives the terminal back for a while; refused once the session is restored.
    fn suspend(&mut self) -> (result: std::io::Result<()>)
        ensures
            final(self).is_restored() == old(self).is_restored(),
            old(self).is_restored() ==> {
                &&& result is Err
                &&& final(self).ops_log() == old(self).ops_log()
                &&& final(self).held() == old(self).held()
            },
            !old(self).is_restored() ==> {
                &&& extends(old(self).ops_log(), final(self).ops_log())
                &&& final(self).steps() == old(self).steps() + release_steps(old(self).held())
                &&& final(self).held() == Held::none()
                &&& (result is Ok <==> all_succeeded(appended_outcomes(old(self).ops_log(), final(self).ops_log())))
            },
    {
        if self.restored {
            proof {
                self.switches@ = self.switches@.push((true, false));
            }
            return Err(other_error(String::from_str("terminal session is already restored")));
        }
        let result = self.release("terminal suspension failed");
        proof {
            self.switches@ = self.switches@.push((true, result is Ok));
        }
        result
    }

    /// Takes the terminal again after a suspension; refused once the session is restored.
    fn resume(&mut self) -> (result: std::io::Result<()>)
        ensures
            final(self).is_restored() == old(self).is_restored(),
            old(self).is_restored() ==> {
                &&& result is Err
                &&& final(self).ops_log() == old(self).ops_log()
                &&& final(self).held() == old(self).held()
            },
            !old(self).is_restored() ==> {
                &&& extends(old(self).ops_log(), final(self).ops_log())
                &&& setup_outcome(
                    old(self).held(),
                    result is Ok,
                    old(self).steps(),
                    final(self).steps(),
                    final(self).held(),
                )
                &&& appended_outcomes(old(self).ops_log(), final(self).ops_log()) == setup_outcomes(
                    (final(self).steps().len() - old(self).steps().len()) as nat,
                    result is Err,
                )
            },
    {
        if self.restored {
            proof {
                self.switches@ = self.switches@.push((false, false));
            }
            return Err(other_error(String::from_str("terminal session is already restored")));
        }
        let result = self.setup();
        proof {
            self.switches@ = self.switches@.push((false, result is Ok));
        }
        result
    }
}

/// What a session reports from what the application returned and what restoring the terminal
/// returned (see `session_result`).
pub fn session_outcome<T>(
    run_result: std::io::Result<T>,
    restore_result: std::io::Result<()>,
) -> (outcome: std::io::Result<T>)
    ensures
        session_result(run_result, restore_result, outcome),
{
    match (run_result, restore_result) {
        (Ok(value), Ok(())) => Ok(value),
        (Err(error), Ok(())) => Err(error),
        (Ok(_), Err(error)) => Err(error),
        (Err(run_error), Err(restore_error)) => {
            let run_text = run_error.to_string();
            let restore_text = restore_error.to_string();
            Err(other_error(context_message_text("application failed", run_text.as_str(), Some(restore_text.as_str()))))
        },
    }
}

/// What a session reports: the application's value when it and the restore succeeded,
/// otherwise the one error that came, and where both failed an error that names both.
pub open spec fn session_result<T>(
    run_result: std::io::Result<T>,
    restore_result: std::io::Result<()>,
    outcome: std::io::Result<T>,
) -> bool {
    match (run_result, restore_result) {
        (Ok(value), Ok(())) => outcome == Ok::<T, std::io::Error>(value),
        (Err(error), Ok(())) => outcome == Err::<T, std::io::Error>(error),
        (Ok(_), Err(error)) => outcome == Err::<T, std::io::Error>(error),
        (Err(_), Err(_)) => outcome is Err,
    }
}

/// What a terminal session did, as values: the terminal's log after the setup (after its
/// cleanup too, where it failed) and the step at which it failed; what the application returned,
/// where it ran; the log, what the guard held and whether it was restored when the application
/// returned; and the log and the result of the final restore.
pub struct SessionRecord<T> {
    pub setup_log: Seq<(TerminalStep, bool)>,
    pub failed_at: int,
    pub ran: Option<std::io::Result<T>>,
    pub log_before_restore: Seq<(TerminalStep, bool)>,
    pub held_before_restore: Held,
    pub restored_before: bool,
    pub final_log: Seq<(TerminalStep, bool)>,
    pub restore_result: std::io::Result<()>,
}

/// How a session on a terminal whose log was `before` went: where the setup failed, the
/// application did not run, the setup gave back what it had taken and the session failed;
/// otherwise the whole setup succeeded, the application ran once, the final restore gave back,
/// in reverse order, whatever the guard still held (nothing where it was restored already),
/// succeeding exactly when every one of those operations did, and the outcome is
/// `session_result` of what the application and the restore returned.
pub open spec fn session_went<T>(before: Seq<(TerminalStep, bool)>, record: SessionRecord<T>, outcome: std::io::Result<T>) -> bool {
    match record.ran {
        None => {
            &&& outcome is Err
            &&& acquire_failed_from(record.failed_at, before, record.setup_log)
        },
        Some(run_result) => {
            &&& extends(before, record.setup_log)
            &&& steps_of(record.setup_log) == steps_of(before) + missing_steps(Held::none())
            &&& appended_outcomes(before, record.setup_log) == setup_outcomes(3, false)
            &&& extends(record.log_before_restore, record.final_log)
            &&& if record.restored_before {
                &&& record.final_log == record.log_before_restore
                &&& record.restore_result is Ok
            } else {
                &&& steps_of(record.final_log) == steps_of(record.log_before_restore) + release_steps(
                    record.held_before_restore,
                )
                &&& (record.restore_result is Ok <==> all_succeeded(
                    appended_outcomes(record.log_before_restore, record.final_log),
                ))
            }
            &&& session_result(run_result, record.restore_result, outcome)
        },
    }
}

/// Runs `run` inside a terminal session on `ops`: sets the terminal up, hands `run` the session,
/// and restores the terminal whatever `run` returned. `ops` is gone afterwards; the session's
/// record (`session_went`) is stated to exist.
pub fn with_terminal_session<O, F, T>(ops: O, run: F) -> (outcome: std::io::Result<T>)
    where
        O: TerminalOps,
        F: FnOnce(&mut TerminalGuard<O>) -> std::io::Result<T>,
    requires
        forall|guard: &mut TerminalGuard<O>| #[trigger] call_requires(run, (guard,)),
    ensures
        outcome matches Ok(value) ==> exists|guard: &mut TerminalGuard<O>|
            #[trigger] call_ensures(run, (guard,), Ok::<T, std::io::Error>(value)),
        exists|record: SessionRecord<T>| {
            &&& #[trigger] session_went(ops.log(), record, outcome)
            &&& (record.ran matches Some(run_result) ==> exists|guard: &mut TerminalGuard<O>|
                #[trigger] call_ensures(run, (guard,), run_result))
        },
{
    let ghost before = ops.log();
    let mut guard = match TerminalGuard::acquire(ops) {
        Ok(guard) => guard,
        Err(error) => {
            proof {
                let (after, k) = choose|after: O, k: int| acquire_failed_from(k, before, after.log());
                let record = SessionRecord::<T> {
                    setup_log: after.log(),
                    failed_at: k,
                    ran: None,
                    log_before_restore: Seq::empty(),
                    held_before_restore: Held::none(),
                    restored_before: false,
                    final_log: Seq::empty(),
                    restore_result: Ok(()),
                };
                assert(session_went(before, record, Err::<T, std::io::Error>(error)));
            }
            return Err(error);
        },
    };
    let ghost setup_log = guard.ops_log();
    let run_result = run(&mut guard);
    let ghost ran = run_result;
    let ghost log_before_restore = guard.ops_log();
    let ghost held_before_restore = guard.held();
    let ghost restored_before = guard.is_restored();
    let restore_result = guard.restore();
    let ghost restore_copy = restore_result;
    let ghost final_log = guard.ops_log();
    let outcome = session_outcome(run_result, restore_result);
    proof {
        assert(missing_steps(Held::none()) =~= seq![
            TerminalStep::EnableRawMode,
            TerminalStep::EnterAlternateScreen,
            TerminalStep::HideCursor,
        ]);
        if restored_before {
            lemma_extends_refl(log_before_restore);
        }
        let record = SessionRecord::<T> {
            setup_log,
            failed_at: 0,
            ran: Some(ran),
            log_before_restore,
            held_before_restore,
            restored_before,
            final_log,
            restore_result: restore_copy,
        };
        assert(session_went(before, record, outcome));
    }
    outcome
}

/// Runs `run` inside a terminal session on `ops` that it does not need to see. Where the setup
/// succeeded, the terminal's operations are then the setup's three and the restore's three:
/// showing the cursor, leaving the alternate screen and leaving raw mode, in that order.
pub fn with_terminal<O, F, T>(ops: O, run: F) -> (outcome: std::io::Result<T>)
    where
        O: TerminalOps,
        F: FnOnce() -> std::io::Result<T>,
    requires
        call_requires(run, ()),
    ensures
        outcome matches Ok(value) ==> call_ensures(run, (), Ok::<T, std::io::Error>(value)),
        exists|record: SessionRecord<T>| {
            &&& #[trigger] session_went(ops.log(), record, outcome)
            &&& (record.ran matches Some(run_result) ==> {
                &&& call_ensures(run, (), run_result)
                &&& record.log_before_restore == record.setup_log
                &&& !record.restored_before
                &&& record.held_before_restore == Held::all()
                &&& steps_of(record.final_log) == steps_of(ops.log()) + seq![
                    TerminalStep::EnableRawMode,
                    TerminalStep::EnterAlternateScreen,
                    TerminalStep::HideCursor,
                    TerminalStep::ShowCursor,
                    TerminalStep::LeaveAlternateScreen,
                    TerminalStep::DisableRawMode,
                ]
            })
        },
{
    let ghost before = ops.log();
    let mut guard = match TerminalGuard::acquire(ops) {
        Ok(guard) => guard,
        Err(error) => {
            proof {
                let (after, k) = choose|after: O, k: int| acquire_failed_from(k, before, after.log());
                let record = SessionRecord::<T> {
                    setup_log: after.log(),
                    failed_at: k,
                    ran: None,
                    log_before_restore: Seq::empty(),
                    held_before_restore: Held::none(),
                    restored_before: false,
                    final_log: Seq::empty(),
                    restore_result: Ok(()),
                };
                assert(session_went(before, record, Err::<T, std::io::Error>(error)));
            }
            return Err(error);
        },
    };
    let ghost setup_log = guard.ops_log();
    let run_result = run();
    let ghost ran = run_result;
    let ghost held_before_restore = guard.held();
    let restore_result = guard.restore();
    let ghost restore_copy = restore_result;
    let ghost final_log = guard.ops_log();
    let outcome = session_outcome(run_result, restore_result);
    proof {
        assert(missing_steps(Held::none()) =~= seq![
            TerminalStep::EnableRawMode,
            TerminalStep::EnterAlternateScreen,
            TerminalStep::HideCursor,
        ]);
        assert(release_steps(Held::all()) =~= seq![
            TerminalStep::ShowCursor,
            TerminalStep::LeaveAlternateScreen,
            TerminalStep::DisableRawMode,
        ]);
        let record = SessionRecord::<T> {
            setup_log,
            failed_at: 0,
            ran: Some(ran),
            log_before_restore: setup_log,
            held_before_restore,
            restored_before: false,
            final_log,
            restore_result: restore_copy,
        };
        assert(steps_of(final_log) =~= steps_of(before) + seq![
            TerminalStep::EnableRawMode,
            TerminalStep::EnterAlternateScreen,
            TerminalStep::HideCursor,
            TerminalStep::ShowCursor,
            TerminalStep::LeaveAlternateScreen,
            TerminalStep::DisableRawMode,
        ]);
        assert(session_went(before, record, outcome));
    }
    outcome
}

/// A setup from `start` that failed at the `k`-th missing step.
pub open spec fn setup_failed_at(
    start: Held,
    before: Seq<TerminalStep>,
    after: Seq<TerminalStep>,
    held: Held,
    k: int,
) -> bool {
    &&& 0 <= k < missing_steps(start).len()
    &&& after == before + missing_steps(start).take(k + 1)
    &&& held == start.after_all(missing_steps(start).take(k))
}

proof fn lemma_take_step(steps: Seq<TerminalStep>, k: int)
    requires
        0 <= k < steps.len(),
    ensures
        steps.take(k + 1) == steps.take(k).push(steps[k]),
{
    assert(steps.take(k + 1) =~= steps.take(k).push(steps[k]));
}

/// Taking one more step after `steps` holds what `steps` held, changed by that step.
pub proof fn lemma_after_all_step(held: Held, steps: Seq<TerminalStep>, step: TerminalStep)
    ensures
        held.after_all(steps.push(step)) == held.after_all(steps).after(step),
    decreases steps.len(),
{
    if steps.len() == 0 {
        assert(steps.push(step).drop_first() =~= Seq::<TerminalStep>::empty());
        assert(held.after(step).after_all(Seq::<TerminalStep>::empty()) == held.after(step));
    } else {
        assert(steps.push(step)[0] == steps[0]);
        assert(steps.push(step).drop_first() =~= steps.drop_first().push(step));
        lemma_after_all_step(held.after(steps[0]), steps.drop_first(), step);
    }
}

/// Giving back what a setup from nothing acquired, whether it took every step or failed part way,
/// undoes exactly the steps that succeeded, in reverse order: nothing that was not acquired is
/// released, and nothing acquired is left held.
pub proof fn law_release_undoes_acquired_in_reverse(acquired: int)
    requires
        0 <= acquired <= missing_steps(Held::none()).len(),
    ensures
        ({
            let done = missing_steps(Held::none()).take(acquired);
            release_steps(Held::none().after_all(done)) == done.reverse().map_values(
                |step: TerminalStep| undo(step),
            )
        }),
{
    let full = missing_steps(Held::none());
    assert(full =~= seq![
        TerminalStep::EnableRawMode,
        TerminalStep::EnterAlternateScreen,
        TerminalStep::HideCursor,
    ]);
    let done = full.take(acquired);
    reveal_with_fuel(Held::after_all, 4);
    if acquired == 0 {
        assert(done =~= seq![]);
    } else if acquired == 1 {
        assert(done =~= seq![TerminalStep::EnableRawMode]);
        assert(done.drop_first() =~= seq![]);
    } else if acquired == 2 {
        assert(done =~= seq![TerminalStep::EnableRawMode, TerminalStep::EnterAlternateScreen]);
        assert(done.drop_first() =~= seq![TerminalStep::EnterAlternateScreen]);
        assert(done.drop_first().drop_first() =~= seq![]);
    } else {
        assert(done =~= full);
        assert(done.drop_first() =~= seq![TerminalStep::EnterAlternateScreen, TerminalStep::HideCursor]);
        assert(done.drop_first().drop_first() =~= seq![TerminalStep::HideCursor]);
        assert(done.drop_first().drop_first().drop_first() =~= seq![]);
    }
    assert(release_steps(Held::none().after_all(done)) =~= done.reverse().map_values(
        |step: TerminalStep| undo(step),
    ));
}

} // verus!
