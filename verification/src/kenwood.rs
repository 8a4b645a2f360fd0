//! The command vocabulary of the transceiver: ASCII commands, each a name, a
//! value field and the terminator `;`.

use vstd::prelude::*;
use vstd::string::*;
use vstd::utf8::*;
use crate::error::SerialError;
use crate::frame::DELIMITER;
use crate::text::{push_char, text_eq};

verus! {

/// The text that `str::to_uppercase` returns for `text`: its upper-case form
/// by the rules of Unicode, which no few lines can state.
pub uninterp spec fn uppercase(text: Seq<char>) -> Seq<char>;

/// The upper-case form of `text`, by `str::to_uppercase`. The contract only
/// names the result, as a function of the text alone; nothing more is claimed
/// of it.
#[verifier::external_body]
pub(crate) fn to_uppercase(text: &str) -> (upper: String)
    ensures
        upper@ == uppercase(text@),
{
    text.to_uppercase()
}

/// `c` with an ASCII lower-case letter made upper case.
pub open spec fn ascii_upper_char(c: char) -> char {
    if 'a' <= c <= 'z' {
        (c as int - 'a' as int + 'A' as int) as char
    } else {
        c
    }
}

/// `c` with an ASCII upper-case letter made lower case.
pub open spec fn ascii_lower_char(c: char) -> char {
    if 'A' <= c <= 'Z' {
        (c as int - 'A' as int + 'a' as int) as char
    } else {
        c
    }
}

/// `text` with its ASCII lower-case letters made upper case.
pub open spec fn ascii_upper(text: Seq<char>) -> Seq<char> {
    Seq::new(text.len(), |i: int| ascii_upper_char(text[i]))
}

/// `text` with its ASCII upper-case letters made lower case.
pub open spec fn ascii_lower(text: Seq<char>) -> Seq<char> {
    Seq::new(text.len(), |i: int| ascii_lower_char(text[i]))
}

/// The form in which a mode name is looked up: its upper-case form. For a
/// name of ASCII characters that is the name with its letters `a` to `z`
/// made upper case; for any other name it is what `str::to_uppercase` makes
/// of it.
pub open spec fn mode_form(name: Seq<char>) -> Seq<char> {
    if is_ascii_chars(name) {
        ascii_upper(name)
    } else {
        uppercase(name)
    }
}

/// The character of one decimal digit.
pub open spec fn digit(value: int) -> char {
    ('0' as int + value) as char
}

/// `value` in decimal, with zeros in front up to `width` digits. A value
/// with more digits than `width` keeps them all.
pub open spec fn padded_decimal(value: nat, width: nat) -> Seq<char>
    decreases value, width,
{
    if value < 10 && width <= 1 {
        seq![digit(value as int)]
    } else {
        padded_decimal(value / 10, if width > 0 { (width - 1) as nat } else { 0 }).push(
            digit((value % 10) as int),
        )
    }
}

/// The number of digits that the frequency field holds.
pub const FREQUENCY_DIGITS: usize = 11;

/// The command that sets VFO A to `freq_hz`.
pub open spec fn frequency_command(freq_hz: u64) -> Seq<char> {
    seq!['F', 'A'] + padded_decimal(freq_hz as nat, FREQUENCY_DIGITS as nat) + seq![DELIMITER]
}

/// The mode code for a mode name in upper case. A name that the table does
/// not hold gets the code of USB.
pub open spec fn mode_code(upper: Seq<char>) -> char {
    if upper == "LSB"@ {
        '1'
    } else if upper == "CW"@ {
        '3'
    } else if upper == "FM"@ {
        '4'
    } else if upper == "AM"@ {
        '5'
    } else {
        // USB, SSB, FT8, FT4, PSK31, RTTY, and every name that is none of these
        '2'
    }
}

/// The command that sets the mode named, in upper case, by `upper`.
pub open spec fn mode_command(upper: Seq<char>) -> Seq<char> {
    seq!['M', 'D', mode_code(upper), DELIMITER]
}

/// The number that the decimal digits `digits` spell.
pub open spec fn decimal_value(digits: Seq<char>) -> nat
    decreases digits.len(),
{
    if digits.len() == 0 {
        0
    } else {
        (decimal_value(digits.drop_last()) * 10 + (digits.last() as int - '0' as int)) as nat
    }
}

/// Ten to the power of `exponent`.
pub open spec fn power_of_ten(exponent: nat) -> nat
    decreases exponent,
{
    if exponent == 0 {
        1
    } else {
        10 * power_of_ten((exponent - 1) as nat)
    }
}

/// A padded decimal holds digits only, spells its value, and is never
/// shorter than its width; it is exactly as long where the value fits.
pub proof fn lemma_padded_decimal(value: nat, width: nat)
    ensures
        forall|i: int|
            0 <= i < padded_decimal(value, width).len() ==> '0' <= #[trigger] padded_decimal(
                value,
                width,
            )[i] <= '9',
        decimal_value(padded_decimal(value, width)) == value,
        padded_decimal(value, width).len() >= width,
        padded_decimal(value, width).len() >= 1,
        width >= 1 && value < power_of_ten(width) ==> padded_decimal(value, width).len() == width,
    decreases value, width,
{
    let text = padded_decimal(value, width);
    if value < 10 && width <= 1 {
        assert(text.drop_last() =~= Seq::<char>::empty());
        assert(decimal_value(text.drop_last()) == 0);
    } else {
        let shorter = if width > 0 {
            (width - 1) as nat
        } else {
            0
        };
        let front = padded_decimal(value / 10, shorter);
        lemma_padded_decimal(value / 10, shorter);
        assert(text.drop_last() =~= front);
        assert forall|i: int| 0 <= i < text.len() implies '0' <= #[trigger] text[i] <= '9' by {
            if i < front.len() {
                assert(text[i] == front[i]);
            }
        }
        if width >= 1 && value < power_of_ten(width) {
            if width == 1 {
                assert(power_of_ten(1) == 10) by {
                    reveal_with_fuel(power_of_ten, 2);
                }
            } else {
                assert(value / 10 < power_of_ten(shorter));
            }
        }
    }
}

/// A frequency below 100 GHz gives a command of fourteen characters: `FA`,
/// eleven digits that spell the frequency in Hz, and the terminator.
pub proof fn lemma_frequency_command(freq_hz: u64)
    requires
        freq_hz < 100_000_000_000,
    ensures
        frequency_command(freq_hz).len() == 14,
        frequency_command(freq_hz).subrange(0, 2) == seq!['F', 'A'],
        decimal_value(frequency_command(freq_hz).subrange(2, 13)) == freq_hz,
        frequency_command(freq_hz)[13] == DELIMITER,
{
    lemma_padded_decimal(freq_hz as nat, 11);
    assert(power_of_ten(11) == 100_000_000_000) by {
        reveal_with_fuel(power_of_ten, 12);
    }
    let digits = padded_decimal(freq_hz as nat, 11);
    assert(frequency_command(freq_hz).subrange(2, 13) =~= digits);
    assert(frequency_command(freq_hz).subrange(0, 2) =~= seq!['F', 'A']);
}

/// The mode table is total: each name it lists has its code, and every
/// other name has the code of USB.
pub proof fn lemma_mode_table(upper: Seq<char>)
    ensures
        mode_code("LSB"@) == '1',
        mode_code("USB"@) == '2',
        mode_code("CW"@) == '3',
        mode_code("FM"@) == '4',
        mode_code("AM"@) == '5',
        mode_code("SSB"@) == '2',
        mode_code("FT8"@) == '2',
        mode_code("FT4"@) == '2',
        mode_code("PSK31"@) == '2',
        mode_code("RTTY"@) == '2',
        upper != "LSB"@ && upper != "CW"@ && upper != "FM"@ && upper != "AM"@ ==> mode_code(upper)
            == '2',
        mode_code(upper) == '1' || mode_code(upper) == '2' || mode_code(upper) == '3' || mode_code(
            upper,
        ) == '4' || mode_code(upper) == '5',
{
    reveal_strlit("LSB");
    reveal_strlit("USB");
    reveal_strlit("CW");
    reveal_strlit("FM");
    reveal_strlit("AM");
    reveal_strlit("SSB");
    reveal_strlit("FT8");
    reveal_strlit("FT4");
    reveal_strlit("PSK31");
    reveal_strlit("RTTY");
    assert("LSB"@[0] == 'L' && "USB"@[0] == 'U' && "SSB"@[0] == 'S');
    assert("CW"@[0] == 'C' && "FM"@[0] == 'F' && "AM"@[0] == 'A');
    assert("FT8"@[1] != "FM"@[1] && "FT4"@[1] != "FM"@[1]);
}

/// The letter case of an ASCII mode name does not matter: the name, its
/// upper-case variant and its lower-case variant are looked up in one form,
/// and so give one command.
pub proof fn lemma_ascii_mode_ignores_case(name: Seq<char>)
    requires
        is_ascii_chars(name),
    ensures
        mode_form(name) == ascii_upper(name),
        mode_form(ascii_upper(name)) == mode_form(name),
        mode_form(ascii_lower(name)) == mode_form(name),
        mode_command(mode_form(ascii_upper(name))) == mode_command(mode_form(name)),
        mode_command(mode_form(ascii_lower(name))) == mode_command(mode_form(name)),
{
    let upper = ascii_upper(name);
    let lower = ascii_lower(name);
    assert(is_ascii_chars(upper));
    assert(is_ascii_chars(lower));
    assert(ascii_upper(upper) =~= upper);
    assert(ascii_upper(lower) =~= upper);
}

/// Two ASCII mode names that differ in letter case only give one command.
pub proof fn lemma_case_variants_share_a_command(first: Seq<char>, second: Seq<char>)
    requires
        is_ascii_chars(first),
        is_ascii_chars(second),
        ascii_upper(first) == ascii_upper(second),
    ensures
        mode_form(first) == mode_form(second),
        mode_plan(mode_form(first)) == mode_plan(mode_form(second)),
        forall|freq_hz: u64|
            tune_plan(freq_hz, mode_form(first)) == tune_plan(freq_hz, mode_form(second)),
{
}

/// Two mode names with one form give the same commands. Whether two names
/// have one form, `same_mode_form` tells.
pub proof fn lemma_mode_goes_by_form(first: Seq<char>, second: Seq<char>)
    requires
        mode_form(first) == mode_form(second),
    ensures
        mode_plan(mode_form(first)) == mode_plan(mode_form(second)),
        forall|freq_hz: u64|
            tune_plan(freq_hz, mode_form(first)) == tune_plan(freq_hz, mode_form(second)),
{
}

/// The tune to 14.062 MHz in CW, written out: VFO A, a pause, the frequency,
/// a pause, the mode. The mode may be named in either letter case.
pub proof fn lemma_tune_to_14_062_mhz_in_cw()
    ensures
        tune_plan(14_062_000, mode_form("CW"@)) == seq![
            DriverStepView::Send("FR0;"@),
            DriverStepView::Send("FT0;"@),
            DriverStepView::Pause { millis: 80 },
            DriverStepView::Send("FA00014062000;"@),
            DriverStepView::Pause { millis: 80 },
            DriverStepView::Send("MD3;"@),
        ],
        tune_plan(14_062_000, mode_form("cw"@)) == tune_plan(14_062_000, mode_form("CW"@)),
{
    reveal_strlit("CW");
    reveal_strlit("cw");
    reveal_strlit("LSB");
    reveal_strlit("FR0;");
    reveal_strlit("FT0;");
    reveal_strlit("FA00014062000;");
    reveal_strlit("MD3;");
    assert(ascii_upper("CW"@) =~= "CW"@);
    assert(ascii_upper("cw"@) =~= "CW"@);
    assert("LSB"@.len() == 3);
    assert(mode_command("CW"@) =~= "MD3;"@);
    assert(frequency_command(14_062_000) =~= "FA00014062000;"@) by {
        reveal_with_fuel(padded_decimal, 12);
    }
    assert(seq!['F', 'R', Vfo::A.digit(), DELIMITER] =~= "FR0;"@);
    assert(seq!['F', 'T', Vfo::A.digit(), DELIMITER] =~= "FT0;"@);
    assert(tune_plan(14_062_000, "CW"@) =~= seq![
        DriverStepView::Send("FR0;"@),
        DriverStepView::Send("FT0;"@),
        DriverStepView::Pause { millis: 80 },
        DriverStepView::Send("FA00014062000;"@),
        DriverStepView::Pause { millis: 80 },
        DriverStepView::Send("MD3;"@),
    ]);
}

/// One of the transceiver's two tunable frequency registers.
#[derive(Debug, Clone, Copy, PartialEq, Eq)]
pub enum Vfo {
    A,
    B,
}

impl Vfo {
    /// The digit that names the register in a command.
    pub open spec fn digit(self) -> char {
        match self {
            Vfo::A => '0',
            Vfo::B => '1',
        }
    }
}

/// One step of a driver operation, for the program to carry out before it
/// goes on to the next. A step that fails ends the operation with its error;
/// the steps behind it are not carried out.
#[derive(Debug, PartialEq, Eq)]
pub enum DriverStep {
    /// Write this command to the transceiver.
    Send(String),
    /// Wait this long, in milliseconds: the transceiver takes one command at
    /// a time and acknowledges none.
    Pause { millis: u32 },
    /// Read once; what the read returns is the operation's result.
    Read,
}

/// A `DriverStep` with its text as a sequence of characters.
pub enum DriverStepView {
    Send(Seq<char>),
    Pause { millis: u32 },
    Read,
}

impl DeepView for DriverStep {
    type V = DriverStepView;

    open spec fn deep_view(&self) -> DriverStepView {
        match *self {
            DriverStep::Send(command) => DriverStepView::Send(command@),
            DriverStep::Pause { millis } => DriverStepView::Pause { millis },
            DriverStep::Read => DriverStepView::Read,
        }
    }
}

/// What the run of a driver operation needs next.
#[derive(Debug, Clone, Copy, PartialEq, Eq)]
pub enum DriverRun {
    /// Carry out the step at this index, counted from 0, and report how it
    /// ended.
    Perform { index: usize },
    /// The run is over: with `Ok` after the last step, with the error of the
    /// step that failed otherwise.
    Done(Result<(), SerialError>),
}

/// What follows in a run of `len` steps of which `done` are carried out,
/// the last of them with `outcome`: a failure ends the run at once, with
/// nothing more carried out; otherwise the steps are taken in order, up to
/// the last.
pub open spec fn next_in_run(len: usize, done: usize, outcome: Result<(), SerialError>) -> DriverRun {
    match outcome {
        Err(error) => DriverRun::Done(Err(error)),
        Ok(_) => if done < len {
            DriverRun::Perform { index: done }
        } else {
            DriverRun::Done(Ok(()))
        },
    }
}

/// The steps that a run carries out when its steps end with `outcomes`, one
/// outcome for each step of the plan: those up to the first failure, that
/// one included.
pub open spec fn steps_carried_out(outcomes: Seq<Result<(), SerialError>>) -> nat
    decreases outcomes.len(),
{
    if outcomes.len() == 0 {
        0
    } else if outcomes[0] is Err {
        1
    } else {
        steps_carried_out(outcomes.drop_first()) + 1
    }
}

/// A run goes through its steps in order and ends at the first that fails:
/// while every step so far has ended well the next one is asked for, and
/// after a failure none is.
pub proof fn lemma_run_ends_at_first_failure(
    len: usize,
    outcomes: Seq<Result<(), SerialError>>,
    failed: int,
)
    requires
        outcomes.len() == len,
        0 <= failed < len,
        outcomes[failed] is Err,
        forall|i: int| 0 <= i < failed ==> outcomes[i] is Ok,
    ensures
        next_in_run(len, 0, Ok(())) == (DriverRun::Perform { index: 0 }),
        forall|i: int|
            0 <= i < failed ==> #[trigger] next_in_run(len, (i + 1) as usize, outcomes[i]) == (
            DriverRun::Perform { index: (i + 1) as usize }),
        next_in_run(len, (failed + 1) as usize, outcomes[failed]) == DriverRun::Done(
            Err(outcomes[failed]->Err_0),
        ),
        steps_carried_out(outcomes) == failed + 1,
    decreases failed,
{
    if failed > 0 {
        let rest = outcomes.drop_first();
        assert forall|i: int| 0 <= i < failed - 1 implies rest[i] is Ok by {
            assert(rest[i] == outcomes[i + 1]);
        }
        lemma_run_ends_at_first_failure((len - 1) as usize, rest, failed - 1);
    }
}

/// The pause after the VFO selection and after the frequency command, in
/// milliseconds.
pub const COMMAND_PAUSE_MS: u32 = 80;

/// The steps that select `vfo` for receiving and for transmitting.
pub open spec fn vfo_plan(vfo: Vfo) -> Seq<DriverStepView> {
    seq![
        DriverStepView::Send(seq!['F', 'R', vfo.digit(), DELIMITER]),
        DriverStepView::Send(seq!['F', 'T', vfo.digit(), DELIMITER]),
    ]
}

/// The step that sets the mode named, in upper case, by `upper`.
pub open spec fn mode_plan(upper: Seq<char>) -> Seq<DriverStepView> {
    seq![DriverStepView::Send(mode_command(upper))]
}

/// The steps that tune to `freq_hz` in the mode named, in upper case, by
/// `upper`: VFO A, the frequency, then the mode, with a pause before each of
/// the last two.
pub open spec fn tune_plan(freq_hz: u64, upper: Seq<char>) -> Seq<DriverStepView> {
    vfo_plan(Vfo::A) + seq![
        DriverStepView::Pause { millis: COMMAND_PAUSE_MS },
        DriverStepView::Send(frequency_command(freq_hz)),
        DriverStepView::Pause { millis: COMMAND_PAUSE_MS },
        DriverStepView::Send(mode_command(upper)),
    ]
}

/// The steps that ask for the frequency of VFO A and read once.
pub open spec fn query_plan() -> Seq<DriverStepView> {
    seq![DriverStepView::Send(seq!['F', 'A', DELIMITER]), DriverStepView::Read]
}

fn digit_of(value: u64) -> (c: char)
    requires
        value < 10,
    ensures
        c == digit(value as int),
{
    ('0' as u8 + value as u8) as char
}

/// Appends `value` in decimal to `out`, padded with zeros to `width` digits.
pub fn push_padded_decimal(out: &mut String, value: u64, width: usize)
    ensures
        final(out)@ == old(out)@ + padded_decimal(value as nat, width as nat),
{
    let mut low: Vec<char> = Vec::new();
    let mut rest = value;
    let mut left = width;
    while !(rest < 10 && left <= 1)
        invariant
            padded_decimal(value as nat, width as nat) == padded_decimal(rest as nat, left as nat)
                + low@.reverse(),
        decreases rest, left,
    {
        let ghost before = low@;
        low.push(digit_of(rest % 10));
        proof {
            let shorter = padded_decimal(
                (rest / 10) as nat,
                if left > 0 { (left - 1) as nat } else { 0 },
            );
            assert(shorter.push(digit((rest % 10) as int)) + before.reverse() =~= shorter
                + low@.reverse());
        }
        rest = rest / 10;
        if left > 0 {
            left = left - 1;
        }
    }
    let ghost before = low@;
    low.push(digit_of(rest));
    assert(padded_decimal(value as nat, width as nat) =~= low@.reverse());
    let mut i = low.len();
    while i > 0
        invariant
            i <= low.len(),
            out@ == old(out)@ + low@.reverse().take(low.len() - i),
        decreases i,
    {
        i = i - 1;
        push_char(out, low[i]);
        assert(low@.reverse().take(low.len() - i) =~= low@.reverse().take(low.len() - i - 1).push(
            low[i as int],
        ));
    }
    assert(low@.reverse().take(low.len() as int) =~= low@.reverse());
}

/// What follows in the run of `steps`, of which `done` are carried out, the
/// last of them with `outcome`. A run begins with no step done and `Ok`.
pub fn next_driver_step(steps: &Vec<DriverStep>, done: usize, outcome: Result<(), SerialError>) -> (next:
    DriverRun)
    ensures
        next == next_in_run(steps.len(), done, outcome),
{
    match outcome {
        Err(error) => DriverRun::Done(Err(error)),
        Ok(_) => {
            if done < steps.len() {
                DriverRun::Perform { index: done }
            } else {
                DriverRun::Done(Ok(()))
            }
        },
    }
}

fn ascii_upper_of(c: char) -> (upper: char)
    ensures
        upper == ascii_upper_char(c),
{
    if 'a' <= c && c <= 'z' {
        (c as u8 - 'a' as u8 + 'A' as u8) as char
    } else {
        c
    }
}

/// The form in which the mode name `name` is looked up.
pub fn mode_form_of(name: &str) -> (form: String)
    ensures
        form@ == mode_form(name@),
{
    broadcast use group_string_axioms;

    if !name.is_ascii() {
        return to_uppercase(name);
    }
    let mut form = String::new();
    for c in it: name.chars()
        invariant
            it.seq() == name@,
            form@ == ascii_upper(name@.take(it.index())),
    {
        assert(c == name@[it.index()]);
        push_char(&mut form, ascii_upper_of(c));
        assert(form@ =~= ascii_upper(name@.take(it.index() + 1)));
    }
    assert(name@.take(name@.len() as int) == name@);
    form
}

/// Whether two mode names are looked up in one form, and so give the same
/// commands.
pub fn same_mode_form(first: &str, second: &str) -> (same: bool)
    ensures
        same == (mode_form(first@) == mode_form(second@)),
{
    let first_form = mode_form_of(first);
    let second_form = mode_form_of(second);
    text_eq(first_form.as_str(), second_form.as_str())
}

/// The command that sets VFO A to `freq_hz`: `FA`, the frequency in Hz as
/// eleven decimal digits, and the terminator.
pub fn frequency_command_for(freq_hz: u64) -> (command: String)
    ensures
        command@ == frequency_command(freq_hz),
{
    let mut command = String::new();
    push_char(&mut command, 'F');
    push_char(&mut command, 'A');
    push_padded_decimal(&mut command, freq_hz, FREQUENCY_DIGITS);
    push_char(&mut command, DELIMITER);
    assert(command@ =~= frequency_command(freq_hz));
    command
}

/// The mode code for `upper`, a mode name in upper case.
pub fn mode_code_for(upper: &str) -> (code: char)
    ensures
        code == mode_code(upper@),
{
    if text_eq(upper, "LSB") {
        '1'
    } else if text_eq(upper, "CW") {
        '3'
    } else if text_eq(upper, "FM") {
        '4'
    } else if text_eq(upper, "AM") {
        '5'
    } else {
        '2'
    }
}

/// The command that sets the mode named by `upper`, a mode name in upper
/// case.
pub fn mode_command_for(upper: &str) -> (command: String)
    ensures
        command@ == mode_command(upper@),
{
    let mut command = String::new();
    push_char(&mut command, 'M');
    push_char(&mut command, 'D');
    push_char(&mut command, mode_code_for(upper));
    push_char(&mut command, DELIMITER);
    assert(command@ =~= mode_command(upper@));
    command
}

fn vfo_command(letter: char, vfo: Vfo) -> (command: String)
    ensures
        command@ == seq!['F', letter, vfo.digit(), DELIMITER],
{
    let mut command = String::new();
    push_char(&mut command, 'F');
    push_char(&mut command, letter);
    push_char(
        &mut command,
        match vfo {
            Vfo::A => '0',
            Vfo::B => '1',
        },
    );
    push_char(&mut command, DELIMITER);
    assert(command@ =~= seq!['F', letter, vfo.digit(), DELIMITER]);
    command
}

/// The steps that select `vfo` for receiving and for transmitting.
pub fn vfo_steps(vfo: Vfo) -> (steps: Vec<DriverStep>)
    ensures
        steps.deep_view() == vfo_plan(vfo),
{
    let mut steps: Vec<DriverStep> = Vec::new();
    steps.push(DriverStep::Send(vfo_command('R', vfo)));
    steps.push(DriverStep::Send(vfo_command('T', vfo)));
    assert(steps.deep_view() =~= vfo_plan(vfo));
    steps
}

/// The step that sets the mode named by `upper`, a mode name in upper case.
pub fn mode_steps(upper: &str) -> (steps: Vec<DriverStep>)
    ensures
        steps.deep_view() == mode_plan(upper@),
{
    let mut steps: Vec<DriverStep> = Vec::new();
    steps.push(DriverStep::Send(mode_command_for(upper)));
    assert(steps.deep_view() =~= mode_plan(upper@));
    steps
}

/// The steps that tune to `freq_hz` in the mode named by `upper`, a mode
/// name in upper case.
pub fn tune_steps(freq_hz: u64, upper: &str) -> (steps: Vec<DriverStep>)
    ensures
        steps.deep_view() == tune_plan(freq_hz, upper@),
{
    let mut steps: Vec<DriverStep> = Vec::new();
    steps.push(DriverStep::Send(vfo_command('R', Vfo::A)));
    steps.push(DriverStep::Send(vfo_command('T', Vfo::A)));
    steps.push(DriverStep::Pause { millis: COMMAND_PAUSE_MS });
    steps.push(DriverStep::Send(frequency_command_for(freq_hz)));
    steps.push(DriverStep::Pause { millis: COMMAND_PAUSE_MS });
    steps.push(DriverStep::Send(mode_command_for(upper)));
    assert(steps.deep_view() =~= tune_plan(freq_hz, upper@));
    steps
}

/// The steps that ask for the frequency of VFO A and read once.
pub fn query_steps() -> (steps: Vec<DriverStep>)
    ensures
        steps.deep_view() == query_plan(),
{
    let mut command = String::new();
    push_char(&mut command, 'F');
    push_char(&mut command, 'A');
    push_char(&mut command, DELIMITER);
    assert(command@ =~= seq!['F', 'A', DELIMITER]);
    let mut steps: Vec<DriverStep> = Vec::new();
    steps.push(DriverStep::Send(command));
    steps.push(DriverStep::Read);
    assert(steps.deep_view() =~= query_plan());
    steps
}

} // verus!
