//! Calculation channels: arithmetic over live tags.
//!
//! An expression names tags by the protocol prefix `MB` and a decimal index, as in
//! `MB12`. Evaluation replaces every reference by the literal of the tag's current
//! value and hands the text to the expression evaluator.

use vstd::prelude::*;
use vstd::string::StringExecFns;
use rhai::packages::Package;
use crate::device::DeviceState;
use crate::device::ModbusChannel;
use crate::device::ModbusDevice;
use crate::device::ModbusValue;
use crate::device::states;
use crate::ieee::double_finite;
use crate::ieee::is_finite;
use crate::ieee::real_of_whole;
use crate::ieee::whole_pattern;
use crate::ieee::widen_real;
use crate::ieee::widened;
use crate::text::chars_of;
use crate::text::decimal;
use crate::text::push_decimal;

verus! {

/// A decimal digit.
pub open spec fn is_digit(c: char) -> bool {
    '0' <= c && c <= '9'
}

/// A character that can continue an identifier: an ASCII letter, a digit or `_`.
pub open spec fn is_word(c: char) -> bool {
    ('a' <= c && c <= 'z') || ('A' <= c && c <= 'Z') || is_digit(c) || c == '_'
}

/// Whether a tag reference starts at position `i`: the letters `MB` and at least one
/// digit, not preceded by a character that would make them the tail of a longer word.
pub open spec fn tag_at(s: Seq<char>, i: int) -> bool {
    &&& 0 <= i
    &&& i + 2 < s.len()
    &&& s[i] == 'M'
    &&& s[i + 1] == 'B'
    &&& is_digit(s[i + 2])
    &&& (i == 0 || !is_word(s[i - 1]))
}

/// The first position at or after `j` that holds no digit.
pub open spec fn digits_end(s: Seq<char>, j: int) -> int
    decreases s.len() - j,
{
    if 0 <= j < s.len() && is_digit(s[j]) {
        digits_end(s, j + 1)
    } else {
        j
    }
}

fn digit_here(c: char) -> (b: bool)
    ensures
        b == is_digit(c),
{
    '0' <= c && c <= '9'
}

fn word_here(c: char) -> (b: bool)
    ensures
        b == is_word(c),
{
    ('a' <= c && c <= 'z') || ('A' <= c && c <= 'Z') || digit_here(c) || c == '_'
}

fn tag_starts(chars: &Vec<char>, i: usize) -> (b: bool)
    requires
        i < chars@.len(),
    ensures
        b == tag_at(chars@, i as int),
{
    if chars.len() - i < 3 {
        return false;
    }
    chars[i] == 'M' && chars[i + 1] == 'B' && digit_here(chars[i + 2]) && (i == 0 || !word_here(
        chars[i - 1],
    ))
}

fn digits_until(chars: &Vec<char>, j: usize) -> (end: usize)
    requires
        j <= chars@.len(),
    ensures
        end == digits_end(chars@, j as int),
        j <= end <= chars@.len(),
{
    let mut end = j;
    while end < chars.len() && digit_here(chars[end])
        invariant
            j <= end <= chars@.len(),
            digits_end(chars@, j as int) == digits_end(chars@, end as int),
        decreases chars@.len() - end,
    {
        end += 1;
    }
    end
}

/// Why an expression could not be prepared for evaluation, over plain text.
pub enum Fault {
    /// A reference that names no channel.
    UnknownTag(Seq<char>),
    /// A reference to a tag whose value takes no part in arithmetic.
    UnsupportedOperand(Seq<char>),
}

/// Why a calculation failed.
#[derive(Clone, Debug, PartialEq, Eq)]
pub enum CalcError {
    UnknownTag { reference: String },
    UnsupportedOperand { reference: String },
    EvaluationError { detail: String },
}

impl Fault {
    /// What is stored as the channel's error.
    pub open spec fn message(self) -> Seq<char> {
        match self {
            Fault::UnknownTag(reference) => "unknown tag "@ + reference,
            Fault::UnsupportedOperand(reference) => "unsupported operand "@ + reference,
        }
    }
}

impl CalcError {
    /// The fault that this error reports, if it is one of preparation.
    pub open spec fn fault(self) -> Option<Fault> {
        match self {
            CalcError::UnknownTag { reference } => Some(Fault::UnknownTag(reference@)),
            CalcError::UnsupportedOperand { reference } => Some(
                Fault::UnsupportedOperand(reference@),
            ),
            CalcError::EvaluationError { detail } => None,
        }
    }

    /// The text of the error: what is stored as the channel's error.
    pub open spec fn message_text(self) -> Seq<char> {
        match self {
            CalcError::UnknownTag { reference } => "unknown tag "@ + reference@,
            CalcError::UnsupportedOperand { reference } => "unsupported operand "@ + reference@,
            CalcError::EvaluationError { detail } => detail@,
        }
    }

    pub fn message(&self) -> (text: String)
        ensures
            text@ == self.message_text(),
    {
        match self {
            CalcError::UnknownTag { reference } => {
                let mut text = String::from_str("unknown tag ");
                text.append(reference.as_str());
                text
            },
            CalcError::UnsupportedOperand { reference } => {
                let mut text = String::from_str("unsupported operand ");
                text.append(reference.as_str());
                text
            },
            CalcError::EvaluationError { detail } => detail.clone(),
        }
    }
}

/// The text that the evaluator reads as the real number with the given binary64
/// pattern.
pub uninterp spec fn real_literal_text(bits: u64) -> Seq<char>;

/// Calls rhai's `Dynamic::from_float` on the number with the given binary64 pattern
/// and then the `to_string` of the `Dynamic`. rhai writes zero as `0.0`, a whole
/// number with `.0` after it, and a very large or very small number with an
/// exponent, so that its own lexer reads a finite number back as a float. The text
/// depends on the pattern alone.
#[verifier::external_body]
fn real_literal(bits: u64) -> (text: String)
    ensures
        text@ == real_literal_text(bits),
{
    rhai::Dynamic::from_float(rhai::FLOAT::from_bits(bits)).to_string()
}

/// The literal that stands for a tag's value in an expression. An integer is its
/// decimal numeral, a real the evaluator's literal of the same number.
pub open spec fn literal_text(value: ModbusValue) -> Seq<char> {
    match value {
        ModbusValue::Int(n) => decimal(n as nat),
        ModbusValue::Real(bits) => real_literal_text(widened(bits)),
        ModbusValue::Bool(_) => Seq::empty(),
    }
}

/// The value of the first channel at or after position `from` whose name is `name`.
pub open spec fn channel_named(channels: Seq<ModbusChannel>, name: Seq<char>, from: int) -> Option<
    ModbusValue,
>
    decreases channels.len() - from,
{
    if from < 0 || from >= channels.len() {
        None
    } else if channels[from].name@ == name {
        Some(channels[from].value)
    } else {
        channel_named(channels, name, from + 1)
    }
}

/// The value of the tag called `name`: that of the first channel of that name, the
/// devices taken in order from position `from` and each device's channels in order.
pub open spec fn tag_value(devices: Seq<DeviceState>, name: Seq<char>, from: int) -> Option<
    ModbusValue,
>
    decreases devices.len() - from,
{
    if from < 0 || from >= devices.len() {
        None
    } else {
        match channel_named(devices[from].channels, name, 0) {
            Some(value) => Some(value),
            None => tag_value(devices, name, from + 1),
        }
    }
}

/// A result with `prefix` put before its text.
pub open spec fn prefixed(prefix: Seq<char>, rest: Result<Seq<char>, Fault>) -> Result<
    Seq<char>,
    Fault,
> {
    match rest {
        Ok(text) => Ok(prefix + text),
        Err(fault) => Err(fault),
    }
}

/// The expression from position `i` on, with every tag reference replaced by the
/// literal of the tag's value. The first reference, from the left, that cannot be
/// replaced decides the fault.
pub open spec fn substituted_from(s: Seq<char>, i: int, devices: Seq<DeviceState>) -> Result<
    Seq<char>,
    Fault,
>
    decreases s.len() - i,
    via substituted_from_terminates
{
    if i < 0 || i >= s.len() {
        Ok(Seq::empty())
    } else if tag_at(s, i) {
        let end = digits_end(s, i + 2);
        let name = s.subrange(i, end);
        match tag_value(devices, name, 0) {
            None => Err(Fault::UnknownTag(name)),
            Some(ModbusValue::Bool(_)) => Err(Fault::UnsupportedOperand(name)),
            Some(value) => prefixed(literal_text(value), substituted_from(s, end, devices)),
        }
    } else {
        prefixed(seq![s[i]], substituted_from(s, i + 1, devices))
    }
}

#[via_fn]
proof fn substituted_from_terminates(s: Seq<char>, i: int, devices: Seq<DeviceState>) {
    if 0 <= i < s.len() && tag_at(s, i) {
        lemma_digits_end_bounds(s, i + 2);
    }
}

/// The whole expression with every tag reference replaced.
pub open spec fn substituted(s: Seq<char>, devices: Seq<DeviceState>) -> Result<
    Seq<char>,
    Fault,
> {
    substituted_from(s, 0, devices)
}

/// The digit run that starts at `j` ends at or after `j`, inside the text.
proof fn lemma_digits_end_bounds(s: Seq<char>, j: int)
    requires
        0 <= j <= s.len(),
    ensures
        j <= digits_end(s, j) <= s.len(),
        j < s.len() && is_digit(s[j]) ==> j < digits_end(s, j),
    decreases s.len() - j,
{
    if j < s.len() && is_digit(s[j]) {
        lemma_digits_end_bounds(s, j + 1);
    }
}

fn find_channel(channels: &Vec<ModbusChannel>, name: &String) -> (found: Option<ModbusValue>)
    ensures
        found == channel_named(channels@, name@, 0),
{
    let mut i: usize = 0;
    while i < channels.len()
        invariant
            i <= channels@.len(),
            channel_named(channels@, name@, 0) == channel_named(channels@, name@, i as int),
        decreases channels@.len() - i,
    {
        if channels[i].name == *name {
            return Some(channels[i].value);
        }
        i += 1;
    }
    None
}

/// Looks a tag up by name in all devices.
pub fn find_tag(devices: &Vec<ModbusDevice>, name: &String) -> (found: Option<ModbusValue>)
    ensures
        found == tag_value(states(devices@), name@, 0),
{
    let mut i: usize = 0;
    while i < devices.len()
        invariant
            i <= devices@.len(),
            tag_value(states(devices@), name@, 0) == tag_value(states(devices@), name@, i as int),
        decreases devices@.len() - i,
    {
        match find_channel(&devices[i].channels, name) {
            Some(value) => {
                return Some(value);
            },
            None => {},
        }
        i += 1;
    }
    None
}

/// The reference that starts at position `i`: the letters `MB` and all the digits
/// that follow them.
pub open spec fn reference_at(s: Seq<char>, i: int) -> Seq<char> {
    s.subrange(i, digits_end(s, i + 2))
}

/// Whether the reference that starts at position `i` cannot be replaced: it names no
/// channel, or a boolean tag.
pub open spec fn unresolved_at(s: Seq<char>, i: int, devices: Seq<DeviceState>) -> bool {
    match tag_value(devices, reference_at(s, i), 0) {
        None => true,
        Some(ModbusValue::Bool(_)) => true,
        Some(_) => false,
    }
}

/// A digit run ends at or before any later position that holds no digit.
proof fn lemma_digits_end_stops(s: Seq<char>, j: int, stop: int)
    requires
        0 <= j <= stop < s.len(),
        !is_digit(s[stop]),
    ensures
        digits_end(s, j) <= stop,
    decreases stop - j,
{
    if j < stop && is_digit(s[j]) {
        lemma_digits_end_stops(s, j + 1, stop);
    }
}

proof fn lemma_scan_meets_reference(s: Seq<char>, devices: Seq<DeviceState>, from: int, i: int)
    requires
        0 <= from <= i,
        tag_at(s, i),
        unresolved_at(s, i, devices),
    ensures
        substituted_from(s, from, devices) is Err,
    decreases i - from,
{
    if from < i {
        if tag_at(s, from) {
            lemma_digits_end_stops(s, from + 2, i);
            lemma_digits_end_bounds(s, from + 2);
            lemma_scan_meets_reference(s, devices, digits_end(s, from + 2), i);
        } else {
            lemma_scan_meets_reference(s, devices, from + 1, i);
        }
    }
}

/// An expression with a reference that cannot be replaced is never evaluated,
/// wherever in the expression the reference stands.
pub proof fn lemma_unresolved_reference_fails(s: Seq<char>, devices: Seq<DeviceState>, i: int)
    requires
        tag_at(s, i),
        unresolved_at(s, i, devices),
    ensures
        substituted(s, devices) is Err,
{
    lemma_scan_meets_reference(s, devices, 0, i);
}

proof fn lemma_scan_without_reference(s: Seq<char>, devices: Seq<DeviceState>, from: int)
    requires
        0 <= from <= s.len(),
        forall|i: int| from <= i < s.len() ==> !tag_at(s, i),
    ensures
        substituted_from(s, from, devices) == Ok::<Seq<char>, Fault>(
            s.subrange(from, s.len() as int),
        ),
    decreases s.len() - from,
{
    if from < s.len() {
        lemma_scan_without_reference(s, devices, from + 1);
        assert(seq![s[from]] + s.subrange(from + 1, s.len() as int) =~= s.subrange(
            from,
            s.len() as int,
        ));
    } else {
        assert(s.subrange(from, s.len() as int) =~= Seq::<char>::empty());
    }
}

/// An expression without references is evaluated as it stands, whatever the devices
/// hold.
pub proof fn lemma_constant_expression_is_kept(s: Seq<char>, devices: Seq<DeviceState>)
    requires
        forall|i: int| 0 <= i < s.len() ==> !tag_at(s, i),
    ensures
        substituted(s, devices) == Ok::<Seq<char>, Fault>(s),
{
    lemma_scan_without_reference(s, devices, 0);
    assert(s.subrange(0, s.len() as int) =~= s);
}

/// Prefixing twice is prefixing once with both texts.
proof fn lemma_prefixed_twice(a: Seq<char>, b: Seq<char>, rest: Result<Seq<char>, Fault>)
    ensures
        prefixed(a, prefixed(b, rest)) == prefixed(a + b, rest),
{
    match rest {
        Ok(text) => {
            assert(a + (b + text) =~= (a + b) + text);
        },
        Err(_) => {},
    }
}

/// Replaces every tag reference in `expression` by the literal of the tag's current
/// value. Fails on the first reference, from the left, that names no channel or a
/// boolean tag.
pub fn substitute(expression: &str, devices: &Vec<ModbusDevice>) -> (result: Result<
    String,
    CalcError,
>)
    ensures
        match substituted(expression@, states(devices@)) {
            Ok(text) => result matches Ok(out) && out@ == text,
            Err(fault) => result matches Err(error) && error.fault() == Some(fault),
        },
{
    let chars = chars_of(expression);
    let mut out = String::new();
    let mut i: usize = 0;
    while i < chars.len()
        invariant
            i <= chars@.len(),
            chars@ == expression@,
            substituted(chars@, states(devices@)) == prefixed(
                out@,
                substituted_from(chars@, i as int, states(devices@)),
            ),
        decreases chars@.len() - i,
    {
        let ghost before = out@;
        if tag_starts(&chars, i) {
            let end = digits_until(&chars, i + 2);
            let mut reference = String::new();
            let mut j: usize = i;
            while j < end
                invariant
                    i <= j <= end <= chars@.len(),
                    reference@ == chars@.subrange(i as int, j as int),
                decreases end - j,
            {
                reference.push(chars[j]);
                j += 1;
            }
            match find_tag(devices, &reference) {
                None => {
                    return Err(CalcError::UnknownTag { reference });
                },
                Some(ModbusValue::Bool(_)) => {
                    return Err(CalcError::UnsupportedOperand { reference });
                },
                Some(ModbusValue::Int(n)) => {
                    push_decimal(&mut out, n as u64);
                    proof {
                        lemma_prefixed_twice(
                            before,
                            literal_text(ModbusValue::Int(n)),
                            substituted_from(chars@, end as int, states(devices@)),
                        );
                    }
                },
                Some(ModbusValue::Real(bits)) => {
                    let literal = real_literal(widen_real(bits));
                    out.append(literal.as_str());
                    proof {
                        lemma_prefixed_twice(
                            before,
                            literal_text(ModbusValue::Real(bits)),
                            substituted_from(chars@, end as int, states(devices@)),
                        );
                    }
                },
            }
            i = end;
        } else {
            out.push(chars[i]);
            proof {
                lemma_prefixed_twice(
                    before,
                    seq![chars@[i as int]],
                    substituted_from(chars@, i + 1, states(devices@)),
                );
                assert(before.push(chars@[i as int]) =~= before + seq![chars@[i as int]]);
            }
            i += 1;
        }
    }
    Ok(out)
}

/// What the expression evaluator handed back.
#[derive(Clone, Debug, PartialEq, Eq)]
pub enum Evaluated {
    /// A real number, as its binary64 pattern.
    Real(u64),
    /// A whole number.
    Whole(i64),
    /// A value that is no number; the text names its type.
    Other(String),
    /// The evaluator refused the expression or failed while computing it.
    Failed(String),
}

/// Evaluates one expression with rhai: an `Engine::new_raw()` with the packages
/// `ArithmeticPackage` and `BasicMathPackage`, and on it `eval_expression`, which
/// takes a single expression and no statement. A float comes back as its bit
/// pattern, an integer as it is, any other value by the name of its type, an error of
/// the engine as its text. Nothing is claimed of which of them comes back.
#[verifier::external_body]
fn run_expression(script: &str) -> (outcome: Evaluated) {
    let mut engine = rhai::Engine::new_raw();
    rhai::packages::ArithmeticPackage::new().register_into_engine(&mut engine);
    rhai::packages::BasicMathPackage::new().register_into_engine(&mut engine);
    match engine.eval_expression::<rhai::Dynamic>(script) {
        Ok(value) => match (value.as_float(), value.as_int()) {
            (Ok(number), _) => Evaluated::Real(number.to_bits()),
            (_, Ok(whole)) => Evaluated::Whole(whole),
            (_, Err(kind)) => Evaluated::Other(kind.to_string()),
        },
        Err(error) => Evaluated::Failed(error.to_string()),
    }
}

impl Evaluated {
    /// The number that the evaluator computed, as a binary64 pattern.
    pub open spec fn number(self) -> Option<u64> {
        match self {
            Evaluated::Real(bits) => Some(bits),
            Evaluated::Whole(whole) => Some(whole_pattern(whole as int) as u64),
            Evaluated::Other(_) => None,
            Evaluated::Failed(_) => None,
        }
    }

    /// Whether the outcome is a result to store: a finite number.
    pub open spec fn accepted(self) -> bool {
        self.number() matches Some(bits) && double_finite(bits)
    }

    /// Why an outcome that is not accepted is refused.
    pub open spec fn refusal(self) -> Seq<char> {
        match self {
            Evaluated::Real(_) => "result is not finite"@,
            Evaluated::Whole(_) => "result is not finite"@,
            Evaluated::Other(kind) => "result is not a number: "@ + kind@,
            Evaluated::Failed(detail) => detail@,
        }
    }
}

/// A value derived from tags by an expression.
#[derive(Clone, Debug, PartialEq, Eq)]
pub struct CalculationChannel {
    pub enabled: bool,
    pub id: usize,
    pub name: String,
    pub calculation: String,
    /// The last good result, as a binary64 pattern.
    pub value: u64,
    /// Why the last evaluation failed, if it did.
    pub error: Option<String>,
}

impl CalculationChannel {
    /// Whether `self` is `before` but for the result and the error.
    pub open spec fn same_channel(self, before: CalculationChannel) -> bool {
        &&& self.enabled == before.enabled
        &&& self.id == before.id
        &&& self.name == before.name
        &&& self.calculation == before.calculation
    }

    /// Whether `self` is `before` after a failure with the given text: the result
    /// kept, the text stored as the error.
    pub open spec fn failed_from(self, before: CalculationChannel, text: Seq<char>) -> bool {
        &&& self.same_channel(before)
        &&& self.value == before.value
        &&& self.error matches Some(stored)
        &&& stored@ == text
    }

    /// Stores what the evaluator handed back. A finite number replaces the result and
    /// clears the error. Anything else leaves the result as it was and sets the
    /// error.
    pub fn settle(&mut self, outcome: Evaluated) -> (result: Result<(), CalcError>)
        ensures
            final(self).same_channel(*old(self)),
            outcome.accepted() ==> {
                &&& result is Ok
                &&& final(self).value == outcome.number().unwrap()
                &&& final(self).error is None
            },
            !outcome.accepted() ==> {
                &&& result matches Err(CalcError::EvaluationError { detail })
                &&& detail@ == outcome.refusal()
                &&& final(self).failed_from(*old(self), outcome.refusal())
            },
    {
        let number = match outcome {
            Evaluated::Real(bits) => Ok(bits),
            Evaluated::Whole(whole) => Ok(real_of_whole(whole)),
            Evaluated::Other(kind) => {
                let mut text = String::from_str("result is not a number: ");
                text.append(kind.as_str());
                Err(text)
            },
            Evaluated::Failed(detail) => Err(detail),
        };
        let detail = match number {
            Ok(bits) => {
                if is_finite(bits) {
                    self.value = bits;
                    self.error = None;
                    return Ok(());
                }
                String::from_str("result is not finite")
            },
            Err(detail) => detail,
        };
        self.error = Some(detail.clone());
        Err(CalcError::EvaluationError { detail })
    }

    /// Evaluates the expression against the current tag values. A reference that
    /// cannot be replaced fails before anything is evaluated. Success replaces the
    /// result and clears the error; every failure keeps the last good result and
    /// stores the error's text.
    pub fn evaluate(&mut self, devices: &Vec<ModbusDevice>) -> (result: Result<(), CalcError>)
        ensures
            final(self).same_channel(*old(self)),
            match substituted(old(self).calculation@, states(devices@)) {
                Err(fault) => {
                    &&& result matches Err(error)
                    &&& error.fault() == Some(fault)
                    &&& final(self).failed_from(*old(self), fault.message())
                },
                Ok(_) => match result {
                    Ok(_) => final(self).error is None && double_finite(final(self).value),
                    Err(error) => {
                        &&& error is EvaluationError
                        &&& final(self).failed_from(*old(self), error.message_text())
                    },
                },
            },
    {
        match substitute(self.calculation.as_str(), devices) {
            Err(error) => {
                self.error = Some(error.message());
                Err(error)
            },
            Ok(text) => {
                let outcome = run_expression(text.as_str());
                self.settle(outcome)
            },
        }
    }
}

/// The expression that a fresh calculation channel starts with: twice the tag of
/// the same index.
pub open spec fn default_expression(index: nat) -> Seq<char> {
    "MB"@ + decimal(index) + " + MB"@ + decimal(index) + " + 0.0"@
}

/// Whether `channel` is the fresh calculation channel of the given index.
pub open spec fn fresh_channel(channel: CalculationChannel, index: nat) -> bool {
    &&& channel.enabled
    &&& channel.id == index
    &&& channel.name@ == "CH"@ + decimal(index)
    &&& channel.calculation@ == default_expression(index)
    &&& channel.value == 0
    &&& channel.error is None
}

/// `n` fresh calculation channels, numbered from 1: channel `i` is called `CH`*i*
/// and computes `MB`*i*` + MB`*i*` + 0.0`. Its result starts at zero.
pub fn init_channel_list(n: usize) -> (list: Vec<CalculationChannel>)
    ensures
        list@.len() == n,
        forall|k: int| 0 <= k < n ==> fresh_channel(#[trigger] list@[k], (k + 1) as nat),
{
    let mut list: Vec<CalculationChannel> = Vec::new();
    while list.len() < n
        invariant
            list@.len() <= n,
            forall|k: int|
                0 <= k < list@.len() ==> fresh_channel(#[trigger] list@[k], (k + 1) as nat),
        decreases n - list@.len(),
    {
        let i = list.len() + 1;
        let mut calculation = String::from_str("MB");
        push_decimal(&mut calculation, i as u64);
        calculation.append(" + MB");
        push_decimal(&mut calculation, i as u64);
        calculation.append(" + 0.0");
        let mut name = String::from_str("CH");
        push_decimal(&mut name, i as u64);
        list.push(
            CalculationChannel { enabled: true, id: i, name, calculation, value: 0, error: None },
        );
    }
    list
}

} // verus!
