//! The scalar functions, their declared signatures, and the registry that
//! resolves a name to both.

use vstd::prelude::*;
use vstd::string::*;
use vstd::utf8::*;
use crate::error::EvaluationError;
use crate::text::{
    byte_length, lemma_byte_length, lemma_repeated_space, lowercase_of, repeated, reverse,
    same_text, spaces, trim, trim_end, trim_end_of, trim_of, trim_start, trim_start_of,
    uppercase_of,
};
use crate::types::DataType;
use crate::value::{
    number_argument, number_at, outcome, text_argument, text_at, views, Value, ValueView,
};

verus! {

/// The declared signature of a scalar function.
#[derive(Clone, Debug, PartialEq, Eq)]
pub struct Prototype {
    pub parameters: Vec<DataType>,
    pub result: DataType,
}

/// What a [`Prototype`] stands for.
pub struct PrototypeView {
    pub parameters: Seq<DataType>,
    pub result: DataType,
}

impl View for Prototype {
    type V = PrototypeView;

    open spec fn view(&self) -> PrototypeView {
        PrototypeView { parameters: self.parameters@, result: self.result }
    }
}

/// The first `n` characters of a text; the whole text where `n` is negative
/// or not below the number of characters.
pub open spec fn left_of(text: Seq<char>, n: int) -> Seq<char> {
    if 0 <= n < text.len() {
        text.take(n)
    } else {
        text
    }
}

/// What `left` returns for an argument list. An empty text is returned as it
/// is, before the count is looked at.
pub open spec fn left_spec(arguments: Seq<ValueView>) -> Result<ValueView, EvaluationError> {
    match text_at(arguments, 0) {
        Err(error) => Err(error),
        Ok(text) => if text.len() == 0 {
            Ok(ValueView::Text(text))
        } else {
            match number_at(arguments, 1) {
                Err(error) => Err(error),
                Ok(n) => Ok(ValueView::Text(left_of(text, n))),
            }
        },
    }
}

/// `left(text, n)`: the first `n` characters of `text`.
pub fn text_left(inputs: Vec<Value>) -> (result: Result<Value, EvaluationError>)
    ensures
        outcome(result) == left_spec(views(inputs@)),
{
    let text = match text_argument(&inputs, 0) {
        Ok(text) => text,
        Err(error) => return Err(error),
    };
    if text.is_empty() {
        return Ok(Value::Text(text.to_owned()));
    }
    let number_of_chars = match number_argument(&inputs, 1) {
        Ok(number) => number,
        Err(error) => return Err(error),
    };
    let length = text.unicode_len();
    if number_of_chars < 0 || number_of_chars as u64 >= length as u64 {
        return Ok(Value::Text(text.to_owned()));
    }
    let substring = text.substring_char(0, number_of_chars as usize);
    Ok(Value::Text(substring.to_owned()))
}

/// What `lower` returns for an argument list.
pub open spec fn lowercase_spec(arguments: Seq<ValueView>) -> Result<ValueView, EvaluationError> {
    match text_at(arguments, 0) {
        Err(error) => Err(error),
        Ok(text) => Ok(ValueView::Text(lowercase_of(text))),
    }
}

/// `lower(text)`: the text in lowercase.
pub fn text_lowercase(inputs: Vec<Value>) -> (result: Result<Value, EvaluationError>)
    ensures
        outcome(result) == lowercase_spec(views(inputs@)),
{
    match text_argument(&inputs, 0) {
        Ok(text) => Ok(Value::Text(text.to_lowercase())),
        Err(error) => Err(error),
    }
}

/// What `upper` returns for an argument list.
pub open spec fn uppercase_spec(arguments: Seq<ValueView>) -> Result<ValueView, EvaluationError> {
    match text_at(arguments, 0) {
        Err(error) => Err(error),
        Ok(text) => Ok(ValueView::Text(uppercase_of(text))),
    }
}

/// `upper(text)`: the text in uppercase.
pub fn text_uppercase(inputs: Vec<Value>) -> (result: Result<Value, EvaluationError>)
    ensures
        outcome(result) == uppercase_spec(views(inputs@)),
{
    match text_argument(&inputs, 0) {
        Ok(text) => Ok(Value::Text(text.to_uppercase())),
        Err(error) => Err(error),
    }
}

/// What `reverse` returns for an argument list.
pub open spec fn reverse_spec(arguments: Seq<ValueView>) -> Result<ValueView, EvaluationError> {
    match text_at(arguments, 0) {
        Err(error) => Err(error),
        Ok(text) => Ok(ValueView::Text(text.reverse())),
    }
}

/// `reverse(text)`: the characters of the text in reverse order.
pub fn text_reverse(inputs: Vec<Value>) -> (result: Result<Value, EvaluationError>)
    ensures
        outcome(result) == reverse_spec(views(inputs@)),
{
    match text_argument(&inputs, 0) {
        Ok(text) => Ok(Value::Text(reverse(text))),
        Err(error) => Err(error),
    }
}

/// A text repeated `count` times, where the count is not negative and the
/// result has at most `isize::MAX` bytes.
pub open spec fn replicate_of(text: Seq<char>, count: int) -> Result<ValueView, EvaluationError> {
    if count < 0 {
        Err(EvaluationError::NegativeCount)
    } else if byte_length(text) * count > isize::MAX {
        Err(EvaluationError::ResultTooLarge)
    } else {
        Ok(ValueView::Text(repeated(text, count as nat)))
    }
}

/// What `replicate` returns for an argument list.
pub open spec fn replicate_spec(arguments: Seq<ValueView>) -> Result<ValueView, EvaluationError> {
    match text_at(arguments, 0) {
        Err(error) => Err(error),
        Ok(text) => match number_at(arguments, 1) {
            Err(error) => Err(error),
            Ok(count) => replicate_of(text, count),
        },
    }
}

/// Repeats a text, where the result can be held.
fn replicate(text: &str, count: i64) -> (result: Result<Value, EvaluationError>)
    ensures
        outcome(result) == replicate_of(text@, count as int),
{
    if count < 0 {
        return Err(EvaluationError::NegativeCount);
    }
    let bytes = text.as_bytes().len();
    if bytes == 0 {
        proof {
            lemma_byte_length(text@);
            lemma_repeated_empty(text@, count as nat);
            assert(byte_length(text@) * count == 0);
        }
        return Ok(Value::Text(text.to_owned()));
    }
    let most: usize = (isize::MAX as usize) / bytes;
    if count as u64 > most as u64 {
        proof {
            lemma_product_bound(bytes as int, count as int, isize::MAX as int);
        }
        return Err(EvaluationError::ResultTooLarge);
    }
    proof {
        lemma_product_bound(bytes as int, count as int, isize::MAX as int);
    }
    Ok(Value::Text(text.repeat(count as usize)))
}

/// Repeating the empty text gives the empty text.
proof fn lemma_repeated_empty(text: Seq<char>, count: nat)
    requires
        text.len() == 0,
    ensures
        repeated(text, count) == text,
    decreases count,
{
    if count > 0 {
        lemma_repeated_empty(text, (count - 1) as nat);
        assert(text + text =~= text);
    } else {
        assert(text =~= Seq::<char>::empty());
    }
}

/// A product stays within a bound exactly where one factor stays within
/// the bound divided by the other.
proof fn lemma_product_bound(size: int, count: int, bound: int)
    requires
        size > 0,
        count >= 0,
        bound >= 0,
    ensures
        size * count <= bound <==> count <= bound / size,
{
    assert(size * count <= bound <==> count <= bound / size) by (nonlinear_arith)
        requires
            size > 0,
            count >= 0,
            bound >= 0,
    ;
}

/// `replicate(text, count)`: the text concatenated with itself `count`
/// times.
pub fn text_replicate(inputs: Vec<Value>) -> (result: Result<Value, EvaluationError>)
    ensures
        outcome(result) == replicate_spec(views(inputs@)),
{
    let text = match text_argument(&inputs, 0) {
        Ok(text) => text,
        Err(error) => return Err(error),
    };
    let count = match number_argument(&inputs, 1) {
        Ok(number) => number,
        Err(error) => return Err(error),
    };
    replicate(text, count)
}

/// What `space` returns for an argument list: a run of spaces, where the
/// count is not negative and at most `isize::MAX`.
pub open spec fn space_spec(arguments: Seq<ValueView>) -> Result<ValueView, EvaluationError> {
    match number_at(arguments, 0) {
        Err(error) => Err(error),
        Ok(count) => if count < 0 {
            Err(EvaluationError::NegativeCount)
        } else if count > isize::MAX {
            Err(EvaluationError::ResultTooLarge)
        } else {
            Ok(ValueView::Text(spaces(count as nat)))
        },
    }
}

/// `space(n)`: a text of `n` spaces.
pub fn text_space(inputs: Vec<Value>) -> (result: Result<Value, EvaluationError>)
    ensures
        outcome(result) == space_spec(views(inputs@)),
{
    let n = match number_argument(&inputs, 0) {
        Ok(number) => number,
        Err(error) => return Err(error),
    };
    proof {
        reveal_strlit(" ");
        assert(" "@ =~= seq![' ']);
        assert(is_ascii_chars(" "@));
        lemma_byte_length(" "@);
        if n >= 0 {
            lemma_repeated_space(n as nat);
        }
    }
    replicate(" ", n)
}

/// What `trim` returns for an argument list.
pub open spec fn trim_spec(arguments: Seq<ValueView>) -> Result<ValueView, EvaluationError> {
    match text_at(arguments, 0) {
        Err(error) => Err(error),
        Ok(text) => Ok(ValueView::Text(trim_of(text))),
    }
}

/// `trim(text)`: the text without leading and trailing whitespace.
pub fn text_trim(inputs: Vec<Value>) -> (result: Result<Value, EvaluationError>)
    ensures
        outcome(result) == trim_spec(views(inputs@)),
{
    match text_argument(&inputs, 0) {
        Ok(text) => Ok(Value::Text(trim(text).to_owned())),
        Err(error) => Err(error),
    }
}

/// What `ltrim` returns for an argument list.
pub open spec fn left_trim_spec(arguments: Seq<ValueView>) -> Result<ValueView, EvaluationError> {
    match text_at(arguments, 0) {
        Err(error) => Err(error),
        Ok(text) => Ok(ValueView::Text(trim_start_of(text))),
    }
}

/// `ltrim(text)`: the text without leading whitespace.
pub fn text_left_trim(inputs: Vec<Value>) -> (result: Result<Value, EvaluationError>)
    ensures
        outcome(result) == left_trim_spec(views(inputs@)),
{
    match text_argument(&inputs, 0) {
        Ok(text) => Ok(Value::Text(trim_start(text).to_owned())),
        Err(error) => Err(error),
    }
}

/// What `rtrim` returns for an argument list.
pub open spec fn right_trim_spec(arguments: Seq<ValueView>) -> Result<ValueView, EvaluationError> {
    match text_at(arguments, 0) {
        Err(error) => Err(error),
        Ok(text) => Ok(ValueView::Text(trim_end_of(text))),
    }
}

/// `rtrim(text)`: the text without trailing whitespace.
pub fn text_right_trim(inputs: Vec<Value>) -> (result: Result<Value, EvaluationError>)
    ensures
        outcome(result) == right_trim_spec(views(inputs@)),
{
    match text_argument(&inputs, 0) {
        Ok(text) => Ok(Value::Text(trim_end(text).to_owned())),
        Err(error) => Err(error),
    }
}

/// A length as a number value, where it fits in 64 bits.
pub open spec fn length_value(length: nat) -> Result<ValueView, EvaluationError> {
    if length <= i64::MAX {
        Ok(ValueView::Number(length as int))
    } else {
        Err(EvaluationError::ResultTooLarge)
    }
}

/// A length as a number value.
fn length_result(length: usize) -> (result: Result<Value, EvaluationError>)
    ensures
        outcome(result) == length_value(length as nat),
{
    let wide = length as u64;
    if wide > 0x7fff_ffff_ffff_ffff {
        Err(EvaluationError::ResultTooLarge)
    } else {
        Ok(Value::Number(wide as i64))
    }
}

/// What `len` returns for an argument list: the number of characters.
pub open spec fn len_spec(arguments: Seq<ValueView>) -> Result<ValueView, EvaluationError> {
    match text_at(arguments, 0) {
        Err(error) => Err(error),
        Ok(text) => length_value(text.len()),
    }
}

/// `len(text)`: the number of characters of the text.
pub fn text_len(inputs: Vec<Value>) -> (result: Result<Value, EvaluationError>)
    ensures
        outcome(result) == len_spec(views(inputs@)),
{
    match text_argument(&inputs, 0) {
        Ok(text) => length_result(text.unicode_len()),
        Err(error) => Err(error),
    }
}

/// The code point of the first character of a text; zero for the empty
/// text.
pub open spec fn ascii_of(text: Seq<char>) -> int {
    if text.len() == 0 {
        0
    } else {
        text[0] as int
    }
}

/// What `ascii` returns for an argument list.
pub open spec fn ascii_spec(arguments: Seq<ValueView>) -> Result<ValueView, EvaluationError> {
    match text_at(arguments, 0) {
        Err(error) => Err(error),
        Ok(text) => Ok(ValueView::Number(ascii_of(text))),
    }
}

/// `ascii(text)`: the code point of the first character.
pub fn text_ascii(inputs: Vec<Value>) -> (result: Result<Value, EvaluationError>)
    ensures
        outcome(result) == ascii_spec(views(inputs@)),
{
    let text = match text_argument(&inputs, 0) {
        Ok(text) => text,
        Err(error) => return Err(error),
    };
    if text.is_empty() {
        return Ok(Value::Number(0));
    }
    Ok(Value::Number(text.get_char(0) as i64))
}

/// What `datalength` returns for an argument list: the number of bytes of
/// the text in UTF-8.
pub open spec fn datalength_spec(arguments: Seq<ValueView>) -> Result<ValueView, EvaluationError> {
    match text_at(arguments, 0) {
        Err(error) => Err(error),
        Ok(text) => length_value(byte_length(text)),
    }
}

/// `datalength(text)`: the number of bytes of the text.
pub fn text_datalength(inputs: Vec<Value>) -> (result: Result<Value, EvaluationError>)
    ensures
        outcome(result) == datalength_spec(views(inputs@)),
{
    match text_argument(&inputs, 0) {
        Ok(text) => length_result(text.as_bytes().len()),
        Err(error) => Err(error),
    }
}

/// Whether a number is the code of a character: a Unicode scalar value.
pub open spec fn is_char_code(code: int) -> bool {
    0 <= code <= 0xD7FF || 0xE000 <= code <= 0x10FFFF
}

/// The text that holds the character with the given code and nothing else;
/// the empty text where no character has that code.
pub open spec fn char_of(code: int) -> Seq<char> {
    if is_char_code(code) {
        seq![code as char]
    } else {
        Seq::empty()
    }
}

/// What `char` returns for an argument list.
pub open spec fn char_spec(arguments: Seq<ValueView>) -> Result<ValueView, EvaluationError> {
    match number_at(arguments, 0) {
        Err(error) => Err(error),
        Ok(code) => Ok(ValueView::Text(char_of(code))),
    }
}

/// `char(code)`: the character with the given code point.
pub fn text_char(inputs: Vec<Value>) -> (result: Result<Value, EvaluationError>)
    ensures
        outcome(result) == char_spec(views(inputs@)),
{
    let code = match number_argument(&inputs, 0) {
        Ok(number) => number,
        Err(error) => return Err(error),
    };
    let mut text = String::new();
    if 0 <= code && code <= 0x10FFFF {
        if let Some(character) = char::from_u32(code as u32) {
            text.push(character);
            proof {
                assert(text@ =~= seq![character]);
            }
        }
    }
    Ok(Value::Text(text))
}

/// The scalar functions that the registry knows.
#[derive(Clone, Copy, Debug, PartialEq, Eq, Structural)]
pub enum ScalarFunction {
    Lower,
    Upper,
    Reverse,
    Replicate,
    Space,
    Trim,
    LeftTrim,
    RightTrim,
    Len,
    Ascii,
    Left,
    DataLength,
    Char,
}

/// The function registered under a name, if there is one. Names are
/// case-sensitive.
pub open spec fn function_named(name: Seq<char>) -> Option<ScalarFunction> {
    if name == "lower"@ {
        Some(ScalarFunction::Lower)
    } else if name == "upper"@ {
        Some(ScalarFunction::Upper)
    } else if name == "reverse"@ {
        Some(ScalarFunction::Reverse)
    } else if name == "replicate"@ {
        Some(ScalarFunction::Replicate)
    } else if name == "space"@ {
        Some(ScalarFunction::Space)
    } else if name == "trim"@ {
        Some(ScalarFunction::Trim)
    } else if name == "ltrim"@ {
        Some(ScalarFunction::LeftTrim)
    } else if name == "rtrim"@ {
        Some(ScalarFunction::RightTrim)
    } else if name == "len"@ {
        Some(ScalarFunction::Len)
    } else if name == "ascii"@ {
        Some(ScalarFunction::Ascii)
    } else if name == "left"@ {
        Some(ScalarFunction::Left)
    } else if name == "datalength"@ {
        Some(ScalarFunction::DataLength)
    } else if name == "char"@ {
        Some(ScalarFunction::Char)
    } else {
        None
    }
}

impl ScalarFunction {
    /// The name under which the function is registered.
    pub open spec fn name_of(self) -> Seq<char> {
        match self {
            ScalarFunction::Lower => "lower"@,
            ScalarFunction::Upper => "upper"@,
            ScalarFunction::Reverse => "reverse"@,
            ScalarFunction::Replicate => "replicate"@,
            ScalarFunction::Space => "space"@,
            ScalarFunction::Trim => "trim"@,
            ScalarFunction::LeftTrim => "ltrim"@,
            ScalarFunction::RightTrim => "rtrim"@,
            ScalarFunction::Len => "len"@,
            ScalarFunction::Ascii => "ascii"@,
            ScalarFunction::Left => "left"@,
            ScalarFunction::DataLength => "datalength"@,
            ScalarFunction::Char => "char"@,
        }
    }

    /// The declared signature of the function.
    pub open spec fn signature(self) -> PrototypeView {
        match self {
            ScalarFunction::Replicate | ScalarFunction::Left => PrototypeView {
                parameters: seq![DataType::Text, DataType::Number],
                result: DataType::Text,
            },
            ScalarFunction::Space | ScalarFunction::Char => PrototypeView {
                parameters: seq![DataType::Number],
                result: DataType::Text,
            },
            ScalarFunction::Len | ScalarFunction::Ascii | ScalarFunction::DataLength => PrototypeView {
                parameters: seq![DataType::Text],
                result: DataType::Number,
            },
            _ => PrototypeView { parameters: seq![DataType::Text], result: DataType::Text },
        }
    }

    /// What the function returns for an argument list.
    pub open spec fn result_of(self, arguments: Seq<ValueView>) -> Result<
        ValueView,
        EvaluationError,
    > {
        match self {
            ScalarFunction::Lower => lowercase_spec(arguments),
            ScalarFunction::Upper => uppercase_spec(arguments),
            ScalarFunction::Reverse => reverse_spec(arguments),
            ScalarFunction::Replicate => replicate_spec(arguments),
            ScalarFunction::Space => space_spec(arguments),
            ScalarFunction::Trim => trim_spec(arguments),
            ScalarFunction::LeftTrim => left_trim_spec(arguments),
            ScalarFunction::RightTrim => right_trim_spec(arguments),
            ScalarFunction::Len => len_spec(arguments),
            ScalarFunction::Ascii => ascii_spec(arguments),
            ScalarFunction::Left => left_spec(arguments),
            ScalarFunction::DataLength => datalength_spec(arguments),
            ScalarFunction::Char => char_spec(arguments),
        }
    }

    /// The name under which the function is registered.
    pub fn name(self) -> (name: &'static str)
        ensures
            name@ == self.name_of(),
    {
        match self {
            ScalarFunction::Lower => "lower",
            ScalarFunction::Upper => "upper",
            ScalarFunction::Reverse => "reverse",
            ScalarFunction::Replicate => "replicate",
            ScalarFunction::Space => "space",
            ScalarFunction::Trim => "trim",
            ScalarFunction::LeftTrim => "ltrim",
            ScalarFunction::RightTrim => "rtrim",
            ScalarFunction::Len => "len",
            ScalarFunction::Ascii => "ascii",
            ScalarFunction::Left => "left",
            ScalarFunction::DataLength => "datalength",
            ScalarFunction::Char => "char",
        }
    }

    /// The declared signature of the function.
    pub fn prototype(self) -> (prototype: Prototype)
        ensures
            prototype@ == self.signature(),
    {
        match self {
            ScalarFunction::Replicate | ScalarFunction::Left => {
                let mut parameters = Vec::new();
                parameters.push(DataType::Text);
                parameters.push(DataType::Number);
                proof {
                    assert(parameters@ =~= seq![DataType::Text, DataType::Number]);
                }
                Prototype { parameters, result: DataType::Text }
            },
            ScalarFunction::Space | ScalarFunction::Char => {
                let mut parameters = Vec::new();
                parameters.push(DataType::Number);
                proof {
                    assert(parameters@ =~= seq![DataType::Number]);
                }
                Prototype { parameters, result: DataType::Text }
            },
            ScalarFunction::Len | ScalarFunction::Ascii | ScalarFunction::DataLength => {
                let mut parameters = Vec::new();
                parameters.push(DataType::Text);
                proof {
                    assert(parameters@ =~= seq![DataType::Text]);
                }
                Prototype { parameters, result: DataType::Number }
            },
            _ => {
                let mut parameters = Vec::new();
                parameters.push(DataType::Text);
                proof {
                    assert(parameters@ =~= seq![DataType::Text]);
                }
                Prototype { parameters, result: DataType::Text }
            },
        }
    }

    /// Evaluates the function on an argument list.
    pub fn call(self, inputs: Vec<Value>) -> (result: Result<Value, EvaluationError>)
        ensures
            outcome(result) == self.result_of(views(inputs@)),
    {
        match self {
            ScalarFunction::Lower => text_lowercase(inputs),
            ScalarFunction::Upper => text_uppercase(inputs),
            ScalarFunction::Reverse => text_reverse(inputs),
            ScalarFunction::Replicate => text_replicate(inputs),
            ScalarFunction::Space => text_space(inputs),
            ScalarFunction::Trim => text_trim(inputs),
            ScalarFunction::LeftTrim => text_left_trim(inputs),
            ScalarFunction::RightTrim => text_right_trim(inputs),
            ScalarFunction::Len => text_len(inputs),
            ScalarFunction::Ascii => text_ascii(inputs),
            ScalarFunction::Left => text_left(inputs),
            ScalarFunction::DataLength => text_datalength(inputs),
            ScalarFunction::Char => text_char(inputs),
        }
    }
}

/// Resolves a name to the scalar function registered under it.
pub fn lookup_function(name: &str) -> (found: Option<ScalarFunction>)
    ensures
        found == function_named(name@),
{
    if same_text(name, "lower") {
        Some(ScalarFunction::Lower)
    } else if same_text(name, "upper") {
        Some(ScalarFunction::Upper)
    } else if same_text(name, "reverse") {
        Some(ScalarFunction::Reverse)
    } else if same_text(name, "replicate") {
        Some(ScalarFunction::Replicate)
    } else if same_text(name, "space") {
        Some(ScalarFunction::Space)
    } else if same_text(name, "trim") {
        Some(ScalarFunction::Trim)
    } else if same_text(name, "ltrim") {
        Some(ScalarFunction::LeftTrim)
    } else if same_text(name, "rtrim") {
        Some(ScalarFunction::RightTrim)
    } else if same_text(name, "len") {
        Some(ScalarFunction::Len)
    } else if same_text(name, "ascii") {
        Some(ScalarFunction::Ascii)
    } else if same_text(name, "left") {
        Some(ScalarFunction::Left)
    } else if same_text(name, "datalength") {
        Some(ScalarFunction::DataLength)
    } else if same_text(name, "char") {
        Some(ScalarFunction::Char)
    } else {
        None
    }
}

/// Resolves a name to the declared signature of the scalar function
/// registered under it.
pub fn lookup_function_prototype(name: &str) -> (found: Option<Prototype>)
    ensures
        match found {
            Some(prototype) => function_named(name@) matches Some(function) && prototype@
                == function.signature(),
            None => function_named(name@) is None,
        },
{
    match lookup_function(name) {
        Some(function) => Some(function.prototype()),
        None => None,
    }
}

/// What a call by name returns for an argument list.
pub open spec fn call_spec(name: Seq<char>, arguments: Seq<ValueView>) -> Result<
    ValueView,
    EvaluationError,
> {
    match function_named(name) {
        Some(function) => function.result_of(arguments),
        None => Err(EvaluationError::UnknownFunction),
    }
}

/// Evaluates the scalar function registered under `name` on an argument
/// list.
pub fn call_function(name: &str, args: Vec<Value>) -> (result: Result<Value, EvaluationError>)
    ensures
        outcome(result) == call_spec(name@, views(args@)),
{
    match lookup_function(name) {
        Some(function) => function.call(args),
        None => Err(EvaluationError::UnknownFunction),
    }
}

/// The scalar functions of the registry, each once.
pub fn scalar_functions() -> (all: Vec<ScalarFunction>)
    ensures
        all@.no_duplicates(),
        forall|function: ScalarFunction| all@.contains(function),
{
    let mut all = Vec::new();
    all.push(ScalarFunction::Lower);
    all.push(ScalarFunction::Upper);
    all.push(ScalarFunction::Reverse);
    all.push(ScalarFunction::Replicate);
    all.push(ScalarFunction::Space);
    all.push(ScalarFunction::Trim);
    all.push(ScalarFunction::LeftTrim);
    all.push(ScalarFunction::RightTrim);
    all.push(ScalarFunction::Len);
    all.push(ScalarFunction::Ascii);
    all.push(ScalarFunction::Left);
    all.push(ScalarFunction::DataLength);
    all.push(ScalarFunction::Char);
    proof {
        assert(all@[0] == ScalarFunction::Lower);
        assert(all@[1] == ScalarFunction::Upper);
        assert(all@[2] == ScalarFunction::Reverse);
        assert(all@[3] == ScalarFunction::Replicate);
        assert(all@[4] == ScalarFunction::Space);
        assert(all@[5] == ScalarFunction::Trim);
        assert(all@[6] == ScalarFunction::LeftTrim);
        assert(all@[7] == ScalarFunction::RightTrim);
        assert(all@[8] == ScalarFunction::Len);
        assert(all@[9] == ScalarFunction::Ascii);
        assert(all@[10] == ScalarFunction::Left);
        assert(all@[11] == ScalarFunction::DataLength);
        assert(all@[12] == ScalarFunction::Char);
    }
    all
}

} // verus!
