//! What holds of the functions and aggregations on every input.

use vstd::prelude::*;
use vstd::utf8::is_ascii_chars;
use crate::aggregations::{
    aggregation_named, field_number, max_spec, prefix_max, AggregationFunction,
};
use crate::error::EvaluationError;
use crate::function::{
    ascii_spec, char_of, char_spec, datalength_spec, function_named, is_char_code,
    len_spec, reverse_spec, space_spec, ScalarFunction,
};
use crate::number::{law_parse_integer_text, parse_integer};
use crate::text::{byte_length, lemma_byte_length, spaces};
use crate::validation::{arguments_check, lemma_mismatch_from};
use crate::value::{type_of, types_of, ValueView};

verus! {

/// Reversing a text keeps its length, and reversing it twice gives the text
/// back.
pub proof fn law_reverse(text: Seq<char>)
    ensures
        reverse_spec(seq![ValueView::Text(text)]) == Ok::<ValueView, EvaluationError>(
            ValueView::Text(text.reverse()),
        ),
        len_spec(seq![ValueView::Text(text.reverse())]) == len_spec(seq![ValueView::Text(text)]),
        reverse_spec(seq![ValueView::Text(text.reverse())]) == Ok::<ValueView, EvaluationError>(
            ValueView::Text(text),
        ),
{
    assert(text.reverse().reverse() =~= text);
}

/// A run of `n` spaces has `n` characters, for every count from zero up to
/// the greatest size of an allocation.
pub proof fn law_space_length(n: int)
    requires
        0 <= n <= isize::MAX,
    ensures
        space_spec(seq![ValueView::Number(n)]) == Ok::<ValueView, EvaluationError>(
            ValueView::Text(spaces(n as nat)),
        ),
        len_spec(seq![ValueView::Text(spaces(n as nat))]) == Ok::<ValueView, EvaluationError>(
            ValueView::Number(n),
        ),
{
}

/// A text has at least as many bytes as characters: more where one of its
/// characters is not ASCII, and exactly as many where all are.
pub proof fn law_datalength(text: Seq<char>)
    ensures
        byte_length(text) >= text.len(),
        is_ascii_chars(text) ==> byte_length(text) == text.len(),
        !is_ascii_chars(text) ==> byte_length(text) > text.len(),
        match datalength_spec(seq![ValueView::Text(text)]) {
            Ok(ValueView::Number(bytes)) => {
                &&& len_spec(seq![ValueView::Text(text)]) matches Ok(ValueView::Number(characters))
                &&& bytes >= characters
                &&& is_ascii_chars(text) <==> bytes == characters
            },
            Ok(ValueView::Text(_)) => false,
            Err(error) => error == EvaluationError::ResultTooLarge,
        },
{
    lemma_byte_length(text);
}

/// The code of the character that `char` gives for a code is that code;
/// `ascii` of the empty text, which `char` gives for any other number, is
/// zero.
pub proof fn law_char_ascii(code: int)
    ensures
        char_spec(seq![ValueView::Number(code)]) == Ok::<ValueView, EvaluationError>(
            ValueView::Text(char_of(code)),
        ),
        ascii_spec(seq![ValueView::Text(char_of(code))]) == Ok::<ValueView, EvaluationError>(
            ValueView::Number(
                if is_char_code(code) {
                    code
                } else {
                    0
                },
            ),
        ),
{
    if is_char_code(code) {
        assert(char_of(code)[0] == code as char);
        assert((code as char) as int == code);
    }
}

/// A prefix that has a maximum has a number in each of its rows, none
/// above the maximum and one equal to it.
pub proof fn lemma_prefix_max(rows: Seq<Map<Seq<char>, Seq<char>>>, field: Seq<char>, index: int)
    requires
        0 <= index,
        prefix_max(rows, field, index) is Ok,
    ensures
        forall|k: int|
            0 <= k <= index ==> ((#[trigger] field_number(rows[k], field)) matches Ok(number)
                && number <= prefix_max(rows, field, index)->Ok_0),
        exists|k: int|
            0 <= k <= index && #[trigger] field_number(rows[k], field) == prefix_max(
                rows,
                field,
                index,
            ),
        i64::MIN <= prefix_max(rows, field, index)->Ok_0 <= i64::MAX,
    decreases index,
{
    if index > 0 {
        lemma_prefix_max(rows, field, index - 1);
        let earlier = prefix_max(rows, field, index - 1)->Ok_0;
        let number = field_number(rows[index], field)->Ok_0;
        if number > earlier {
            assert(field_number(rows[index], field) == prefix_max(rows, field, index));
        } else {
            let k = choose|k: int|
                0 <= k <= index - 1 && #[trigger] field_number(rows[k], field) == prefix_max(
                    rows,
                    field,
                    index - 1,
                );
            assert(field_number(rows[k], field) == prefix_max(rows, field, index));
        }
    } else {
        assert(field_number(rows[0], field) == prefix_max(rows, field, index));
    }
}

/// A prefix that has a maximum has one at each shorter prefix, and that one
/// is not greater.
pub proof fn lemma_prefix_max_monotone(
    rows: Seq<Map<Seq<char>, Seq<char>>>,
    field: Seq<char>,
    i: int,
    j: int,
)
    requires
        0 <= i <= j,
        prefix_max(rows, field, j) is Ok,
    ensures
        prefix_max(rows, field, i) is Ok,
        prefix_max(rows, field, i)->Ok_0 <= prefix_max(rows, field, j)->Ok_0,
    decreases j - i,
{
    if i < j {
        lemma_prefix_max_monotone(rows, field, i, j - 1);
    }
}

/// Where `max` gives a result for the row `j`, it gives one for every
/// earlier row `i`. Read as numbers, the result for `i` is not greater
/// than the result for `j`, and the result for `j` is the greatest of the
/// numbers in the field over the rows `0..=j`: none of them is greater and
/// one of them is equal.
pub proof fn law_running_maximum(
    rows: Seq<Map<Seq<char>, Seq<char>>>,
    field: Seq<char>,
    i: int,
    j: int,
)
    requires
        0 <= i <= j < rows.len(),
        max_spec(rows, field, j) is Ok,
    ensures
        max_spec(rows, field, i) is Ok,
        parse_integer(max_spec(rows, field, i)->Ok_0) is Some,
        parse_integer(max_spec(rows, field, j)->Ok_0) is Some,
        parse_integer(max_spec(rows, field, i)->Ok_0)->Some_0 <= parse_integer(
            max_spec(rows, field, j)->Ok_0,
        )->Some_0,
        forall|k: int|
            0 <= k <= j ==> ((#[trigger] field_number(rows[k], field)) matches Ok(number)
                && number <= parse_integer(max_spec(rows, field, j)->Ok_0)->Some_0),
        exists|k: int|
            0 <= k <= j && #[trigger] field_number(rows[k], field) == Ok::<int, EvaluationError>(
                parse_integer(max_spec(rows, field, j)->Ok_0)->Some_0,
            ),
{
    lemma_prefix_max_monotone(rows, field, i, j);
    lemma_prefix_max(rows, field, i);
    lemma_prefix_max(rows, field, j);
    law_parse_integer_text(prefix_max(rows, field, i)->Ok_0);
    law_parse_integer_text(prefix_max(rows, field, j)->Ok_0);
    let k = choose|k: int|
        0 <= k <= j && #[trigger] field_number(rows[k], field) == prefix_max(rows, field, j);
    assert(field_number(rows[k], field) == Ok::<int, EvaluationError>(
        parse_integer(max_spec(rows, field, j)->Ok_0)->Some_0,
    ));
}

/// Every scalar function is found under its own name, so no two functions
/// share a name.
pub proof fn law_function_names(function: ScalarFunction)
    ensures
        function_named(function.name_of()) == Some(function),
{
    reveal_strlit("lower");
    reveal_strlit("upper");
    reveal_strlit("reverse");
    reveal_strlit("replicate");
    reveal_strlit("space");
    reveal_strlit("trim");
    reveal_strlit("ltrim");
    reveal_strlit("rtrim");
    reveal_strlit("len");
    reveal_strlit("ascii");
    reveal_strlit("left");
    reveal_strlit("datalength");
    reveal_strlit("char");
    let name = function.name_of();
    assert(name.len() >= 3);
    assert("lower"@[0] == 'l' && "lower"@[1] == 'o');
    assert("upper"@[0] == 'u');
    assert("reverse"@[0] == 'r' && "reverse"@[1] == 'e' && "reverse"@[2] == 'v');
    assert("replicate"@[0] == 'r' && "replicate"@[1] == 'e' && "replicate"@[2] == 'p');
    assert("space"@[0] == 's');
    assert("trim"@[0] == 't');
    assert("ltrim"@[0] == 'l' && "ltrim"@[1] == 't');
    assert("rtrim"@[0] == 'r' && "rtrim"@[1] == 't');
    assert("len"@[0] == 'l' && "len"@[1] == 'e' && "len"@[2] == 'n');
    assert("ascii"@[0] == 'a');
    assert("left"@[0] == 'l' && "left"@[1] == 'e' && "left"@[2] == 'f');
    assert("datalength"@[0] == 'd');
    assert("char"@[0] == 'c');
}

/// Every aggregation is found under its own name.
pub proof fn law_aggregation_names(aggregation: AggregationFunction)
    ensures
        aggregation_named(aggregation.name_of()) == Some(aggregation),
{
}

/// A call whose arguments fit the declared signature of a function reads
/// no argument that is missing or of another type: it gives a value of the
/// declared result type, or fails on a negative count or on a result that
/// is too large.
pub proof fn law_validated_call(function: ScalarFunction, arguments: Seq<ValueView>)
    requires
        arguments_check(function.signature().parameters, types_of(arguments)) is Ok,
    ensures
        match function.result_of(arguments) {
            Ok(value) => type_of(value) == function.signature().result,
            Err(error) => error == EvaluationError::NegativeCount || error
                == EvaluationError::ResultTooLarge,
        },
{
    let parameters = function.signature().parameters;
    let types = types_of(arguments);
    lemma_mismatch_from(parameters, types, 0);
    assert(arguments.len() == parameters.len());
    assert(parameters[0] == types[0]);
    if parameters.len() > 1 {
        assert(parameters[1] == types[1]);
    }
}

} // verus!
