//! Texts as sequences of Unicode scalar values: the operations the scalar
//! functions are built from, each with its meaning as a function on
//! `Seq<char>`.

use vstd::prelude::*;
use vstd::string::*;
use vstd::utf8::*;

verus! {

/// The lowercase form of a text under the Unicode case mapping that
/// `str::to_lowercase` applies.
pub uninterp spec fn lowercase_of(text: Seq<char>) -> Seq<char>;

/// The uppercase form of a text under the Unicode case mapping that
/// `str::to_uppercase` applies.
pub uninterp spec fn uppercase_of(text: Seq<char>) -> Seq<char>;

/// Whether a character has the Unicode property `White_Space`, as
/// `char::is_whitespace` reports it.
pub uninterp spec fn whitespace(c: char) -> bool;

/// `str::to_lowercase`: the result depends on the characters of the text
/// alone. Nothing else is claimed of it.
pub assume_specification[ str::to_lowercase ](s: &str) -> (r: String)
    ensures
        r@ == lowercase_of(s@),
;

/// `str::to_uppercase`: the result depends on the characters of the text
/// alone. Nothing else is claimed of it.
pub assume_specification[ str::to_uppercase ](s: &str) -> (r: String)
    ensures
        r@ == uppercase_of(s@),
;

/// `char::is_whitespace`: the answer depends on the character alone.
pub assume_specification[ char::is_whitespace ](c: char) -> (r: bool)
    ensures
        r == whitespace(c),
;

/// `char::from_u32`: the character with the given code where the code is a
/// Unicode scalar value (at most 0x10FFFF and no surrogate), `None`
/// otherwise.
pub assume_specification[ char::from_u32 ](i: u32) -> (r: Option<char>)
    ensures
        r == (if is_scalar(i) {
            Some(i as char)
        } else {
            None::<char>
        }),
;

/// `String::push`: the character is appended at the end.
pub assume_specification[ String::push ](s: &mut String, ch: char)
    ensures
        final(s)@ == old(s)@.push(ch),
;

/// A text repeated `count` times.
pub open spec fn repeated(text: Seq<char>, count: nat) -> Seq<char>
    decreases count,
{
    if count == 0 {
        Seq::empty()
    } else {
        repeated(text, (count - 1) as nat) + text
    }
}

/// `str::repeat`: the text concatenated with itself `n` times. The call
/// panics where the byte length of the result overflows the capacity of an
/// allocation; the precondition leaves those inputs out.
pub assume_specification[ str::repeat ](s: &str, n: usize) -> (r: String)
    requires
        s.spec_bytes().len() * n <= isize::MAX,
    ensures
        r@ == repeated(s@, n as nat),
;

/// The characters of a text.
pub fn chars_of(s: &str) -> (v: Vec<char>)
    ensures
        v@ == s@,
{
    let mut v: Vec<char> = Vec::new();
    for c in it: s.chars()
        invariant
            v@ == s@.take(it.index() as int),
            it.seq() == s@,
    {
        v.push(c);
    }
    v
}

/// Whether two texts hold the same characters.
pub fn same_text(a: &str, b: &str) -> (r: bool)
    ensures
        r == (a@ == b@),
{
    let x = a.as_bytes();
    let y = b.as_bytes();
    if x.len() != y.len() {
        return false;
    }
    let mut i: usize = 0;
    while i < x.len()
        invariant
            i <= x.len(),
            x@.len() == y@.len(),
            x@ == a.spec_bytes(),
            y@ == b.spec_bytes(),
            forall|j: int| 0 <= j < i ==> x@[j] == y@[j],
        decreases x.len() - i,
    {
        if x[i] != y[i] {
            return false;
        }
        i = i + 1;
    }
    proof {
        assert(x@ =~= y@);
        encode_utf8_decode_utf8(a@);
        encode_utf8_decode_utf8(b@);
    }
    true
}

/// For each character of a text, whether it is whitespace.
pub open spec fn whitespace_flags(text: Seq<char>) -> Seq<bool> {
    Seq::new(text.len(), |i: int| whitespace(text[i]))
}

/// How many `true` a list of flags starts with.
pub open spec fn leading_run(flags: Seq<bool>) -> nat
    decreases flags.len(),
{
    if flags.len() > 0 && flags[0] {
        1 + leading_run(flags.drop_first())
    } else {
        0
    }
}

/// How many `true` a list of flags ends with.
pub open spec fn trailing_run(flags: Seq<bool>) -> nat
    decreases flags.len(),
{
    if flags.len() > 0 && flags.last() {
        1 + trailing_run(flags.drop_last())
    } else {
        0
    }
}

/// A text without its leading whitespace.
pub open spec fn trim_start_of(text: Seq<char>) -> Seq<char> {
    text.skip(leading_run(whitespace_flags(text)) as int)
}

/// A text without its trailing whitespace.
pub open spec fn trim_end_of(text: Seq<char>) -> Seq<char> {
    text.take(text.len() - trailing_run(whitespace_flags(text)))
}

/// A text without its leading and trailing whitespace.
pub open spec fn trim_of(text: Seq<char>) -> Seq<char> {
    trim_end_of(trim_start_of(text))
}

/// The leading run ends at `k` where every flag before `k` is set and the
/// flag at `k`, if there is one, is not.
pub proof fn lemma_leading_run(flags: Seq<bool>, k: int)
    requires
        0 <= k <= flags.len(),
        forall|j: int| 0 <= j < k ==> #[trigger] flags[j],
        k < flags.len() ==> !flags[k],
    ensures
        leading_run(flags) == k,
    decreases k,
{
    if k > 0 {
        let rest = flags.drop_first();
        assert(flags[0]);
        assert forall|j: int| 0 <= j < k - 1 implies #[trigger] rest[j] by {
            assert(rest[j] == flags[j + 1]);
        }
        lemma_leading_run(rest, k - 1);
    }
}

/// The trailing run starts at `k` where every flag from `k` on is set and
/// the flag before `k`, if there is one, is not.
pub proof fn lemma_trailing_run(flags: Seq<bool>, k: int)
    requires
        0 <= k <= flags.len(),
        forall|j: int| k <= j < flags.len() ==> #[trigger] flags[j],
        k > 0 ==> !flags[k - 1],
    ensures
        trailing_run(flags) == flags.len() - k,
    decreases flags.len() - k,
{
    if k < flags.len() {
        let rest = flags.drop_last();
        assert(flags[flags.len() - 1]);
        assert forall|j: int| k <= j < rest.len() implies #[trigger] rest[j] by {
            assert(rest[j] == flags[j]);
        }
        lemma_trailing_run(rest, k);
    }
}

/// The flag after the leading run, if there is one, is not set.
pub proof fn lemma_leading_run_ends(flags: Seq<bool>)
    ensures
        leading_run(flags) <= flags.len(),
        leading_run(flags) < flags.len() ==> !flags[leading_run(flags) as int],
    decreases flags.len(),
{
    if flags.len() > 0 && flags[0] {
        let rest = flags.drop_first();
        lemma_leading_run_ends(rest);
        if leading_run(rest) < rest.len() {
            assert(rest[leading_run(rest) as int] == flags[leading_run(flags) as int]);
        }
    }
}

/// The trailing run is no longer than the list, and it lies behind every
/// flag that is not set: cutting the list off before such a flag leaves
/// the run as it is.
pub proof fn lemma_trailing_run_of_tail(flags: Seq<bool>, from: int)
    requires
        0 <= from <= flags.len(),
        from < flags.len() ==> !flags[from],
    ensures
        trailing_run(flags.skip(from)) <= flags.len() - from,
        from < flags.len() ==> trailing_run(flags.skip(from)) == trailing_run(flags),
        from == flags.len() ==> trailing_run(flags.skip(from)) == 0,
    decreases flags.len() - from,
{
    let tail = flags.skip(from);
    if from < flags.len() {
        if flags.last() {
            assert(from < flags.len() - 1);
            let shorter = flags.drop_last();
            lemma_trailing_run_of_tail(shorter, from);
            assert(shorter.skip(from) =~= tail.drop_last());
            assert(tail.last() == flags.last());
        } else {
            assert(tail.last() == flags.last());
        }
    }
}

/// For each character of a text, whether it is whitespace.
pub fn classify_whitespace(s: &str) -> (flags: Vec<bool>)
    ensures
        flags@ == whitespace_flags(s@),
{
    let mut flags: Vec<bool> = Vec::new();
    for c in it: s.chars()
        invariant
            flags@ == whitespace_flags(s@.take(it.index() as int)),
            it.seq() == s@,
    {
        let ghost before = flags@;
        flags.push(c.is_whitespace());
        proof {
            assert(flags@ =~= whitespace_flags(s@.take(it.index() + 1)));
        }
    }
    proof {
        assert(s@.take(s@.len() as int) =~= s@);
    }
    flags
}

/// The length of the run of set flags at the start of the list.
pub fn leading_run_length(flags: &Vec<bool>) -> (k: usize)
    ensures
        k == leading_run(flags@),
        k <= flags@.len(),
{
    let mut k: usize = 0;
    while k < flags.len()
        invariant
            k <= flags.len(),
            forall|j: int| 0 <= j < k ==> #[trigger] flags@[j],
        decreases flags.len() - k,
    {
        if !flags[k] {
            proof {
                lemma_leading_run(flags@, k as int);
            }
            return k;
        }
        k = k + 1;
    }
    proof {
        lemma_leading_run(flags@, k as int);
    }
    k
}

/// The length of the run of set flags at the end of the list.
pub fn trailing_run_length(flags: &Vec<bool>) -> (k: usize)
    ensures
        k == trailing_run(flags@),
        k <= flags@.len(),
{
    let count = flags.len();
    let mut k: usize = 0;
    while k < count
        invariant
            k <= count,
            count == flags.len(),
            forall|j: int| count - k <= j < count ==> #[trigger] flags@[j],
        decreases count - k,
    {
        if !flags[count - k - 1] {
            proof {
                lemma_trailing_run(flags@, count - k);
            }
            return k;
        }
        k = k + 1;
    }
    proof {
        lemma_trailing_run(flags@, 0);
    }
    k
}

/// The text without its leading whitespace.
pub fn trim_start(s: &str) -> (r: &str)
    ensures
        r@ == trim_start_of(s@),
{
    let flags = classify_whitespace(s);
    let start = leading_run_length(&flags);
    let r = s.substring_char(start, flags.len());
    proof {
        assert(s@.subrange(start as int, s@.len() as int) =~= s@.skip(start as int));
    }
    r
}

/// The text without its trailing whitespace.
pub fn trim_end(s: &str) -> (r: &str)
    ensures
        r@ == trim_end_of(s@),
{
    let flags = classify_whitespace(s);
    let end = flags.len() - trailing_run_length(&flags);
    let r = s.substring_char(0, end);
    proof {
        assert(s@.subrange(0, end as int) =~= s@.take(end as int));
    }
    r
}

/// The text without its leading and trailing whitespace.
pub fn trim(s: &str) -> (r: &str)
    ensures
        r@ == trim_of(s@),
{
    let flags = classify_whitespace(s);
    let start = leading_run_length(&flags);
    let end = if start == flags.len() {
        start
    } else {
        flags.len() - trailing_run_length(&flags)
    };
    proof {
        let tail = s@.skip(start as int);
        assert(whitespace_flags(tail) =~= flags@.skip(start as int));
        lemma_leading_run_ends(flags@);
        lemma_trailing_run_of_tail(flags@, start as int);
    }
    let r = s.substring_char(start, end);
    proof {
        let tail = s@.skip(start as int);
        assert(s@.subrange(start as int, end as int) =~= tail.take(end - start));
    }
    r
}

/// The characters of the text in reverse order.
pub fn reverse(s: &str) -> (r: String)
    ensures
        r@ == s@.reverse(),
{
    let chars = chars_of(s);
    let count = chars.len();
    let mut r = String::new();
    let mut i: usize = count;
    while i > 0
        invariant
            i <= count,
            count == chars.len(),
            r@ == chars@.reverse().take(count - i),
        decreases i,
    {
        i = i - 1;
        r.push(chars[i]);
        proof {
            let backwards = chars@.reverse();
            assert(backwards[count - i - 1] == chars@[i as int]);
            assert(backwards.take(count - i) =~= backwards.take(count - i - 1).push(
                backwards[count - i - 1],
            ));
        }
    }
    proof {
        assert(chars@.reverse().take(count as int) =~= chars@.reverse());
    }
    r
}

/// The number of bytes in the UTF-8 encoding of a text.
pub open spec fn byte_length(text: Seq<char>) -> nat {
    encode_utf8(text).len()
}

/// A text of `count` spaces.
pub open spec fn spaces(count: nat) -> Seq<char> {
    Seq::new(count, |i: int| ' ')
}

/// A character takes at least one byte, and exactly one where it is ASCII
/// and only there.
pub proof fn lemma_char_width(c: char)
    ensures
        encode_scalar(c as u32).len() >= 1,
        encode_scalar(c as u32).len() == 1 <==> '\0' <= c <= '\u{7f}',
{
}

/// A text has at least as many bytes as characters, and exactly as many
/// where all its characters are ASCII and only there.
pub proof fn lemma_byte_length(text: Seq<char>)
    ensures
        byte_length(text) >= text.len(),
        byte_length(text) == text.len() <==> is_ascii_chars(text),
    decreases text.len(),
{
    if text.len() > 0 {
        let rest = text.drop_first();
        lemma_byte_length(rest);
        let first = encode_scalar(text[0] as u32);
        lemma_char_width(text[0]);
        assert(byte_length(text) == first.len() + byte_length(rest));
        assert(encode_utf8(text) == first + encode_utf8(rest));
        if is_ascii_chars(text) {
            assert forall|i: int| 0 <= i < rest.len() implies '\0' <= #[trigger] rest[i]
                <= '\u{7f}' by {
                assert(rest[i] == text[i + 1]);
            }
            assert(text[0] <= '\u{7f}');
        }
        if byte_length(text) == text.len() {
            assert forall|i: int| 0 <= i < text.len() implies '\0' <= #[trigger] text[i]
                <= '\u{7f}' by {
                if i > 0 {
                    assert(text[i] == rest[i - 1]);
                }
            }
        }
    }
}

/// Repeating a single space gives a run of spaces.
pub proof fn lemma_repeated_space(count: nat)
    ensures
        repeated(seq![' '], count) == spaces(count),
    decreases count,
{
    if count > 0 {
        lemma_repeated_space((count - 1) as nat);
        assert(spaces((count - 1) as nat) + seq![' '] =~= spaces(count));
    } else {
        assert(spaces(0) =~= Seq::<char>::empty());
    }
}

} // verus!
