//! Text building blocks: comparison, escaping by character, trimming, lines,
//! joining and decimal numbers.
use vstd::prelude::*;
use vstd::string::*;
use vstd::utf8::*;

verus! {

/// `String::push` appends one character to the end of the string.
pub assume_specification[ String::push ](s: &mut String, ch: char)
    ensures
        final(s)@ == old(s)@.push(ch),
;

/// What `{:?}` prints for a text: the text in double quotes, with the characters
/// that the `Debug` implementation of `str` escapes written as escapes.
pub uninterp spec fn debug_quoted(text: Seq<char>) -> Seq<char>;

/// Calls the `Debug` formatter of `str` through `format!`. The result is a
/// function of the text alone; which characters are escaped is left unsaid.
#[verifier::external_body]
pub(crate) fn debug_text(text: &str) -> (out: String)
    ensures
        out@ == debug_quoted(text@),
{
    format!("{:?}", text)
}

/// The views of a list of strings.
pub open spec fn texts(list: Seq<String>) -> Seq<Seq<char>> {
    list.map_values(|s: String| s@)
}

/// The view of an optional string.
pub open spec fn opt_text(value: Option<String>) -> Option<Seq<char>> {
    match value {
        Some(s) => Some(s@),
        None => None,
    }
}

/// The text of an optional string, or `-` where there is none.
pub open spec fn or_dash(value: Option<Seq<char>>) -> Seq<char> {
    match value {
        Some(s) => s,
        None => "-"@,
    }
}

/// Whether two byte strings are equal.
pub fn bytes_eq(a: &[u8], b: &[u8]) -> (same: bool)
    ensures
        same == (a@ == b@),
{
    if a.len() != b.len() {
        return false;
    }
    for i in 0..a.len()
        invariant
            a@.len() == b@.len(),
            forall|j: int| 0 <= j < i ==> a@[j] == b@[j],
    {
        if a[i] != b[i] {
            return false;
        }
    }
    proof {
        assert(a@ =~= b@);
    }
    true
}

/// Two texts with the same UTF-8 encoding are the same text.
pub proof fn lemma_encoding_determines_text(a: Seq<char>, b: Seq<char>)
    ensures
        encode_utf8(a) == encode_utf8(b) <==> a == b,
{
    encode_utf8_decode_utf8(a);
    encode_utf8_decode_utf8(b);
}

/// Whether two texts are equal.
pub fn text_eq(a: &str, b: &str) -> (same: bool)
    ensures
        same == (a@ == b@),
{
    proof {
        lemma_encoding_determines_text(a@, b@);
    }
    bytes_eq(a.as_bytes(), b.as_bytes())
}

/// The text that results from replacing each character by `f` of it.
pub open spec fn concat_map(s: Seq<char>, f: spec_fn(char) -> Seq<char>) -> Seq<char>
    decreases s.len(),
{
    if s.len() == 0 {
        Seq::empty()
    } else {
        concat_map(s.drop_last(), f) + f(s.last())
    }
}

/// Taking one more character appends its replacement.
pub proof fn lemma_concat_map_step(s: Seq<char>, f: spec_fn(char) -> Seq<char>, i: int)
    requires
        0 <= i < s.len(),
    ensures
        concat_map(s.take(i + 1), f) == concat_map(s.take(i), f) + f(s[i]),
{
    assert(s.take(i + 1).drop_last() =~= s.take(i));
}

/// The replacement of a text starts with the replacement of its first character.
pub proof fn lemma_concat_map_first(s: Seq<char>, f: spec_fn(char) -> Seq<char>)
    requires
        s.len() > 0,
    ensures
        concat_map(s, f) == f(s[0]) + concat_map(s.drop_first(), f),
    decreases s.len(),
{
    if s.len() == 1 {
        assert(s.drop_first() =~= Seq::<char>::empty());
        assert(s.drop_last() =~= Seq::<char>::empty());
        assert(concat_map(s, f) =~= f(s[0]) + concat_map(s.drop_first(), f));
    } else {
        lemma_concat_map_first(s.drop_last(), f);
        assert(s.drop_last().drop_first() =~= s.drop_first().drop_last());
        assert(concat_map(s, f) =~= f(s[0]) + concat_map(s.drop_first(), f));
    }
}

/// A letter or digit of ASCII.
pub open spec fn is_ascii_alphanumeric(c: char) -> bool {
    ('a' <= c && c <= 'z') || ('A' <= c && c <= 'Z') || ('0' <= c && c <= '9')
}

/// Whether a character is a letter or digit of ASCII.
pub fn ascii_alphanumeric(c: char) -> (yes: bool)
    ensures
        yes == is_ascii_alphanumeric(c),
{
    ('a' <= c && c <= 'z') || ('A' <= c && c <= 'Z') || ('0' <= c && c <= '9')
}

/// The texts of a list, with a separator between each two neighbours.
pub open spec fn joined(parts: Seq<Seq<char>>, sep: Seq<char>) -> Seq<char>
    decreases parts.len(),
{
    if parts.len() == 0 {
        Seq::empty()
    } else if parts.len() == 1 {
        parts[0]
    } else {
        joined(parts.drop_last(), sep) + sep + parts.last()
    }
}

/// Joins texts with a separator.
pub fn join(parts: &Vec<String>, sep: &str) -> (out: String)
    ensures
        out@ == joined(texts(parts@), sep@),
{
    let mut out = String::new();
    for i in 0..parts.len()
        invariant
            out@ == joined(texts(parts@).take(i as int), sep@),
    {
        proof {
            assert(texts(parts@).take(i + 1).drop_last() =~= texts(parts@).take(i as int));
        }
        if i > 0 {
            out.append(sep);
        }
        out.append(parts[i].as_str());
        assert(out@ =~= joined(texts(parts@).take(i + 1), sep@));
    }
    proof {
        assert(texts(parts@).take(parts@.len() as int) =~= texts(parts@));
    }
    out
}

/// The characters with the Unicode property `White_Space`.
pub open spec fn is_white_space(c: char) -> bool {
    ||| '\u{9}' <= c <= '\u{d}'
    ||| c == '\u{20}'
    ||| c == '\u{85}'
    ||| c == '\u{a0}'
    ||| c == '\u{1680}'
    ||| '\u{2000}' <= c <= '\u{200a}'
    ||| c == '\u{2028}'
    ||| c == '\u{2029}'
    ||| c == '\u{202f}'
    ||| c == '\u{205f}'
    ||| c == '\u{3000}'
}

/// Whether a character is white space.
pub fn white_space(c: char) -> (yes: bool)
    ensures
        yes == is_white_space(c),
{
    ('\u{9}' <= c && c <= '\u{d}') || c == '\u{20}' || c == '\u{85}' || c == '\u{a0}'
        || c == '\u{1680}' || ('\u{2000}' <= c && c <= '\u{200a}') || c == '\u{2028}'
        || c == '\u{2029}' || c == '\u{202f}' || c == '\u{205f}' || c == '\u{3000}'
}

/// A text without its leading white space.
pub open spec fn trimmed_start(s: Seq<char>) -> Seq<char>
    decreases s.len(),
{
    if s.len() > 0 && is_white_space(s[0]) {
        trimmed_start(s.drop_first())
    } else {
        s
    }
}

/// A text without its trailing white space.
pub open spec fn trimmed_end(s: Seq<char>) -> Seq<char>
    decreases s.len(),
{
    if s.len() > 0 && is_white_space(s.last()) {
        trimmed_end(s.drop_last())
    } else {
        s
    }
}

/// A text without its leading and trailing white space.
pub open spec fn trimmed(s: Seq<char>) -> Seq<char> {
    trimmed_end(trimmed_start(s))
}

proof fn lemma_trimmed_start_push(s: Seq<char>, c: char)
    ensures
        trimmed_start(s.push(c)) == (if trimmed_start(s).len() > 0 {
            trimmed_start(s).push(c)
        } else if is_white_space(c) {
            Seq::empty()
        } else {
            seq![c]
        }),
    decreases s.len(),
{
    if s.len() == 0 {
        reveal_with_fuel(trimmed_start, 2);
        assert(s.push(c).drop_first() =~= Seq::<char>::empty());
        assert(s.push(c) =~= seq![c]);
    } else if is_white_space(s[0]) {
        assert(s.push(c).drop_first() =~= s.drop_first().push(c));
        lemma_trimmed_start_push(s.drop_first(), c);
    }
}

/// Removes leading and trailing white space.
pub fn trim(text: &str) -> (out: String)
    ensures
        out@ == trimmed(text@),
{
    let mut out = String::new();
    let mut pending = String::new();
    for c in it: text.chars()
        invariant
            it.seq() == text@,
            trimmed_start(text@.take(it.index())) == out@ + pending@,
            trimmed_end(out@ + pending@) == out@,
            out@.len() == 0 ==> pending@.len() == 0,
    {
        let ghost before = text@.take(it.index());
        proof {
            assert(text@.take(it.index() + 1) =~= before.push(c));
            lemma_trimmed_start_push(before, c);
        }
        if white_space(c) {
            if !out.as_str().is_empty() {
                let ghost kept = out@ + pending@;
                pending.push(c);
                proof {
                    assert(out@ + pending@ =~= kept.push(c));
                    assert(kept.push(c).drop_last() =~= kept);
                }
            }
        } else {
            let ghost kept = out@ + pending@;
            out.append(pending.as_str());
            out.push(c);
            pending = String::new();
            proof {
                assert(out@ + pending@ =~= kept.push(c));
                assert(out@ =~= kept.push(c));
            }
        }
    }
    proof {
        assert(text@.take(text@.len() as int) =~= text@);
    }
    out
}

/// Trimming leaves no white space at either end.
pub proof fn lemma_trimmed_ends(s: Seq<char>)
    ensures
        trimmed(s).len() > 0 ==> !is_white_space(trimmed(s)[0]) && !is_white_space(
            trimmed(s).last(),
        ),
{
    lemma_trimmed_start_first(s);
    lemma_trimmed_end_last(trimmed_start(s));
}

proof fn lemma_trimmed_start_first(s: Seq<char>)
    ensures
        trimmed_start(s).len() > 0 ==> !is_white_space(trimmed_start(s)[0]),
    decreases s.len(),
{
    if s.len() > 0 && is_white_space(s[0]) {
        lemma_trimmed_start_first(s.drop_first());
    }
}

proof fn lemma_trimmed_end_last(s: Seq<char>)
    ensures
        trimmed_end(s).len() > 0 ==> !is_white_space(trimmed_end(s).last()) && trimmed_end(s)[0]
            == s[0],
        trimmed_end(s).len() <= s.len(),
    decreases s.len(),
{
    if s.len() > 0 && is_white_space(s.last()) {
        lemma_trimmed_end_last(s.drop_last());
    }
}

/// Trimming a trimmed text changes nothing.
pub proof fn law_trim_is_idempotent(s: Seq<char>)
    ensures
        trimmed(trimmed(s)) == trimmed(s),
{
    lemma_trimmed_ends(s);
}

/// A line without the carriage return that may end it.
pub open spec fn without_return(line: Seq<char>) -> Seq<char> {
    if line.len() > 0 && line.last() == '\r' {
        line.drop_last()
    } else {
        line
    }
}

/// The lines of a text that a line feed has ended, and the characters after the
/// last line feed.
pub open spec fn line_state(s: Seq<char>) -> (Seq<Seq<char>>, Seq<char>)
    decreases s.len(),
{
    if s.len() == 0 {
        (Seq::empty(), Seq::empty())
    } else {
        let (ended, open) = line_state(s.drop_last());
        if s.last() == '\n' {
            (ended.push(without_return(open)), Seq::empty())
        } else {
            (ended, open.push(s.last()))
        }
    }
}

/// The lines of a text: a line feed, or a carriage return and a line feed, ends a
/// line; what follows the last line feed is a line unless it is empty.
pub open spec fn line_seq(s: Seq<char>) -> Seq<Seq<char>> {
    let (ended, open) = line_state(s);
    if open.len() == 0 {
        ended
    } else {
        ended.push(open)
    }
}

/// Splits a text into its lines.
pub fn lines(text: &str) -> (out: Vec<String>)
    ensures
        texts(out@) == line_seq(text@),
{
    let mut out: Vec<String> = Vec::new();
    let mut line = String::new();
    let mut held_return = false;
    for c in it: text.chars()
        invariant
            it.seq() == text@,
            texts(out@) == line_state(text@.take(it.index())).0,
            line_state(text@.take(it.index())).1 == (if held_return {
                line@.push('\r')
            } else {
                line@
            }),
            !held_return ==> without_return(line@) == line@,
    {
        proof {
            assert(text@.take(it.index() + 1).drop_last() =~= text@.take(it.index()));
        }
        if c == '\n' {
            let ghost ended = texts(out@);
            let ghost done = line@;
            proof {
                if held_return {
                    assert(line@.push('\r').drop_last() =~= line@);
                }
            }
            out.push(line);
            proof {
                assert(texts(out@) =~= ended.push(done));
            }
            line = String::new();
            held_return = false;
        } else {
            if held_return {
                line.push('\r');
                held_return = false;
            }
            if c == '\r' {
                held_return = true;
            } else {
                line.push(c);
            }
        }
    }
    proof {
        assert(text@.take(text@.len() as int) =~= text@);
    }
    if held_return {
        line.push('\r');
    }
    if !line.as_str().is_empty() {
        let ghost ended = texts(out@);
        let ghost last = line@;
        out.push(line);
        proof {
            assert(texts(out@) =~= ended.push(last));
        }
    } else {
        proof {
            assert(texts(out@) =~= line_seq(text@));
        }
    }
    out
}

/// The digit character of a number below ten.
pub open spec fn digit_char(d: nat) -> char {
    ('0' as int + d) as char
}

/// A number in decimal, without leading zeros.
pub open spec fn decimal(n: nat) -> Seq<char>
    decreases n,
{
    if n < 10 {
        seq![digit_char(n)]
    } else {
        decimal(n / 10).push(digit_char(n % 10))
    }
}

fn digit_to_char(d: u64) -> (c: char)
    requires
        d < 10,
    ensures
        c == digit_char(d as nat),
{
    (48u8 + d as u8) as char
}

/// Writes a number in decimal.
pub fn decimal_text(n: u64) -> (out: String)
    ensures
        out@ == decimal(n as nat),
    decreases n,
{
    if n < 10 {
        let mut out = String::new();
        out.push(digit_to_char(n));
        assert(out@ =~= seq![digit_char(n as nat)]);
        out
    } else {
        let mut out = decimal_text(n / 10);
        out.push(digit_to_char(n % 10));
        out
    }
}

/// A truth value as `true` or `false`.
pub open spec fn bool_word(b: bool) -> Seq<char> {
    if b {
        "true"@
    } else {
        "false"@
    }
}

/// Writes a truth value as `true` or `false`.
pub fn bool_text(b: bool) -> (out: &'static str)
    ensures
        out@ == bool_word(b),
{
    if b {
        "true"
    } else {
        "false"
    }
}

/// Whether a character is a decimal digit of ASCII.
pub open spec fn is_digit(c: char) -> bool {
    '0' <= c && c <= '9'
}

/// The number that a digit character stands for.
pub open spec fn digit_value(c: char) -> nat {
    (c as int - '0' as int) as nat
}

/// The number that a sequence of digits stands for.
pub open spec fn digits_value(s: Seq<char>) -> nat
    decreases s.len(),
{
    if s.len() == 0 {
        0
    } else {
        digits_value(s.drop_last()) * 10 + digit_value(s.last())
    }
}

/// Whether a text is one or more decimal digits.
pub open spec fn all_digits(s: Seq<char>) -> bool {
    s.len() > 0 && forall|i: int| 0 <= i < s.len() ==> is_digit(#[trigger] s[i])
}

/// A text without the plus sign that may start it.
pub open spec fn without_plus(s: Seq<char>) -> Seq<char> {
    if s.len() > 0 && s[0] == '+' {
        s.drop_first()
    } else {
        s
    }
}

/// The unsigned 64-bit number that a text writes: an optional plus sign and
/// decimal digits whose value is in range.
pub open spec fn u64_of(s: Seq<char>) -> Option<u64> {
    let digits = without_plus(s);
    if all_digits(digits) && digits_value(digits) <= u64::MAX {
        Some(digits_value(digits) as u64)
    } else {
        None
    }
}

proof fn lemma_digits_value_grows(s: Seq<char>, i: int)
    requires
        0 <= i <= s.len(),
    ensures
        digits_value(s.take(i)) <= digits_value(s),
    decreases s.len(),
{
    if i == s.len() {
        assert(s.take(i) =~= s);
    } else {
        lemma_digits_value_grows(s.drop_last(), i);
        assert(s.drop_last().take(i) =~= s.take(i));
    }
}

/// Reads an unsigned 64-bit number.
pub fn parse_u64(text: &str) -> (value: Option<u64>)
    ensures
        value == u64_of(text@),
{
    let mut value: u64 = 0;
    let mut digits: bool = false;
    let mut first: bool = true;
    let ghost whole = without_plus(text@);
    let ghost skipped: int = text@.len() - whole.len();
    for c in it: text.chars()
        invariant
            it.seq() == text@,
            whole == without_plus(text@),
            skipped == text@.len() - whole.len(),
            first == (it.index() == 0),
            digits == (it.index() > skipped),
            it.index() < skipped ==> value == 0,
            it.index() >= skipped ==> value == digits_value(whole.take(it.index() - skipped)),
            forall|j: int|
                0 <= j < it.index() - skipped ==> is_digit(#[trigger] whole[j]),
    {
        let ghost at = it.index() - skipped;
        if first && c == '+' {
            first = false;
            assert(whole.take(0) =~= Seq::<char>::empty());
        } else {
            first = false;
            proof {
                assert(whole[at] == c);
                assert(whole.take(at + 1).drop_last() =~= whole.take(at));
                if at == 0 {
                    assert(whole.take(0) =~= Seq::<char>::empty());
                }
            }
            if !('0' <= c && c <= '9') {
                return None;
            }
            let d: u64 = (c as u64) - ('0' as u64);
            proof {
                lemma_digits_value_grows(whole, at + 1);
            }
            if value > u64::MAX / 10 {
                return None;
            }
            let tens: u64 = value * 10;
            if tens > u64::MAX - d {
                return None;
            }
            value = tens + d;
            digits = true;
        }
    }
    if digits {
        proof {
            assert(whole.take(whole.len() as int) =~= whole);
        }
        Some(value)
    } else {
        None
    }
}

proof fn lemma_digit_round_trip(d: nat)
    requires
        d < 10,
    ensures
        is_digit(digit_char(d)),
        digit_value(digit_char(d)) == d,
{
}

/// Decimal notation uses digits alone and stands for the number it was made from.
pub proof fn lemma_decimal_digits(n: nat)
    ensures
        all_digits(decimal(n)),
        digits_value(decimal(n)) == n,
    decreases n,
{
    if n < 10 {
        lemma_digit_round_trip(n);
        reveal_with_fuel(digits_value, 2);
        assert(decimal(n).drop_last() =~= Seq::<char>::empty());
    } else {
        lemma_decimal_digits(n / 10);
        lemma_digit_round_trip(n % 10);
        assert(decimal(n).drop_last() =~= decimal(n / 10));
    }
}

/// Reading back what `decimal_text` wrote gives the same number.
pub proof fn law_decimal_round_trip(n: u64)
    ensures
        u64_of(decimal(n as nat)) == Some(n),
{
    lemma_decimal_digits(n as nat);
    assert(is_digit(decimal(n as nat)[0]));
}

/// Two numbers with the same decimal notation are the same number.
pub proof fn lemma_decimal_injective(a: nat, b: nat)
    ensures
        decimal(a) == decimal(b) <==> a == b,
{
    lemma_decimal_digits(a);
    lemma_decimal_digits(b);
}

/// The texts of a list, one behind the other.
pub open spec fn concatenated(parts: Seq<Seq<char>>) -> Seq<char>
    decreases parts.len(),
{
    if parts.len() == 0 {
        Seq::empty()
    } else {
        concatenated(parts.drop_last()) + parts.last()
    }
}

/// Puts texts one behind the other.
pub fn concat_all(parts: &Vec<String>) -> (out: String)
    ensures
        out@ == concatenated(texts(parts@)),
{
    let mut out = String::new();
    for i in 0..parts.len()
        invariant
            out@ == concatenated(texts(parts@).take(i as int)),
    {
        proof {
            assert(texts(parts@).take(i + 1).drop_last() =~= texts(parts@).take(i as int));
        }
        out.append(parts[i].as_str());
    }
    proof {
        assert(texts(parts@).take(parts@.len() as int) =~= texts(parts@));
    }
    out
}

/// The lines of a list, each ended by a line feed.
pub open spec fn ended_lines(parts: Seq<Seq<char>>) -> Seq<char>
    decreases parts.len(),
{
    if parts.len() == 0 {
        Seq::empty()
    } else {
        (ended_lines(parts.drop_last()) + parts.last()).push('\n')
    }
}

/// Ends each line with a line feed and puts them one behind the other.
pub fn end_lines(parts: &Vec<String>) -> (out: String)
    ensures
        out@ == ended_lines(texts(parts@)),
{
    let mut out = String::new();
    for i in 0..parts.len()
        invariant
            out@ == ended_lines(texts(parts@).take(i as int)),
    {
        proof {
            assert(texts(parts@).take(i + 1).drop_last() =~= texts(parts@).take(i as int));
        }
        out.append(parts[i].as_str());
        out.push('\n');
    }
    proof {
        assert(texts(parts@).take(parts@.len() as int) =~= texts(parts@));
    }
    out
}

/// A text without line breaks.
pub open spec fn is_single_line(s: Seq<char>) -> bool {
    !s.contains('\n') && !s.contains('\r')
}

/// Whether a text has no line breaks.
pub fn single_line(text: &str) -> (yes: bool)
    ensures
        yes == is_single_line(text@),
{
    for c in it: text.chars()
        invariant
            it.seq() == text@,
            forall|j: int| 0 <= j < it.index() ==> text@[j] != '\n' && text@[j] != '\r',
    {
        if c == '\n' || c == '\r' {
            proof {
                assert(text@[it.index()] == c);
            }
            return false;
        }
    }
    true
}

proof fn lemma_line_state_append(s: Seq<char>, line: Seq<char>)
    requires
        is_single_line(line),
    ensures
        line_state(s + line) == (line_state(s).0, line_state(s).1 + line),
    decreases line.len(),
{
    if line.len() == 0 {
        assert(s + line =~= s);
        assert(line_state(s).1 + line =~= line_state(s).1);
    } else {
        let front = line.drop_last();
        assert(is_single_line(front)) by {
            assert(forall|i: int| 0 <= i < front.len() ==> front[i] == line[i]);
        }
        lemma_line_state_append(s, front);
        assert((s + line).drop_last() =~= s + front);
        assert(line[line.len() - 1] != '\n');
        assert((line_state(s).1 + front).push(line.last()) =~= line_state(s).1 + line);
    }
}

/// Lines without line breaks are found again in the text that they were put together
/// to.
pub proof fn law_lines_of_ended_lines(parts: Seq<Seq<char>>)
    requires
        forall|i: int| 0 <= i < parts.len() ==> is_single_line(#[trigger] parts[i]),
    ensures
        line_seq(ended_lines(parts)) == parts,
        line_state(ended_lines(parts)) == (parts, Seq::<char>::empty()),
    decreases parts.len(),
{
    if parts.len() == 0 {
        assert(line_state(ended_lines(parts)).0 =~= parts);
    } else {
        let front = parts.drop_last();
        assert forall|i: int| 0 <= i < front.len() implies is_single_line(#[trigger] front[i]) by {
            assert(front[i] == parts[i]);
        }
        law_lines_of_ended_lines(front);
        let last = parts[parts.len() - 1];
        assert(is_single_line(last));
        let head = ended_lines(front);
        lemma_line_state_append(head, last);
        assert((head + last).push('\n').drop_last() =~= head + last);
        assert(Seq::<char>::empty() + last =~= last);
        assert(last.len() > 0 ==> last[last.len() - 1] != '\r');
        assert(front.push(last) =~= parts);
    }
}

/// The encoding of two texts is the encoding of the one behind the other.
pub proof fn lemma_encode_concat(a: Seq<char>, b: Seq<char>)
    ensures
        encode_utf8(a + b) == encode_utf8(a) + encode_utf8(b),
    decreases a.len(),
{
    if a.len() == 0 {
        assert(a + b =~= b);
        assert(encode_utf8(a) =~= Seq::<u8>::empty());
        assert(encode_utf8(a) + encode_utf8(b) =~= encode_utf8(b));
    } else {
        assert((a + b).drop_first() =~= a.drop_first() + b);
        lemma_encode_concat(a.drop_first(), b);
        assert(encode_utf8(a + b) =~= encode_utf8(a) + encode_utf8(b));
    }
}

} // verus!
