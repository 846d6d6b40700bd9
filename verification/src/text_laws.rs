//! What holds of every text.
use crate::text::{
    all_digits, bool_word, concatenated, decimal, digit_char, digit_value, digits_value,
    is_digit, is_single_line, is_white_space, joined, lemma_decimal_digits, line_seq,
    line_state, trimmed, trimmed_end, trimmed_start, u64_of, without_return,
};
use vstd::prelude::*;
use vstd::string::*;

verus! {

/// A text of white space alone.
pub open spec fn is_blank(s: Seq<char>) -> bool {
    forall|i: int| 0 <= i < s.len() ==> is_white_space(#[trigger] s[i])
}

/// A text that neither starts nor ends with white space.
pub open spec fn has_solid_ends(s: Seq<char>) -> bool {
    s.len() > 0 ==> !is_white_space(s[0]) && !is_white_space(s.last())
}

proof fn lemma_trimmed_start_blank(front: Seq<char>, rest: Seq<char>)
    requires
        is_blank(front),
        rest.len() > 0 ==> !is_white_space(rest[0]),
    ensures
        trimmed_start(front + rest) == rest,
    decreases front.len(),
{
    if front.len() == 0 {
        assert(front + rest =~= rest);
    } else {
        assert((front + rest)[0] == front[0]);
        assert((front + rest).drop_first() =~= front.drop_first() + rest);
        assert forall|i: int| 0 <= i < front.drop_first().len() implies is_white_space(
            #[trigger] front.drop_first()[i],
        ) by {
            assert(front.drop_first()[i] == front[i + 1]);
        }
        lemma_trimmed_start_blank(front.drop_first(), rest);
    }
}

proof fn lemma_trimmed_end_blank(rest: Seq<char>, back: Seq<char>)
    requires
        is_blank(back),
        rest.len() > 0 ==> !is_white_space(rest.last()),
    ensures
        trimmed_end(rest + back) == rest,
    decreases back.len(),
{
    if back.len() == 0 {
        assert(rest + back =~= rest);
    } else {
        assert((rest + back).last() == back[back.len() - 1]);
        assert((rest + back).drop_last() =~= rest + back.drop_last());
        assert forall|i: int| 0 <= i < back.drop_last().len() implies is_white_space(
            #[trigger] back.drop_last()[i],
        ) by {
            assert(back.drop_last()[i] == back[i]);
        }
        lemma_trimmed_end_blank(rest, back.drop_last());
    }
}

/// Trimming removes the white space around a text, and nothing else.
pub proof fn law_trim_removes_white_space_only(front: Seq<char>, kept: Seq<char>, back: Seq<char>)
    requires
        is_blank(front),
        is_blank(back),
        has_solid_ends(kept),
    ensures
        trimmed(front + kept + back) == kept,
{
    if kept.len() == 0 {
        assert(is_blank(front + back)) by {
            assert forall|i: int| 0 <= i < (front + back).len() implies is_white_space(
                #[trigger] (front + back)[i],
            ) by {
                if i < front.len() {
                    assert((front + back)[i] == front[i]);
                } else {
                    assert((front + back)[i] == back[i - front.len()]);
                }
            }
        }
        assert(front + kept + back =~= (front + back) + Seq::<char>::empty());
        lemma_trimmed_start_blank(front + back, Seq::empty());
        assert(kept =~= Seq::<char>::empty());
    } else {
        assert(front + kept + back =~= front + (kept + back));
        assert((kept + back)[0] == kept[0]);
        lemma_trimmed_start_blank(front, kept + back);
        lemma_trimmed_end_blank(kept, back);
    }
}

proof fn lemma_line_state_behind(head: Seq<char>, line: Seq<char>, rest: Seq<char>)
    requires
        line_state(head) == (seq![line], Seq::<char>::empty()),
    ensures
        line_state(head + rest) == (seq![line] + line_state(rest).0, line_state(rest).1),
    decreases rest.len(),
{
    if rest.len() == 0 {
        assert(head + rest =~= head);
        assert(seq![line] + line_state(rest).0 =~= seq![line]);
    } else {
        lemma_line_state_behind(head, line, rest.drop_last());
        assert((head + rest).drop_last() =~= head + rest.drop_last());
        assert((head + rest).last() == rest.last());
        let ended = line_state(rest.drop_last()).0;
        let open = line_state(rest.drop_last()).1;
        if rest.last() == '\n' {
            assert((seq![line] + ended).push(without_return(open)) =~= seq![line] + ended.push(
                without_return(open),
            ));
        }
    }
}

proof fn lemma_line_state_open(line: Seq<char>)
    requires
        !line.contains('\n'),
    ensures
        line_state(line) == (Seq::<Seq<char>>::empty(), line),
    decreases line.len(),
{
    if line.len() > 0 {
        let front = line.drop_last();
        assert(!front.contains('\n')) by {
            if front.contains('\n') {
                let i = choose|i: int| 0 <= i < front.len() && front[i] == '\n';
                assert(line[i] == '\n');
            }
        }
        lemma_line_state_open(front);
        assert(line[line.len() - 1] != '\n') by {
            assert(line.contains(line[line.len() - 1]));
        }
        assert(front.push(line.last()) =~= line);
    } else {
        assert(line =~= Seq::<char>::empty());
    }
}

/// The first line of a text is what stands before its first line feed, without the carriage
/// return that may stand before that; the other lines are those of what follows. A text
/// without a line feed is one line, unless it is empty.
pub proof fn law_a_line_feed_ends_a_line(line: Seq<char>, rest: Seq<char>)
    requires
        is_single_line(line),
    ensures
        line_seq(line + seq!['\n'] + rest) == seq![line] + line_seq(rest),
        line_seq(line + seq!['\r', '\n'] + rest) == seq![line] + line_seq(rest),
        line_seq(line) == (if line.len() > 0 {
            seq![line]
        } else {
            Seq::empty()
        }),
{
    lemma_line_state_open(line);
    let plain = line + seq!['\n'];
    assert(plain.drop_last() =~= line);
    assert(plain.last() == '\n');
    assert(line.len() > 0 ==> line.last() != '\r') by {
        if line.len() > 0 {
            assert(line.contains(line.last()));
        }
    }
    assert(line_state(plain).0 =~= seq![line]);
    lemma_line_state_behind(plain, line, rest);
    let returned = line.push('\r');
    assert(!returned.contains('\n')) by {
        if returned.contains('\n') {
            let i = choose|i: int| 0 <= i < returned.len() && returned[i] == '\n';
            if i < line.len() {
                assert(line[i] == '\n');
            }
        }
    }
    lemma_line_state_open(returned);
    let both = line + seq!['\r', '\n'];
    assert(both.drop_last() =~= returned);
    assert(both.last() == '\n');
    assert(returned.drop_last() =~= line);
    assert(line_state(both).0 =~= seq![line]);
    lemma_line_state_behind(both, line, rest);
    let tail = line_state(rest);
    assert((seq![line] + tail.0).push(tail.1) =~= seq![line] + tail.0.push(tail.1));
    assert(Seq::<Seq<char>>::empty().push(line) =~= seq![line]);
}

/// Two lists are joined as their parts are, with one separator between them, and one text
/// alone is joined to itself.
pub proof fn law_joining_goes_part_by_part(a: Seq<Seq<char>>, b: Seq<Seq<char>>, sep: Seq<char>)
    ensures
        a.len() > 0 && b.len() > 0 ==> joined(a + b, sep) == joined(a, sep) + sep + joined(b, sep),
        a.len() == 1 ==> joined(a, sep) == a[0],
        a.len() == 0 ==> joined(a, sep) == Seq::<char>::empty(),
    decreases b.len(),
{
    if a.len() > 0 && b.len() > 0 {
        assert((a + b).drop_last() =~= a + b.drop_last());
        assert((a + b).last() == b.last());
        if b.len() == 1 {
            assert(a + b.drop_last() =~= a);
            assert(joined(a + b, sep) =~= joined(a, sep) + sep + joined(b, sep));
        } else {
            law_joining_goes_part_by_part(a, b.drop_last(), sep);
            assert(joined(a + b, sep) =~= joined(a, sep) + sep + joined(b, sep));
        }
    }
}

/// Two lists are put one behind the other as their parts are.
pub proof fn law_concatenation_goes_part_by_part(a: Seq<Seq<char>>, b: Seq<Seq<char>>)
    ensures
        concatenated(a + b) == concatenated(a) + concatenated(b),
        a.len() == 1 ==> concatenated(a) == a[0],
    decreases b.len(),
{
    if b.len() == 0 {
        assert(a + b =~= a);
        assert(concatenated(a) + concatenated(b) =~= concatenated(a));
    } else {
        assert((a + b).drop_last() =~= a + b.drop_last());
        assert((a + b).last() == b.last());
        law_concatenation_goes_part_by_part(a, b.drop_last());
        assert(concatenated(a + b) =~= concatenated(a) + concatenated(b));
    }
    if a.len() == 1 {
        assert(a.drop_last() =~= Seq::<Seq<char>>::empty());
        assert(concatenated(a.drop_last()) =~= Seq::<char>::empty());
        assert(concatenated(a) =~= a[0]);
    }
}

/// A number is read digit by digit: one more digit makes it ten times as large and adds the
/// digit, as long as it is in range. A plus sign in front changes nothing.
pub proof fn law_numbers_are_read_digit_by_digit(s: Seq<char>, d: nat)
    requires
        all_digits(s),
        d < 10,
    ensures
        u64_of(s.push(digit_char(d))) == (match u64_of(s) {
            Some(n) => if n * 10 + d <= u64::MAX {
                Some((n * 10 + d) as u64)
            } else {
                None
            },
            None => None,
        }),
        u64_of(seq!['+'] + s) == u64_of(s),
        u64_of(seq![digit_char(d)]) == Some(d as u64),
{
    let more = s.push(digit_char(d));
    assert(is_digit(digit_char(d)) && digit_value(digit_char(d)) == d);
    assert(more.drop_last() =~= s);
    assert(all_digits(more));
    assert(more[0] == s[0]);
    assert(is_digit(s[0]));
    assert((seq!['+'] + s).drop_first() =~= s);
    let one = seq![digit_char(d)];
    assert(one.drop_last() =~= Seq::<char>::empty());
    assert(digits_value(one.drop_last()) == 0);
    assert(all_digits(one));
    assert(is_digit(one[0]));
}

/// A text that is no plus sign and digits is no number.
pub proof fn law_other_texts_are_no_numbers(s: Seq<char>, at: int)
    requires
        0 <= at < s.len(),
        !('0' <= s[at] <= '9'),
        at > 0 || s[at] != '+',
    ensures
        u64_of(s) is None,
{
    if s[0] == '+' {
        let rest = s.drop_first();
        assert(rest[at - 1] == s[at]);
        assert(!is_digit(rest[at - 1]));
    } else {
        assert(!is_digit(s[at]));
    }
}

/// The empty text and a plus sign alone are no numbers.
pub proof fn law_empty_texts_are_no_numbers()
    ensures
        u64_of(Seq::<char>::empty()) is None,
        u64_of(seq!['+']) is None,
{
    assert(seq!['+'].drop_first() =~= Seq::<char>::empty());
}

/// The two truth values are written as different words.
pub proof fn law_truth_values_are_told_apart(a: bool, b: bool)
    ensures
        bool_word(a) == bool_word(b) <==> a == b,
        a ==> bool_word(a) == "true"@,
        !a ==> bool_word(a) == "false"@,
{
    reveal_strlit("true");
    reveal_strlit("false");
    assert("true"@.len() != "false"@.len());
}

/// Whether a text starts with another one.
pub open spec fn starts_text(s: Seq<char>, start: Seq<char>) -> bool {
    start.len() <= s.len() && s.take(start.len() as int) == start
}

/// A text that differs from another one at some place does not start with it.
pub proof fn lemma_starts_other(s: Seq<char>, start: Seq<char>, i: int)
    requires
        0 <= i < start.len(),
        i < s.len() ==> s[i] != start[i],
    ensures
        !starts_text(s, start),
{
    if starts_text(s, start) {
        assert(s.take(start.len() as int)[i] == s[i]);
    }
}

/// Whether a text stands somewhere in another one.
pub open spec fn holds_text(whole: Seq<char>, part: Seq<char>) -> bool {
    exists|front: Seq<char>, back: Seq<char>| whole == #[trigger] (front + part + back)
}

/// A text that is put between two others stands in the whole.
pub proof fn lemma_holds_between(front: Seq<char>, part: Seq<char>, back: Seq<char>)
    ensures
        holds_text(front + part + back, part),
{
}

/// What lines say of a key: the line that starts with the key and an equals sign is there
/// and gives the value, and no line gives it another one.
pub open spec fn says(lines: Seq<Seq<char>>, key: Seq<char>, value: Seq<char>) -> bool {
    &&& exists|at: int| 0 <= at < lines.len() && #[trigger] lines[at] == key + seq!['='] + value
    &&& forall|i: int|
        0 <= i < lines.len() && starts_text(#[trigger] lines[i], key + seq!['=']) ==> lines[i]
            == key + seq!['='] + value
}

/// A key and its value.
pub open spec fn keyed(key: Seq<char>, value: Seq<char>) -> Seq<char> {
    key + seq!['='] + value
}

/// A key with a value does not start another key.
pub proof fn lemma_other_key(key: Seq<char>, other: Seq<char>, value: Seq<char>)
    requires
        !key.contains('='),
        !other.contains('='),
        key != other,
    ensures
        !starts_text(keyed(other, value), key + seq!['=']),
{
    let line = keyed(other, value);
    let start = key + seq!['='];
    if starts_text(line, start) {
        assert forall|i: int| 0 <= i < start.len() implies start[i] == line[i] by {
            assert(line.take(start.len() as int)[i] == line[i]);
        }
        if other.len() < key.len() {
            let n = other.len() as int;
            assert(line[n] == '=');
            assert(start[n] == key[n]);
            assert(key.contains(key[n]));
        } else if other.len() > key.len() {
            let n = key.len() as int;
            assert(start[n] == '=');
            assert(line[n] == other[n]);
            assert(other.contains(other[n]));
        } else {
            assert(key =~= other) by {
                assert forall|i: int| 0 <= i < key.len() implies key[i] == other[i] by {
                    assert(start[i] == key[i]);
                    assert(line[i] == other[i]);
                }
            }
        }
    }
}

/// Where each line is a key with a value or has no equals sign, and the keys differ from one
/// of them, the lines say the value of that one.
pub proof fn lemma_says(
    lines: Seq<Seq<char>>,
    keys: Seq<Seq<char>>,
    values: Seq<Seq<char>>,
    at: int,
)
    requires
        lines.len() == keys.len(),
        lines.len() == values.len(),
        0 <= at < lines.len(),
        lines[at] == keyed(keys[at], values[at]),
        forall|i: int|
            0 <= i < lines.len() ==> #[trigger] lines[i] == keyed(keys[i], values[i])
                || !lines[i].contains('='),
        forall|i: int| 0 <= i < keys.len() ==> !(#[trigger] keys[i]).contains('='),
        forall|i: int| 0 <= i < keys.len() && i != at ==> #[trigger] keys[i] != keys[at],
    ensures
        says(lines, keys[at], values[at]),
{
    let key = keys[at];
    let start = key + seq!['='];
    assert(lines[at] == key + seq!['='] + values[at]);
    assert forall|i: int|
        0 <= i < lines.len() && starts_text(#[trigger] lines[i], start) implies lines[i] == key
        + seq!['='] + values[at] by {
        if i != at {
            assert(keys[i] != keys[at]);
            if lines[i].contains('=') {
                lemma_other_key(key, keys[i], values[i]);
            } else {
                assert(lines[i].take(start.len() as int)[key.len() as int] == '=');
                assert(lines[i].contains(lines[i][key.len() as int]));
            }
        }
    }
}

/// Among the characters of ASCII, white space is the blank and the five characters from the
/// tabulator to the carriage return. No letter, digit or mark is white space.
pub proof fn law_ascii_white_space(c: char)
    requires
        c <= '\u{7f}',
    ensures
        is_white_space(c) <==> c == ' ' || c == '\t' || c == '\n' || c == '\u{b}' || c == '\u{c}' || c
            == '\r',
{
}

/// Numbers are written without zeros in front.
pub proof fn law_numbers_have_no_zeros_in_front(n: nat)
    ensures
        n > 0 ==> decimal(n)[0] != '0',
        decimal(0) == seq!['0'],
    decreases n,
{
    if n >= 10 {
        law_numbers_have_no_zeros_in_front(n / 10);
        lemma_decimal_digits(n / 10);
        assert(decimal(n)[0] == decimal(n / 10)[0]);
    } else if n > 0 {
        assert(decimal(n)[0] == digit_char(n));
    }
    assert(decimal(0) =~= seq!['0']);
}

} // verus!
