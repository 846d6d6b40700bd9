//! What holds of every service definition and of every command.
use crate::error::AgentdErrorView;
use crate::os_text::{
    display_text, is_single_line_of_bytes, law_text_is_shown_as_itself, lemma_is_text, text_of,
};
use crate::paths::{joined_path, SEPARATOR};
use crate::service::commands::{
    activation, command_line_text, deactivation, inspection, is_shell_safe, is_shell_word,
    next_attempt, next_place, shell_quoted_char, shell_word, ServiceCommandOutcomeView,
    ServiceCommandView, ACTIVATE_RETRIES,
};
use crate::service::install::{
    install_steps, removal_answer, unrepresentable_path, without_final_newline, FileRemoval,
    InstallStepView,
};
use crate::service::launchd::{escaped_xml_char, plist_parts, xml_text};
use crate::service::systemd::{
    escaped_unit_char, is_plain_unit_char, is_plain_unit_text, unit_argument, unit_definition,
    unit_lines, wanted_by,
};
use crate::service::{
    definition_text, ServiceLayoutView, ServicePlatform, ServiceSpecView, ENV_FILE_NAME,
    SERVICE_NAME,
};
use crate::text::{
    concat_map, concatenated, ended_lines, is_single_line, joined, law_lines_of_ended_lines,
    lemma_concat_map_first, lemma_encode_concat, line_seq,
};
use crate::text_laws::{lemma_starts_other, starts_text};
use vstd::prelude::*;
use vstd::string::*;
use vstd::utf8::*;

verus! {

/// How a shell reads the next character.
#[derive(PartialEq, Eq, Structural)]
pub enum ShellMode {
    Plain,
    Quoted,
    Escaped,
}

/// A line as far as a shell has read it.
#[verifier::ext_equal]
pub struct ShellState {
    pub words: Seq<Seq<char>>,
    pub open: Option<Seq<char>>,
    pub mode: ShellMode,
}

/// The word that is being read, with one more character.
pub open spec fn shell_append(state: ShellState, c: char) -> Option<Seq<char>> {
    match state.open {
        Some(word) => Some(word.push(c)),
        None => Some(seq![c]),
    }
}

/// A shell reads one character: a space ends a word, single quotes keep what is
/// between them, and a backslash keeps the next character.
pub open spec fn shell_step(state: ShellState, c: char) -> ShellState {
    match state.mode {
        ShellMode::Plain => if c == ' ' {
            match state.open {
                Some(word) => ShellState { words: state.words.push(word), open: None, ..state },
                None => state,
            }
        } else if c == '\'' {
            ShellState {
                open: match state.open {
                    Some(word) => Some(word),
                    None => Some(Seq::empty()),
                },
                mode: ShellMode::Quoted,
                ..state
            }
        } else if c == '\\' {
            ShellState { mode: ShellMode::Escaped, ..state }
        } else {
            ShellState { open: shell_append(state, c), ..state }
        },
        ShellMode::Quoted => if c == '\'' {
            ShellState { mode: ShellMode::Plain, ..state }
        } else {
            ShellState { open: shell_append(state, c), ..state }
        },
        ShellMode::Escaped => ShellState {
            open: shell_append(state, c),
            mode: ShellMode::Plain,
            ..state
        },
    }
}

/// A shell reads a text.
pub open spec fn shell_read(state: ShellState, s: Seq<char>) -> ShellState
    decreases s.len(),
{
    if s.len() == 0 {
        state
    } else {
        shell_step(shell_read(state, s.drop_last()), s.last())
    }
}

/// The words that a shell makes of a line, where its quotes are closed.
pub open spec fn shell_words(line: Seq<char>) -> Option<Seq<Seq<char>>> {
    let end = shell_read(
        ShellState { words: Seq::empty(), open: None, mode: ShellMode::Plain },
        line,
    );
    if end.mode != ShellMode::Plain {
        None
    } else {
        match end.open {
            Some(word) => Some(end.words.push(word)),
            None => Some(end.words),
        }
    }
}

proof fn lemma_shell_read_concat(state: ShellState, a: Seq<char>, b: Seq<char>)
    ensures
        shell_read(state, a + b) == shell_read(shell_read(state, a), b),
    decreases b.len(),
{
    if b.len() == 0 {
        assert(a + b =~= a);
    } else {
        assert((a + b).drop_last() =~= a + b.drop_last());
        lemma_shell_read_concat(state, a, b.drop_last());
    }
}

proof fn lemma_shell_read_safe(state: ShellState, s: Seq<char>)
    requires
        state.mode == ShellMode::Plain,
        state.open is None,
        is_shell_word(s),
    ensures
        shell_read(state, s) == (ShellState { open: Some(s), ..state }),
    decreases s.len(),
{
    assert(is_shell_safe(s[s.len() - 1]));
    if s.len() == 1 {
        assert(s.drop_last() =~= Seq::<char>::empty());
        assert(shell_read(state, s.drop_last()) == state);
        assert(s =~= seq![s.last()]);
    } else {
        let front = s.drop_last();
        assert forall|i: int| 0 <= i < front.len() implies is_shell_safe(#[trigger] front[i]) by {
            assert(front[i] == s[i]);
        }
        lemma_shell_read_safe(state, front);
        assert(front.push(s.last()) =~= s);
    }
}

proof fn lemma_shell_read_quoted(state: ShellState, s: Seq<char>)
    requires
        state.mode == ShellMode::Quoted,
        state.open == Some(Seq::<char>::empty()),
    ensures
        shell_read(state, concat_map(s, |c: char| shell_quoted_char(c))) == (ShellState {
            open: Some(s),
            ..state
        }),
    decreases s.len(),
{
    let f = |c: char| shell_quoted_char(c);
    if s.len() == 0 {
        assert(s =~= Seq::<char>::empty());
    } else {
        let front = s.drop_last();
        let c = s.last();
        lemma_shell_read_quoted(state, front);
        lemma_shell_read_concat(state, concat_map(front, f), f(c));
        let mid = ShellState { open: Some(front), ..state };
        if c == '\'' {
            reveal_strlit("'\\''");
            let t = "'\\''"@;
            assert(t =~= seq!['\'', '\\', '\'', '\'']);
            assert(t.drop_last() =~= seq!['\'', '\\', '\'']);
            assert(t.drop_last().drop_last() =~= seq!['\'', '\\']);
            assert(t.drop_last().drop_last().drop_last() =~= seq!['\'']);
            assert(t.drop_last().drop_last().drop_last().drop_last() =~= Seq::<char>::empty());
            reveal_with_fuel(shell_read, 5);
            assert(front.push(c) =~= s);
        } else {
            assert(seq![c].drop_last() =~= Seq::<char>::empty());
            reveal_with_fuel(shell_read, 2);
            assert(front.push(c) =~= s);
        }
    }
}

proof fn lemma_shell_read_word(state: ShellState, s: Seq<char>)
    requires
        state.mode == ShellMode::Plain,
        state.open is None,
    ensures
        shell_read(state, shell_word(s)) == (ShellState { open: Some(s), ..state }),
{
    if is_shell_word(s) {
        lemma_shell_read_safe(state, s);
    } else {
        let f = |c: char| shell_quoted_char(c);
        let body = concat_map(s, f);
        let quote = seq!['\''];
        assert(quote.drop_last() =~= Seq::<char>::empty());
        assert(shell_read(state, quote) == shell_step(state, '\'')) by {
            reveal_with_fuel(shell_read, 2);
        }
        lemma_shell_read_concat(state, quote, body);
        let opened = shell_step(state, '\'');
        lemma_shell_read_quoted(opened, s);
        lemma_shell_read_concat(state, quote + body, quote);
        let read = ShellState { open: Some(s), ..opened };
        assert(shell_read(read, quote) == shell_step(read, '\'')) by {
            reveal_with_fuel(shell_read, 2);
        }
    }
}

proof fn lemma_shell_read_line(words: Seq<Seq<char>>)
    requires
        words.len() > 0,
    ensures
        shell_read(
            ShellState { words: Seq::empty(), open: None, mode: ShellMode::Plain },
            joined(words.map_values(|s: Seq<char>| shell_word(s)), " "@),
        ) == (ShellState {
            words: words.drop_last(),
            open: Some(words.last()),
            mode: ShellMode::Plain,
        }),
    decreases words.len(),
{
    let start = ShellState { words: Seq::empty(), open: None, mode: ShellMode::Plain };
    let quoted = words.map_values(|s: Seq<char>| shell_word(s));
    if words.len() == 1 {
        lemma_shell_read_word(start, words[0]);
        assert(quoted[0] == shell_word(words[0]));
        assert(words.drop_last() =~= Seq::<Seq<char>>::empty());
    } else {
        let front = words.drop_last();
        assert(quoted.drop_last() =~= front.map_values(|s: Seq<char>| shell_word(s)));
        lemma_shell_read_line(front);
        let head = joined(quoted.drop_last(), " "@);
        let after = shell_read(start, head);
        reveal_strlit(" ");
        assert(" "@ =~= seq![' ']);
        assert(" "@.drop_last() =~= Seq::<char>::empty());
        lemma_shell_read_concat(start, head, " "@);
        let spaced = shell_step(after, ' ');
        assert(shell_read(after, " "@) == spaced) by {
            reveal_with_fuel(shell_read, 2);
        }
        assert(front.drop_last().push(front.last()) =~= front);
        lemma_shell_read_concat(start, head + " "@, quoted.last());
        lemma_shell_read_word(spaced, words.last());
        assert(quoted.last() == shell_word(words.last()));
    }
}

/// A shell reads the shown line of a command as its program and its arguments, each as
/// one word.
pub proof fn law_shown_commands_read_back(command: ServiceCommandView)
    ensures
        shell_words(command_line_text(command)) == Some(seq![command.program] + command.args),
{
    let words = seq![command.program] + command.args;
    lemma_shell_read_line(words);
    assert(words.drop_last().push(words.last()) =~= words);
}

/// How systemd reads the next character of a directive.
#[derive(PartialEq, Eq, Structural)]
pub enum UnitMode {
    Plain,
    Quoted,
    Escaped,
}

/// A directive as far as systemd has read it.
#[verifier::ext_equal]
pub struct UnitState {
    pub words: Seq<Seq<char>>,
    pub open: Option<Seq<char>>,
    pub mode: UnitMode,
}

/// The word that is being read, with one more character.
pub open spec fn unit_append(state: UnitState, c: char) -> Option<Seq<char>> {
    match state.open {
        Some(word) => Some(word.push(c)),
        None => Some(seq![c]),
    }
}

/// Systemd reads one character: a space ends a word, double quotes keep what is between
/// them, and between them a backslash keeps the next character.
pub open spec fn unit_step(state: UnitState, c: char) -> UnitState {
    match state.mode {
        UnitMode::Plain => if c == ' ' {
            match state.open {
                Some(word) => UnitState { words: state.words.push(word), open: None, ..state },
                None => state,
            }
        } else if c == '"' {
            UnitState {
                open: match state.open {
                    Some(word) => Some(word),
                    None => Some(Seq::empty()),
                },
                mode: UnitMode::Quoted,
                ..state
            }
        } else {
            UnitState { open: unit_append(state, c), ..state }
        },
        UnitMode::Quoted => if c == '"' {
            UnitState { mode: UnitMode::Plain, ..state }
        } else if c == '\\' {
            UnitState { mode: UnitMode::Escaped, ..state }
        } else {
            UnitState { open: unit_append(state, c), ..state }
        },
        UnitMode::Escaped => UnitState {
            open: unit_append(state, c),
            mode: UnitMode::Quoted,
            ..state
        },
    }
}

/// Systemd reads a text.
pub open spec fn unit_read(state: UnitState, s: Seq<char>) -> UnitState
    decreases s.len(),
{
    if s.len() == 0 {
        state
    } else {
        unit_step(unit_read(state, s.drop_last()), s.last())
    }
}

/// A word after specifiers and variables were expanded, where all it has of them are
/// doubled marks: each doubled mark stands for one.
pub open spec fn undoubled(s: Seq<char>) -> Seq<char>
    decreases s.len(),
{
    if s.len() == 0 {
        Seq::empty()
    } else if s.len() > 1 && (s[0] == '%' || s[0] == '$') && s[1] == s[0] {
        seq![s[0]] + undoubled(s.skip(2))
    } else {
        seq![s[0]] + undoubled(s.skip(1))
    }
}

/// The arguments that systemd makes of a directive, where its quotes are closed.
pub open spec fn unit_words(line: Seq<char>) -> Option<Seq<Seq<char>>> {
    let end = unit_read(
        UnitState { words: Seq::empty(), open: None, mode: UnitMode::Plain },
        line,
    );
    if end.mode != UnitMode::Plain {
        None
    } else {
        let words = match end.open {
            Some(word) => end.words.push(word),
            None => end.words,
        };
        Some(words.map_values(|w: Seq<char>| undoubled(w)))
    }
}

/// A character with the marks of specifiers and variables doubled.
pub open spec fn doubled_mark(c: char) -> Seq<char> {
    if c == '%' || c == '$' {
        seq![c, c]
    } else {
        seq![c]
    }
}

/// A text with the marks of specifiers and variables doubled.
pub open spec fn doubled(s: Seq<char>) -> Seq<char> {
    concat_map(s, |c: char| doubled_mark(c))
}

proof fn lemma_undoubled(s: Seq<char>)
    ensures
        undoubled(doubled(s)) == s,
    decreases s.len(),
{
    let f = |c: char| doubled_mark(c);
    if s.len() == 0 {
        assert(s =~= Seq::<char>::empty());
    } else {
        lemma_concat_map_first(s, f);
        let tail = s.drop_first();
        lemma_undoubled(tail);
        let whole = doubled(s);
        let c = s[0];
        assert(whole == f(c) + doubled(tail));
        if c == '%' || c == '$' {
            assert(whole.skip(2) =~= doubled(tail));
        } else {
            assert(whole.skip(1) =~= doubled(tail));
        }
        assert(seq![c] + tail =~= s);
    }
}

proof fn lemma_undoubled_plain(s: Seq<char>)
    requires
        forall|i: int| 0 <= i < s.len() ==> s[i] != '%' && s[i] != '$',
    ensures
        undoubled(s) == s,
    decreases s.len(),
{
    if s.len() > 0 {
        lemma_undoubled_plain(s.skip(1));
        assert(seq![s[0]] + s.skip(1) =~= s);
    }
}

proof fn lemma_unit_read_concat(state: UnitState, a: Seq<char>, b: Seq<char>)
    ensures
        unit_read(state, a + b) == unit_read(unit_read(state, a), b),
    decreases b.len(),
{
    if b.len() == 0 {
        assert(a + b =~= a);
    } else {
        assert((a + b).drop_last() =~= a + b.drop_last());
        lemma_unit_read_concat(state, a, b.drop_last());
    }
}

proof fn lemma_unit_read_plain(state: UnitState, s: Seq<char>)
    requires
        state.mode == UnitMode::Plain,
        state.open is None,
        s.len() > 0,
        is_plain_unit_text(s),
    ensures
        unit_read(state, s) == (UnitState { open: Some(s), ..state }),
    decreases s.len(),
{
    assert(is_plain_unit_char(s[s.len() - 1]));
    if s.len() == 1 {
        assert(s.drop_last() =~= Seq::<char>::empty());
        assert(unit_read(state, s.drop_last()) == state);
        assert(s =~= seq![s.last()]);
    } else {
        let front = s.drop_last();
        assert forall|i: int| 0 <= i < front.len() implies is_plain_unit_char(
            #[trigger] front[i],
        ) by {
            assert(front[i] == s[i]);
        }
        lemma_unit_read_plain(state, front);
        assert(front.push(s.last()) =~= s);
    }
}

proof fn lemma_unit_read_two(state: UnitState, a: char, b: char)
    ensures
        unit_read(state, seq![a, b]) == unit_step(unit_step(state, a), b),
{
    assert(seq![a, b].drop_last() =~= seq![a]);
    assert(seq![a].drop_last() =~= Seq::<char>::empty());
    reveal_with_fuel(unit_read, 3);
}

proof fn lemma_unit_read_one(state: UnitState, a: char)
    ensures
        unit_read(state, seq![a]) == unit_step(state, a),
{
    assert(seq![a].drop_last() =~= Seq::<char>::empty());
    reveal_with_fuel(unit_read, 2);
}

proof fn lemma_unit_read_quoted(state: UnitState, s: Seq<char>)
    requires
        state.mode == UnitMode::Quoted,
        state.open == Some(Seq::<char>::empty()),
    ensures
        unit_read(state, concat_map(s, |c: char| escaped_unit_char(c))) == (UnitState {
            open: Some(doubled(s)),
            ..state
        }),
    decreases s.len(),
{
    let f = |c: char| escaped_unit_char(c);
    if s.len() == 0 {
        assert(doubled(s) =~= Seq::<char>::empty());
    } else {
        let front = s.drop_last();
        let c = s.last();
        lemma_unit_read_quoted(state, front);
        lemma_unit_read_concat(state, concat_map(front, f), f(c));
        let mid = UnitState { open: Some(doubled(front)), ..state };
        assert(doubled(s) == doubled(front) + doubled_mark(c));
        if c == '\\' {
            reveal_strlit("\\\\");
            assert("\\\\"@ =~= seq!['\\', '\\']);
            lemma_unit_read_two(mid, '\\', '\\');
            assert(doubled(front).push(c) =~= doubled(s));
        } else if c == '"' {
            reveal_strlit("\\\"");
            assert("\\\""@ =~= seq!['\\', '"']);
            lemma_unit_read_two(mid, '\\', '"');
            assert(doubled(front).push(c) =~= doubled(s));
        } else if c == '%' {
            reveal_strlit("%%");
            assert("%%"@ =~= seq!['%', '%']);
            lemma_unit_read_two(mid, '%', '%');
            assert(doubled(front).push(c).push(c) =~= doubled(s));
        } else if c == '$' {
            reveal_strlit("$$");
            assert("$$"@ =~= seq!['$', '$']);
            lemma_unit_read_two(mid, '$', '$');
            assert(doubled(front).push(c).push(c) =~= doubled(s));
        } else {
            lemma_unit_read_one(mid, c);
            assert(doubled(front).push(c) =~= doubled(s));
        }
    }
}

/// The word that systemd reads for an argument, before doubled marks are expanded.
pub open spec fn argument_word(s: Seq<char>) -> Seq<char> {
    if is_plain_unit_text(s) {
        s
    } else {
        doubled(s)
    }
}

proof fn lemma_unit_read_argument(state: UnitState, s: Seq<char>)
    requires
        state.mode == UnitMode::Plain,
        state.open is None,
        s.len() > 0,
    ensures
        unit_read(state, unit_argument(s)) == (UnitState {
            open: Some(argument_word(s)),
            ..state
        }),
        undoubled(argument_word(s)) == s,
{
    if is_plain_unit_text(s) {
        lemma_unit_read_plain(state, s);
        assert forall|i: int| 0 <= i < s.len() implies s[i] != '%' && s[i] != '$' by {
            assert(is_plain_unit_char(s[i]));
        }
        lemma_undoubled_plain(s);
    } else {
        let f = |c: char| escaped_unit_char(c);
        let body = concat_map(s, f);
        let quote = seq!['"'];
        lemma_unit_read_one(state, '"');
        lemma_unit_read_concat(state, quote, body);
        let opened = unit_step(state, '"');
        lemma_unit_read_quoted(opened, s);
        lemma_unit_read_concat(state, quote + body, quote);
        lemma_unit_read_one(UnitState { open: Some(doubled(s)), ..opened }, '"');
        lemma_undoubled(s);
    }
}

/// Systemd reads an argument of a directive as the text that was written.
pub proof fn law_unit_arguments_read_back(s: Seq<char>)
    requires
        s.len() > 0,
    ensures
        unit_words(unit_argument(s)) == Some(seq![s]),
{
    let start = UnitState { words: Seq::empty(), open: None, mode: UnitMode::Plain };
    lemma_unit_read_argument(start, s);
    let words = Seq::<Seq<char>>::empty().push(argument_word(s));
    assert(words.map_values(|w: Seq<char>| undoubled(w)) =~= seq![s]);
}

/// Systemd reads a start directive as the binary, the option and the configuration
/// directory, whatever characters the two paths hold. They are not empty.
pub proof fn law_start_directive_reads_back(bin: Seq<char>, config_dir: Seq<char>)
    requires
        bin.len() > 0,
        config_dir.len() > 0,
    ensures
        unit_words(unit_argument(bin) + " --config-dir "@ + unit_argument(config_dir)) == Some(
            seq![bin, "--config-dir"@, config_dir],
        ),
{
    let start = UnitState { words: Seq::empty(), open: None, mode: UnitMode::Plain };
    let option = "--config-dir"@;
    reveal_strlit(" --config-dir ");
    reveal_strlit("--config-dir");
    let space = seq![' '];
    assert(" --config-dir "@ =~= space + option + space);
    assert(is_plain_unit_text(option));
    let a = unit_argument(bin);
    let b = unit_argument(config_dir);
    let wa = argument_word(bin);
    let wb = argument_word(config_dir);
    lemma_unit_read_argument(start, bin);
    lemma_unit_read_concat(start, a, space);
    lemma_unit_read_one(UnitState { open: Some(wa), ..start }, ' ');
    let s1 = UnitState { words: start.words.push(wa), open: None, mode: UnitMode::Plain };
    lemma_unit_read_concat(start, a + space, option);
    lemma_unit_read_plain(s1, option);
    lemma_unit_read_concat(start, a + space + option, space);
    lemma_unit_read_one(UnitState { open: Some(option), ..s1 }, ' ');
    let s2 = UnitState { words: s1.words.push(option), open: None, mode: UnitMode::Plain };
    lemma_unit_read_concat(start, a + space + option + space, b);
    lemma_unit_read_argument(s2, config_dir);
    assert(a + " --config-dir "@ + b =~= a + space + option + space + b);
    assert forall|i: int| 0 <= i < option.len() implies option[i] != '%' && option[i] != '$' by {
        assert(is_plain_unit_char(option[i]));
    }
    lemma_undoubled_plain(option);
    let words = s2.words.push(wb);
    assert(words =~= seq![wa, option, wb]);
    assert(words.map_values(|w: Seq<char>| undoubled(w)) =~= seq![bin, option, config_dir]);
}

/// The text of an element: each of the five entities stands for its character.
pub open spec fn xml_read(s: Seq<char>) -> Seq<char>
    decreases s.len(),
{
    if s.len() == 0 {
        Seq::empty()
    } else if starts_text(s, seq!['&', 'a', 'm', 'p', ';']) {
        seq!['&'] + xml_read(s.skip(5))
    } else if starts_text(s, seq!['&', 'l', 't', ';']) {
        seq!['<'] + xml_read(s.skip(4))
    } else if starts_text(s, seq!['&', 'g', 't', ';']) {
        seq!['>'] + xml_read(s.skip(4))
    } else if starts_text(s, seq!['&', 'q', 'u', 'o', 't', ';']) {
        seq!['"'] + xml_read(s.skip(6))
    } else if starts_text(s, seq!['&', 'a', 'p', 'o', 's', ';']) {
        seq!['\''] + xml_read(s.skip(6))
    } else {
        seq![s[0]] + xml_read(s.skip(1))
    }
}

proof fn lemma_xml_read_char(c: char, t: Seq<char>)
    ensures
        xml_read(escaped_xml_char(c) + t) == seq![c] + xml_read(t),
{
    let amp = seq!['&', 'a', 'm', 'p', ';'];
    let lt = seq!['&', 'l', 't', ';'];
    let gt = seq!['&', 'g', 't', ';'];
    let quot = seq!['&', 'q', 'u', 'o', 't', ';'];
    let apos = seq!['&', 'a', 'p', 'o', 's', ';'];
    reveal_strlit("&amp;");
    reveal_strlit("&lt;");
    reveal_strlit("&gt;");
    reveal_strlit("&quot;");
    reveal_strlit("&apos;");
    assert("&amp;"@ =~= amp);
    assert("&lt;"@ =~= lt);
    assert("&gt;"@ =~= gt);
    assert("&quot;"@ =~= quot);
    assert("&apos;"@ =~= apos);
    let e = escaped_xml_char(c);
    let s = e + t;
    assert(s.take(e.len() as int) =~= e);
    assert(s.skip(e.len() as int) =~= t);
    if c == '&' {
    } else if c == '<' {
        lemma_starts_other(s, amp, 1);
    } else if c == '>' {
        lemma_starts_other(s, amp, 1);
        lemma_starts_other(s, lt, 1);
    } else if c == '"' {
        lemma_starts_other(s, amp, 1);
        lemma_starts_other(s, lt, 1);
        lemma_starts_other(s, gt, 1);
    } else if c == '\'' {
        lemma_starts_other(s, amp, 2);
        lemma_starts_other(s, lt, 1);
        lemma_starts_other(s, gt, 1);
        lemma_starts_other(s, quot, 1);
    } else {
        assert(s[0] == c);
        lemma_starts_other(s, amp, 0);
        lemma_starts_other(s, lt, 0);
        lemma_starts_other(s, gt, 0);
        lemma_starts_other(s, quot, 0);
        lemma_starts_other(s, apos, 0);
    }
}

/// What is written into an element is read back from it.
pub proof fn law_xml_text_reads_back(s: Seq<char>)
    ensures
        xml_read(xml_text(s)) == s,
    decreases s.len(),
{
    let f = |c: char| escaped_xml_char(c);
    if s.len() == 0 {
        assert(s =~= Seq::<char>::empty());
    } else {
        lemma_concat_map_first(s, f);
        law_xml_text_reads_back(s.drop_first());
        lemma_xml_read_char(s[0], xml_text(s.drop_first()));
        assert(seq![s[0]] + s.drop_first() =~= s);
    }
}

/// A character that would start or end markup in an element, or end an attribute.
pub open spec fn is_markup(c: char) -> bool {
    c == '<' || c == '>' || c == '"' || c == '\''
}

/// No character of markup is left in what is written into an element.
pub proof fn law_xml_text_has_no_markup(s: Seq<char>)
    ensures
        forall|i: int| 0 <= i < xml_text(s).len() ==> !is_markup(#[trigger] xml_text(s)[i]),
    decreases s.len(),
{
    let f = |c: char| escaped_xml_char(c);
    if s.len() > 0 {
        law_xml_text_has_no_markup(s.drop_last());
        reveal_strlit("&amp;");
        reveal_strlit("&lt;");
        reveal_strlit("&gt;");
        reveal_strlit("&quot;");
        reveal_strlit("&apos;");
        let head = xml_text(s.drop_last());
        let last = escaped_xml_char(s.last());
        assert(xml_text(s) == head + last);
        assert forall|i: int| 0 <= i < xml_text(s).len() implies !is_markup(
            #[trigger] xml_text(s)[i],
        ) by {
            if i < head.len() {
                assert(xml_text(s)[i] == head[i]);
            } else {
                assert(xml_text(s)[i] == last[i - head.len()]);
            }
        }
    }
}

/// Text by text is written as the whole is.
pub proof fn law_xml_text_is_written_piecewise(a: Seq<char>, b: Seq<char>)
    ensures
        xml_text(a + b) == xml_text(a) + xml_text(b),
    decreases b.len(),
{
    if b.len() == 0 {
        assert(a + b =~= a);
        assert(xml_text(a) + xml_text(b) =~= xml_text(a));
    } else {
        law_xml_text_is_written_piecewise(a, b.drop_last());
        assert((a + b).drop_last() =~= a + b.drop_last());
        assert((a + b).last() == b.last());
        assert(xml_text(a + b) =~= xml_text(a) + xml_text(b));
    }
}

/// Whether one of the five entities starts at a place of a text.
pub open spec fn entity_at(s: Seq<char>, at: int) -> bool {
    let rest = s.skip(at);
    starts_text(rest, "&amp;"@) || starts_text(rest, "&lt;"@) || starts_text(rest, "&gt;"@)
        || starts_text(rest, "&quot;"@) || starts_text(rest, "&apos;"@)
}

/// Whether a text stands at a place of another one, whatever follows it.
proof fn lemma_starts_text_within(a: Seq<char>, b: Seq<char>, at: int, start: Seq<char>)
    requires
        0 <= at <= a.len(),
        starts_text(a.skip(at), start),
    ensures
        starts_text((a + b).skip(at), start),
{
    let n = start.len() as int;
    assert((a + b).skip(at).take(n) =~= a.skip(at).take(n));
}

proof fn lemma_entity_within(a: Seq<char>, b: Seq<char>, at: int)
    requires
        0 <= at <= a.len(),
        entity_at(a, at),
    ensures
        entity_at(a + b, at),
{
    let rest = a.skip(at);
    if starts_text(rest, "&amp;"@) {
        lemma_starts_text_within(a, b, at, "&amp;"@);
    } else if starts_text(rest, "&lt;"@) {
        lemma_starts_text_within(a, b, at, "&lt;"@);
    } else if starts_text(rest, "&gt;"@) {
        lemma_starts_text_within(a, b, at, "&gt;"@);
    } else if starts_text(rest, "&quot;"@) {
        lemma_starts_text_within(a, b, at, "&quot;"@);
    } else {
        lemma_starts_text_within(a, b, at, "&apos;"@);
    }
}

/// Every ampersand in what is written into an element starts one of the five entities.
pub proof fn law_xml_ampersands_start_entities(s: Seq<char>)
    ensures
        forall|i: int|
            0 <= i < xml_text(s).len() && #[trigger] xml_text(s)[i] == '&' ==> entity_at(
                xml_text(s),
                i,
            ),
    decreases s.len(),
{
    if s.len() > 0 {
        law_xml_ampersands_start_entities(s.drop_last());
        reveal_strlit("&amp;");
        reveal_strlit("&lt;");
        reveal_strlit("&gt;");
        reveal_strlit("&quot;");
        reveal_strlit("&apos;");
        let head = xml_text(s.drop_last());
        let last = escaped_xml_char(s.last());
        assert(xml_text(s) == head + last);
        assert forall|i: int|
            0 <= i < xml_text(s).len() && #[trigger] xml_text(s)[i] == '&' implies entity_at(
            xml_text(s),
            i,
        ) by {
            if i < head.len() {
                assert(head[i] == '&');
                lemma_entity_within(head, last, i);
            } else {
                assert(last[i - head.len()] == '&');
                assert(i == head.len());
                assert((head + last).skip(i) =~= last);
                assert(last.take(last.len() as int) =~= last);
            }
        }
    }
}

/// A text without an ampersand and without markup is written as it is.
pub proof fn law_xml_plain_text_stays(s: Seq<char>)
    requires
        forall|i: int| 0 <= i < s.len() ==> #[trigger] s[i] != '&' && !is_markup(s[i]),
    ensures
        xml_text(s) == s,
    decreases s.len(),
{
    if s.len() == 0 {
        assert(xml_text(s) =~= s);
    } else {
        let front = s.drop_last();
        assert forall|i: int| 0 <= i < front.len() implies #[trigger] front[i] != '&'
            && !is_markup(front[i]) by {
            assert(front[i] == s[i]);
        }
        law_xml_plain_text_stays(front);
        assert(s[s.len() - 1] != '&' && !is_markup(s[s.len() - 1]));
        assert(xml_text(s) =~= front + seq![s.last()]);
        assert(front + seq![s.last()] =~= s);
    }
}

/// A path below one that is UTF-8 is shown as the two with a separator between them, or
/// without one where the first is empty or ends in one.
proof fn lemma_joined_text(base: Seq<char>, name: Seq<char>)
    ensures
        ({
            let shown = display_text(joined_path(encode_utf8(base), encode_utf8(name)));
            shown == name || shown == base + seq!['/'] + name || shown == base + name
        }),
{
    let path = joined_path(encode_utf8(base), encode_utf8(name));
    law_text_is_shown_as_itself(name);
    let slash = seq!['/'];
    is_ascii_chars_encode_utf8(slash);
    assert(encode_utf8(slash) =~= seq![SEPARATOR]);
    lemma_encode_concat(base, slash);
    lemma_encode_concat(base + slash, name);
    lemma_encode_concat(base, name);
    law_text_is_shown_as_itself(base + slash + name);
    law_text_is_shown_as_itself(base + name);
    assert(encode_utf8(base).push(SEPARATOR) =~= encode_utf8(base) + seq![SEPARATOR]);
}

proof fn lemma_single_line_concat(a: Seq<char>, b: Seq<char>)
    requires
        is_single_line(a),
        is_single_line(b),
    ensures
        is_single_line(a + b),
{
    assert forall|i: int| 0 <= i < (a + b).len() implies (a + b)[i] != '\n' && (a + b)[i]
        != '\r' by {
        if i < a.len() {
            assert(a.contains(a[i]));
        } else {
            assert(b.contains(b[i - a.len()]));
        }
    }
}

proof fn lemma_unit_argument_single_line(s: Seq<char>)
    requires
        is_single_line(s),
    ensures
        is_single_line(unit_argument(s)),
{
    if !is_plain_unit_text(s) {
        lemma_escaped_unit_single_line(s);
        let body = concat_map(s, |c: char| escaped_unit_char(c));
        lemma_single_line_concat(seq!['"'], body);
        lemma_single_line_concat(seq!['"'] + body, seq!['"']);
    }
}

proof fn lemma_escaped_unit_single_line(s: Seq<char>)
    requires
        is_single_line(s),
    ensures
        is_single_line(concat_map(s, |c: char| escaped_unit_char(c))),
    decreases s.len(),
{
    let f = |c: char| escaped_unit_char(c);
    if s.len() > 0 {
        let front = s.drop_last();
        assert(is_single_line(front)) by {
            assert(forall|i: int| 0 <= i < front.len() ==> front[i] == s[i]);
        }
        lemma_escaped_unit_single_line(front);
        assert(s.contains(s.last()));
        reveal_strlit("\\\\");
        reveal_strlit("\\\"");
        reveal_strlit("%%");
        reveal_strlit("$$");
        assert(is_single_line(f(s.last())));
        lemma_single_line_concat(concat_map(front, f), f(s.last()));
    }
}

/// The fixed lines of a unit hold no line breaks.
proof fn lemma_unit_literals()
    ensures
        is_single_line("[Unit]"@),
        is_single_line("Description=wist agent daemon (edge controller)"@),
        is_single_line("Documentation=https://github.com/dayu-sec/wist-agentd"@),
        is_single_line("After=network-online.target"@),
        is_single_line("Wants=network-online.target"@),
        is_single_line("StartLimitIntervalSec=60"@),
        is_single_line("StartLimitBurst=10"@),
        is_single_line(""@),
        is_single_line("[Service]"@),
        is_single_line("Type=simple"@),
        is_single_line("ExecStart="@),
        is_single_line(" --config-dir "@),
        is_single_line("EnvironmentFile=-"@),
        is_single_line("Restart=always"@),
        is_single_line("RestartSec=5"@),
        is_single_line("KillSignal=SIGTERM"@),
        is_single_line("KillMode=control-group"@),
        is_single_line("TimeoutStopSec=30"@),
        is_single_line("SyslogIdentifier="@),
        is_single_line(SERVICE_NAME@),
        is_single_line("StandardOutput=journal"@),
        is_single_line("StandardError=journal"@),
        is_single_line("LimitNOFILE=65536"@),
        is_single_line("NoNewPrivileges=true"@),
        is_single_line("[Install]"@),
        is_single_line("WantedBy="@),
        is_single_line("multi-user.target"@),
        is_single_line("default.target"@),
{
    reveal_strlit("[Unit]");
    reveal_strlit("Description=wist agent daemon (edge controller)");
    reveal_strlit("Documentation=https://github.com/dayu-sec/wist-agentd");
    reveal_strlit("After=network-online.target");
    reveal_strlit("Wants=network-online.target");
    reveal_strlit("StartLimitIntervalSec=60");
    reveal_strlit("StartLimitBurst=10");
    reveal_strlit("");
    reveal_strlit("[Service]");
    reveal_strlit("Type=simple");
    reveal_strlit("ExecStart=");
    reveal_strlit(" --config-dir ");
    reveal_strlit("EnvironmentFile=-");
    reveal_strlit("Restart=always");
    reveal_strlit("RestartSec=5");
    reveal_strlit("KillSignal=SIGTERM");
    reveal_strlit("KillMode=control-group");
    reveal_strlit("TimeoutStopSec=30");
    reveal_strlit("SyslogIdentifier=");
    reveal_strlit("wist-agentd");
    reveal_strlit("StandardOutput=journal");
    reveal_strlit("StandardError=journal");
    reveal_strlit("LimitNOFILE=65536");
    reveal_strlit("NoNewPrivileges=true");
    reveal_strlit("[Install]");
    reveal_strlit("WantedBy=");
    reveal_strlit("multi-user.target");
    reveal_strlit("default.target");
}

proof fn lemma_unit_lines_single(spec: ServiceSpecView)
    requires
        unrepresentable_path(spec) is None,
        is_single_line(display_text(spec.env_path())),
    ensures
        forall|i: int| 0 <= i < unit_lines(spec).len() ==> is_single_line(#[trigger] unit_lines(
            spec,
        )[i]),
{
    lemma_unit_literals();
    let bin = unit_argument(display_text(spec.bin));
    let dir = unit_argument(display_text(spec.config_dir));
    let env = unit_argument(display_text(spec.env_path()));
    lemma_unit_argument_single_line(display_text(spec.bin));
    lemma_unit_argument_single_line(display_text(spec.config_dir));
    lemma_unit_argument_single_line(display_text(spec.env_path()));
    lemma_single_line_concat("ExecStart="@, bin);
    lemma_single_line_concat("ExecStart="@ + bin, " --config-dir "@);
    lemma_single_line_concat("ExecStart="@ + bin + " --config-dir "@, dir);
    lemma_single_line_concat("EnvironmentFile=-"@, env);
    lemma_single_line_concat("SyslogIdentifier="@, SERVICE_NAME@);
    lemma_single_line_concat("WantedBy="@, wanted_by(spec.scope));
}

/// The bytes of the environment file have no line break where those of the configuration
/// directory have none.
pub(crate) proof fn lemma_env_path_single_line(spec: ServiceSpecView)
    requires
        is_single_line_of_bytes(spec.config_dir),
    ensures
        is_single_line_of_bytes(spec.env_path()),
{
    let dir = spec.config_dir;
    let name = encode_utf8(ENV_FILE_NAME@);
    reveal_strlit("agentd.env");
    is_ascii_chars_encode_utf8(ENV_FILE_NAME@);
    assert(is_single_line_of_bytes(name));
    let path = spec.env_path();
    assert(path == joined_path(dir, name));
    assert forall|b: u8| b != SEPARATOR && path.contains(b) implies dir.contains(b)
        || name.contains(b) by {
        let i = choose|i: int| 0 <= i < path.len() && path[i] == b;
        if path == name {
            assert(name[i] == b);
        } else if i < dir.len() {
            assert(dir[i] == b);
        } else {
            let k = i - (path.len() - name.len());
            assert(name[k] == b);
        }
    }
}

/// A unit that is accepted for installation has exactly the lines that were meant: no
/// path in it starts another line. Where the configuration directory is not UTF-8, this
/// rests on the shown form of the environment file being free of line breaks, which
/// `unit_text` finds of every unit that it renders.
pub proof fn law_accepted_units_keep_their_lines(spec: ServiceSpecView)
    requires
        unrepresentable_path(spec) is None,
        valid_utf8(spec.config_dir) || is_single_line(display_text(spec.env_path())),
    ensures
        line_seq(unit_definition(spec)) == unit_lines(spec),
{
    if valid_utf8(spec.config_dir) {
        let dir = text_of(spec.config_dir)->0;
        lemma_is_text(spec.config_dir, dir);
        lemma_joined_text(dir, ENV_FILE_NAME@);
        reveal_strlit("agentd.env");
        assert(is_single_line(ENV_FILE_NAME@));
        assert(is_single_line(seq!['/']));
        lemma_single_line_concat(dir, seq!['/']);
        lemma_single_line_concat(dir + seq!['/'], ENV_FILE_NAME@);
        lemma_single_line_concat(dir, ENV_FILE_NAME@);
    }
    lemma_unit_lines_single(spec);
    law_lines_of_ended_lines(unit_lines(spec));
}

/// Every definition ends with a line feed, so that the body that an installation writes
/// and the line feed behind it are the definition as it is rendered.
pub proof fn law_written_definition_is_the_rendered_one(
    layout: ServiceLayoutView,
    spec: ServiceSpecView,
    home: Option<Seq<u8>>,
)
    ensures
        without_final_newline(definition_text(layout, spec, home)).push('\n') == definition_text(
            layout,
            spec,
            home,
        ),
{
    let text = definition_text(layout, spec, home);
    match layout.platform {
        ServicePlatform::Systemd => {
            let all = unit_lines(spec);
            assert(all.len() > 0);
            assert(text == (ended_lines(all.drop_last()) + all.last()).push('\n'));
        },
        ServicePlatform::Launchd => {
            let all = plist_parts(spec, layout.log_dir, home);
            reveal_strlit("</dict>\n</plist>\n");
            assert(all.last() == "</dict>\n</plist>\n"@);
            assert(text == concatenated(all.drop_last()) + all.last());
        },
    }
    assert(text.last() == '\n');
    assert(text.drop_last().push('\n') =~= text);
}

/// An installation never replaces a definition that is there unless it is told to, and
/// never writes one with a path that would break its lines.
pub proof fn law_refused_installations_write_nothing(
    layout: ServiceLayoutView,
    spec: ServiceSpecView,
    force: bool,
    existed: bool,
    home: Option<Seq<u8>>,
)
    ensures
        existed && !force ==> install_steps(layout, spec, force, existed, home) is Err,
        unrepresentable_path(spec) is Some ==> install_steps(layout, spec, force, existed, home)
            is Err,
        install_steps(layout, spec, force, existed, home) matches Ok(steps) ==> steps.len() >= 2
            && steps[0] is CreateDefinitionDir && steps[1] == (InstallStepView::WriteDefinition {
            path: layout.definition_path,
            body: without_final_newline(definition_text(layout, spec, home)),
        }),
{
}

/// The files that are there after a step that took effect.
pub open spec fn files_after_step(files: Set<Seq<u8>>, step: InstallStepView) -> Set<Seq<u8>> {
    match step {
        InstallStepView::WriteDefinition { path, .. } => files.insert(path),
        _ => files,
    }
}

/// The files that are there after steps that took effect.
pub open spec fn files_after(files: Set<Seq<u8>>, steps: Seq<InstallStepView>) -> Set<Seq<u8>>
    decreases steps.len(),
{
    if steps.len() == 0 {
        files
    } else {
        files_after_step(files_after(files, steps.drop_last()), steps.last())
    }
}

/// What deleting a file comes to where it may be deleted.
pub open spec fn deletion(files: Set<Seq<u8>>, path: Seq<u8>) -> FileRemoval {
    if files.contains(path) {
        FileRemoval::Removed
    } else {
        FileRemoval::NotFound
    }
}

/// Removing undoes an installation and says whether there was a definition. Where none is
/// there, removing says so; after an installation whose steps took effect it is there, is
/// removed, and the files are those from before; and then there is none again.
pub proof fn law_removal_undoes_installation(
    files: Set<Seq<u8>>,
    layout: ServiceLayoutView,
    spec: ServiceSpecView,
    home: Option<Seq<u8>>,
    steps: Seq<InstallStepView>,
)
    requires
        !files.contains(layout.definition_path),
        install_steps(layout, spec, false, files.contains(layout.definition_path), home) == Ok::<
            _,
            AgentdErrorView,
        >(steps),
    ensures
        ({
            let path = layout.definition_path;
            let installed = files_after(files, steps);
            &&& removal_answer(path, deletion(files, path)) == Ok::<_, AgentdErrorView>(false)
            &&& installed.contains(path)
            &&& removal_answer(path, deletion(installed, path)) == Ok::<_, AgentdErrorView>(true)
            &&& installed.remove(path) == files
            &&& removal_answer(path, deletion(installed.remove(path), path)) == Ok::<
                _,
                AgentdErrorView,
            >(false)
        }),
{
    let path = layout.definition_path;
    let two = steps.take(2);
    assert(two.drop_last().drop_last() =~= Seq::<InstallStepView>::empty());
    assert(files_after(files, two.drop_last().drop_last()) == files);
    assert(files_after(files, two.drop_last()) == files);
    assert(files_after(files, two) == files.insert(path));
    match layout.log_dir {
        Some(_) => {
            assert(steps.drop_last() =~= two);
        },
        None => {
            assert(steps =~= two);
        },
    }
    assert(files.insert(path).remove(path) =~= files);
}

/// A command that replaces the running process: a restart of the unit, or loading the
/// job anew.
pub open spec fn replaces_process(command: ServiceCommandView) -> bool {
    command.args.contains("restart"@) || command.args.contains("bootstrap"@)
}

/// Exactly one step of an activation is tried again, it is one that replaces the running
/// process, and its failure counts. Nothing is tried again when a service is stopped or
/// looked at.
pub proof fn law_only_the_restart_is_retried(
    layout: ServiceLayoutView,
    spec: ServiceSpecView,
    uid: u32,
)
    ensures
        ({
            let steps = activation(layout, spec, uid);
            exists|at: int|
                {
                    &&& 0 <= at < steps.len()
                    &&& (#[trigger] steps[at]).retries == ACTIVATE_RETRIES
                    &&& !steps[at].ignore_failure
                    &&& replaces_process(steps[at])
                    &&& forall|i: int| 0 <= i < steps.len() && i != at ==> (#[trigger] steps[i]).retries == 0
                }
        }),
        forall|i: int|
            0 <= i < deactivation(layout.platform, spec, uid).len() ==> (
            #[trigger] deactivation(layout.platform, spec, uid)[i]).retries == 0,
        forall|i: int|
            0 <= i < inspection(layout.platform, spec, uid).len() ==> (#[trigger] inspection(
                layout.platform,
                spec,
                uid,
            )[i]).retries == 0,
{
    let steps = activation(layout, spec, uid);
    match layout.platform {
        ServicePlatform::Systemd => {
            let args = spec.scope_args() + seq!["restart"@, SERVICE_NAME@];
            assert(args[spec.scope_args().len() as int] == "restart"@);
            assert(steps[2].args == args);
            assert(replaces_process(steps[2]));
            assert(steps[2].retries == ACTIVATE_RETRIES);
        },
        ServicePlatform::Launchd => {
            assert(steps[1].args[0] == "bootstrap"@);
            assert(replaces_process(steps[1]));
            assert(steps[1].retries == ACTIVATE_RETRIES);
        },
    }
}

/// How many runs it takes until a result stands, if the runs end as listed.
pub open spec fn runs_until_result(retries: u32, runs: Seq<bool>, failed_before: u32) -> nat
    decreases runs.len(),
{
    if runs.len() == 0 {
        0
    } else {
        match next_attempt(retries, failed_before, runs[0]) {
            None => 1,
            Some(next) => 1 + runs_until_result(retries, runs.skip(1), next),
        }
    }
}

/// A command is run at most once more than it has retries. Where it succeeds within
/// these runs it is not run again after its first success, and otherwise the last of
/// them is the one that stands.
pub proof fn law_retries_are_bounded(retries: u32, runs: Seq<bool>, failed_before: u32)
    requires
        failed_before <= retries,
        runs.len() == retries - failed_before + 1,
    ensures
        1 <= runs_until_result(retries, runs, failed_before) <= retries - failed_before + 1,
        ({
            let n = runs_until_result(retries, runs, failed_before);
            &&& forall|i: int| 0 <= i < n - 1 ==> !(#[trigger] runs[i])
            &&& runs[n - 1] || n == retries - failed_before + 1
        }),
    decreases runs.len(),
{
    if next_attempt(retries, failed_before, runs[0]) is Some {
        let rest = runs.skip(1);
        law_retries_are_bounded(retries, rest, (failed_before + 1) as u32);
        let m = runs_until_result(retries, rest, (failed_before + 1) as u32);
        assert forall|i: int| 0 <= i < m implies !(#[trigger] runs[i]) by {
            if i > 0 {
                assert(rest[i - 1] == runs[i]);
            }
        }
        assert(rest[m - 1] == runs[m as int]);
    }
}

/// Whether a list of results is another one with the result of the next command behind it.
pub open spec fn is_next_run(
    commands: Seq<ServiceCommandView>,
    before: Seq<ServiceCommandOutcomeView>,
    after: Seq<ServiceCommandOutcomeView>,
) -> bool {
    match next_place(commands.len(), before.len()) {
        Some(place) => after.len() == before.len() + 1 && after.drop_last() == before
            && after.last().command == commands[place as int],
        None => false,
    }
}

/// Whether lists of results are those of some commands, one run after the other: the first
/// is empty, and each further one has one result more.
pub open spec fn is_sequence_of_runs(
    commands: Seq<ServiceCommandView>,
    history: Seq<Seq<ServiceCommandOutcomeView>>,
) -> bool {
    &&& history.len() > 0
    &&& history[0].len() == 0
    &&& forall|k: int|
        0 < k < history.len() ==> #[trigger] is_next_run(commands, history[k - 1], history[k])
}

/// Commands are run in their order and each leaves one result, whether they fail or not.
/// When none is left to run, the results that are judged are those of all commands.
pub proof fn law_every_command_is_run_and_judged(
    commands: Seq<ServiceCommandView>,
    history: Seq<Seq<ServiceCommandOutcomeView>>,
)
    requires
        commands.len() <= usize::MAX,
        is_sequence_of_runs(commands, history),
    ensures
        history.last().len() == history.len() - 1,
        history.last().len() <= commands.len(),
        forall|i: int|
            0 <= i < history.last().len() ==> #[trigger] history.last()[i].command == commands[i],
        next_place(commands.len(), history.last().len()) is None
            ==> history.last().map_values(|o: ServiceCommandOutcomeView| o.command) == commands,
    decreases history.len(),
{
    let last = history.last();
    if history.len() > 1 {
        let earlier = history.drop_last();
        let k = history.len() - 1;
        assert(is_next_run(commands, history[k - 1], history[k]));
        assert forall|j: int| 0 < j < earlier.len() implies #[trigger] is_next_run(
            commands,
            earlier[j - 1],
            earlier[j],
        ) by {
            assert(is_next_run(commands, history[j - 1], history[j]));
        }
        law_every_command_is_run_and_judged(commands, earlier);
        let before = history[k - 1];
        assert(earlier.last() == before);
        assert forall|i: int| 0 <= i < last.len() implies #[trigger] last[i].command
            == commands[i] by {
            if i < before.len() {
                assert(last.drop_last()[i] == last[i]);
                assert(before[i].command == commands[i]);
            }
        }
    }
    assert(last.len() == commands.len() ==> last.map_values(
        |o: ServiceCommandOutcomeView| o.command,
    ) =~= commands);
}

} // verus!
