//! Environment variables in configuration values.
use crate::text::text_eq;
use vstd::prelude::*;
use vstd::string::*;

verus! {

/// Why a configuration cannot be used.
#[derive(Debug, Clone, Copy, PartialEq, Eq, Structural)]
pub enum ConfigReason {
    /// A value refers to a variable that is not set.
    MissingEnvVar,
}

/// A reason with what it is about.
#[derive(Debug, PartialEq, Eq)]
pub struct ConfigError {
    pub reason: ConfigReason,
    pub detail: String,
}

/// A variable and its value.
#[derive(Debug, PartialEq, Eq)]
pub struct EnvVar {
    pub name: String,
    pub value: String,
}

/// The variables that values may refer to.
#[derive(Debug, PartialEq, Eq)]
pub struct EnvSnapshot {
    pub vars: Vec<EnvVar>,
}

/// The values of a list of variables; a later one replaces an earlier one.
pub open spec fn env_values(vars: Seq<EnvVar>) -> Map<Seq<char>, Seq<char>>
    decreases vars.len(),
{
    if vars.len() == 0 {
        Map::empty()
    } else {
        env_values(vars.drop_last()).insert(vars.last().name@, vars.last().value@)
    }
}

impl View for EnvSnapshot {
    type V = Map<Seq<char>, Seq<char>>;

    open spec fn view(&self) -> Map<Seq<char>, Seq<char>> {
        env_values(self.vars@)
    }
}

impl EnvSnapshot {
    /// No variables.
    pub fn new() -> (env: EnvSnapshot)
        ensures
            env@ == Map::<Seq<char>, Seq<char>>::empty(),
    {
        EnvSnapshot { vars: Vec::new() }
    }

    /// Sets a variable.
    pub fn set(&mut self, name: String, value: String)
        ensures
            final(self)@ == old(self)@.insert(name@, value@),
    {
        let ghost before = self.vars@;
        self.vars.push(EnvVar { name, value });
        proof {
            assert(self.vars@.drop_last() =~= before);
        }
    }

    /// The value of a variable.
    pub fn get(&self, name: &str) -> (value: Option<&String>)
        ensures
            match value {
                Some(v) => self@.contains_key(name@) && self@[name@] == v@,
                None => !self@.contains_key(name@),
            },
    {
        let mut at: usize = self.vars.len();
        proof {
            assert(self.vars@.take(at as int) =~= self.vars@);
        }
        while at > 0
            invariant
                at <= self.vars@.len(),
                self@.contains_key(name@) == env_values(self.vars@.take(at as int)).contains_key(
                    name@,
                ),
                self@.contains_key(name@) ==> self@[name@] == env_values(
                    self.vars@.take(at as int),
                )[name@],
            decreases at,
        {
            proof {
                assert(self.vars@.take(at as int).drop_last() =~= self.vars@.take(at - 1));
            }
            at = at - 1;
            if text_eq(self.vars[at].name.as_str(), name) {
                return Some(&self.vars[at].value);
            }
        }
        None
    }
}

/// Where a reference to a variable starts: the index of the first `${`, or the length
/// of the text where there is none.
pub open spec fn first_open(s: Seq<char>) -> int
    decreases s.len(),
{
    if s.len() < 2 {
        s.len() as int
    } else if s[0] == '$' && s[1] == '{' {
        0
    } else {
        1 + first_open(s.skip(1))
    }
}

/// The index of the first closing brace, or the length of the text where there is none.
pub open spec fn first_close(s: Seq<char>) -> int
    decreases s.len(),
{
    if s.len() == 0 {
        0
    } else if s[0] == '}' {
        0
    } else {
        1 + first_close(s.skip(1))
    }
}

/// Both searches stay within the text.
pub proof fn lemma_first_bounds(s: Seq<char>)
    ensures
        0 <= first_open(s) <= s.len(),
        first_open(s) < s.len() ==> first_open(s) + 2 <= s.len(),
        0 <= first_close(s) <= s.len(),
        first_close(s) < s.len() ==> s[first_close(s)] == '}',
    decreases s.len(),
{
    if s.len() > 0 {
        lemma_first_bounds(s.skip(1));
    }
}

/// A text with each reference to a variable replaced by its value, or the name of the
/// first variable that is not set. What is inserted is not searched again, and an
/// opening without a closing brace stays as it is.
pub open spec fn expanded(s: Seq<char>, env: Map<Seq<char>, Seq<char>>) -> Result<
    Seq<char>,
    Seq<char>,
>
    decreases s.len(),
{
    let start = first_open(s);
    let rest = s.skip(start + 2);
    let end = first_close(rest);
    if start >= s.len() || end >= rest.len() {
        Ok(s)
    } else {
        let name = rest.take(end);
        if !env.contains_key(name) {
            Err(name)
        } else {
            proof {
                lemma_first_bounds(s);
                lemma_first_bounds(rest);
            }
            match expanded(rest.skip(end + 1), env) {
                Ok(tail) => Ok(s.take(start) + env[name] + tail),
                Err(missing) => Err(missing),
            }
        }
    }
}

fn char_list(text: &str) -> (out: Vec<char>)
    ensures
        out@ == text@,
{
    let mut out: Vec<char> = Vec::new();
    for c in it: text.chars()
        invariant
            it.seq() == text@,
            out@ == text@.take(it.index()),
    {
        proof {
            assert(text@.take(it.index() + 1) =~= text@.take(it.index()).push(c));
        }
        out.push(c);
    }
    proof {
        assert(text@.take(text@.len() as int) =~= text@);
    }
    out
}

fn append_range(out: &mut String, chars: &Vec<char>, from: usize, to: usize)
    requires
        from <= to <= chars@.len(),
    ensures
        final(out)@ == old(out)@ + chars@.subrange(from as int, to as int),
{
    for i in from..to
        invariant
            from <= to <= chars@.len(),
            out@ == old(out)@ + chars@.subrange(from as int, i as int),
    {
        proof {
            assert(chars@.subrange(from as int, i + 1) =~= chars@.subrange(
                from as int,
                i as int,
            ).push(chars@[i as int]));
        }
        out.push(chars[i]);
    }
}

fn find_open(chars: &Vec<char>, from: usize) -> (at: usize)
    requires
        from <= chars@.len(),
    ensures
        at == from + first_open(chars@.skip(from as int)),
{
    let mut at: usize = from;
    while chars.len() - at > 1
        invariant
            from <= at <= chars@.len(),
            from + first_open(chars@.skip(from as int)) == at + first_open(chars@.skip(at as int)),
        decreases chars@.len() - at,
    {
        proof {
            assert(chars@.skip(at as int).skip(1) =~= chars@.skip(at + 1));
        }
        if chars[at] == '$' && chars[at + 1] == '{' {
            return at;
        }
        at = at + 1;
    }
    chars.len()
}

fn find_close(chars: &Vec<char>, from: usize) -> (at: usize)
    requires
        from <= chars@.len(),
    ensures
        at == from + first_close(chars@.skip(from as int)),
{
    let mut at: usize = from;
    while at < chars.len()
        invariant
            from <= at <= chars@.len(),
            from + first_close(chars@.skip(from as int)) == at + first_close(
                chars@.skip(at as int),
            ),
        decreases chars@.len() - at,
    {
        proof {
            assert(chars@.skip(at as int).skip(1) =~= chars@.skip(at + 1));
        }
        if chars[at] == '}' {
            return at;
        }
        at = at + 1;
    }
    chars.len()
}

/// What an expansion gives, by its view.
pub open spec fn expansion(out: Result<String, ConfigError>) -> Result<Seq<char>, Seq<char>> {
    match out {
        Ok(text) => Ok(text@),
        Err(e) => Err(e.detail@),
    }
}

/// Replaces each reference to a variable by its value.
pub fn expand_string(value: &str, env: &EnvSnapshot) -> (out: Result<String, ConfigError>)
    ensures
        expansion(out) == expanded(value@, env@),
        out matches Err(e) ==> e.reason == ConfigReason::MissingEnvVar,
{
    let chars = char_list(value);
    let mut out = String::new();
    let mut cursor: usize = 0;
    proof {
        assert(chars@.skip(0) =~= value@);
        match expanded(value@, env@) {
            Ok(tail) => {
                assert(Seq::<char>::empty() + tail =~= tail);
            },
            Err(_) => {},
        }
    }
    loop
        invariant
            cursor <= chars@.len(),
            expanded(value@, env@) == (match expanded(chars@.skip(cursor as int), env@) {
                Ok(tail) => Ok::<Seq<char>, Seq<char>>(out@ + tail),
                Err(missing) => Err(missing),
            }),
        decreases chars@.len() - cursor,
    {
        let ghost left = chars@.skip(cursor as int);
        proof {
            lemma_first_bounds(left);
        }
        let start = find_open(&chars, cursor);
        if start >= chars.len() {
            append_range(&mut out, &chars, cursor, chars.len());
            proof {
                assert(chars@.subrange(cursor as int, chars@.len() as int) =~= left);
            }
            return Ok(out);
        }
        let ghost rest = left.skip(start - cursor + 2);
        proof {
            assert(rest =~= chars@.skip(start + 2));
            lemma_first_bounds(rest);
        }
        let end = find_close(&chars, start + 2);
        if end >= chars.len() {
            append_range(&mut out, &chars, cursor, chars.len());
            proof {
                assert(chars@.subrange(cursor as int, chars@.len() as int) =~= left);
            }
            return Ok(out);
        }
        let mut name = String::new();
        append_range(&mut name, &chars, start + 2, end);
        proof {
            assert(name@ =~= rest.take(end - start - 2));
        }
        let ghost done = out@;
        append_range(&mut out, &chars, cursor, start);
        match env.get(name.as_str()) {
            Some(found) => {
                out.append(found.as_str());
                proof {
                    assert(chars@.subrange(cursor as int, start as int) =~= left.take(
                        start - cursor,
                    ));
                    assert(rest.skip(end - start - 2 + 1) =~= chars@.skip(end + 1));
                    match expanded(chars@.skip(end + 1), env@) {
                        Ok(tail) => {
                            assert(done + (left.take(start - cursor) + env@[name@] + tail) =~= out@
                                + tail);
                        },
                        Err(_) => {},
                    }
                }
                cursor = end + 1;
            },
            None => {
                return Err(ConfigError { reason: ConfigReason::MissingEnvVar, detail: name });
            },
        }
    }
}

/// What an expansion of an optional value gives, by its view.
pub open spec fn opt_expanded(value: Option<Seq<char>>, env: Map<Seq<char>, Seq<char>>) -> Result<
    Option<Seq<char>>,
    Seq<char>,
> {
    match value {
        Some(s) => match expanded(s, env) {
            Ok(t) => Ok(Some(t)),
            Err(missing) => Err(missing),
        },
        None => Ok(None),
    }
}

/// Replaces each reference to a variable in an optional value.
pub fn expand_optional(value: &Option<String>, env: &EnvSnapshot) -> (out: Result<
    Option<String>,
    ConfigError,
>)
    ensures
        match out {
            Ok(text) => opt_expanded(crate::text::opt_text(*value), env@) == Ok::<_, Seq<char>>(
                crate::text::opt_text(text),
            ),
            Err(e) => opt_expanded(crate::text::opt_text(*value), env@) == Err::<
                Option<Seq<char>>,
                _,
            >(e.detail@) && e.reason == ConfigReason::MissingEnvVar,
        },
{
    match value {
        Some(text) => match expand_string(text.as_str(), env) {
            Ok(t) => Ok(Some(t)),
            Err(e) => Err(e),
        },
        None => Ok(None),
    }
}

/// A value without `${` is left as it is, whatever variables are set.
pub proof fn law_plain_values_stay(s: Seq<char>, env: Map<Seq<char>, Seq<char>>)
    requires
        first_open(s) == s.len(),
    ensures
        expanded(s, env) == Ok::<_, Seq<char>>(s),
{
}

/// `${` occurs in a text exactly if the first occurrence is before its end.
pub proof fn law_first_open_finds_the_first(s: Seq<char>, i: int)
    requires
        0 <= i,
        i + 1 < s.len(),
        s[i] == '$' && s[i + 1] == '{',
    ensures
        first_open(s) <= i,
    decreases s.len(),
{
    if i > 0 {
        law_first_open_finds_the_first(s.skip(1), i - 1);
    }
}

/// A value that is one reference to a variable becomes the value of that variable as it
/// is, even where that looks like a reference itself.
pub proof fn law_expansion_is_verbatim(name: Seq<char>, env: Map<Seq<char>, Seq<char>>)
    requires
        env.contains_key(name),
        !name.contains('}'),
    ensures
        expanded(seq!['$', '{'] + name + seq!['}'], env) == Ok::<_, Seq<char>>(env[name]),
{
    let s = seq!['$', '{'] + name + seq!['}'];
    let rest = s.skip(2);
    assert(rest =~= name + seq!['}']);
    assert(s[0] == '$' && s[1] == '{');
    reveal_with_fuel(expanded, 2);
    lemma_first_close_at(name);
    assert(rest.take(name.len() as int) =~= name);
    assert(rest.skip(name.len() as int + 1) =~= Seq::<char>::empty());
    assert(s.take(0) + env[name] + Seq::<char>::empty() =~= env[name]);
}

proof fn lemma_first_close_at(name: Seq<char>)
    requires
        !name.contains('}'),
    ensures
        first_close(name + seq!['}']) == name.len(),
    decreases name.len(),
{
    let s = name + seq!['}'];
    if name.len() > 0 {
        let tail = name.skip(1);
        assert(s.skip(1) =~= tail + seq!['}']);
        assert(name.contains(name[0]));
        assert(!tail.contains('}')) by {
            if tail.contains('}') {
                let i = choose|i: int| 0 <= i < tail.len() && tail[i] == '}';
                assert(name[i + 1] == '}');
            }
        }
        lemma_first_close_at(tail);
    }
}

/// A text in which no reference to a variable starts.
pub open spec fn opens_nothing(s: Seq<char>) -> bool {
    forall|i: int| 0 <= i < s.len() - 1 ==> !(#[trigger] s[i] == '$' && s[i + 1] == '{')
}

proof fn lemma_first_open_at(front: Seq<char>, rest: Seq<char>)
    requires
        opens_nothing(front),
    ensures
        first_open(front + seq!['$', '{'] + rest) == front.len(),
    decreases front.len(),
{
    let s = front + seq!['$', '{'] + rest;
    if front.len() > 0 {
        let tail = front.skip(1);
        assert(opens_nothing(tail)) by {
            assert forall|i: int| 0 <= i < tail.len() - 1 implies !(#[trigger] tail[i] == '$'
                && tail[i + 1] == '{') by {
                assert(tail[i] == front[i + 1]);
            }
        }
        lemma_first_open_at(tail, rest);
        assert(s.skip(1) =~= tail + seq!['$', '{'] + rest);
        assert(s[0] == front[0]);
        if front.len() > 1 {
            assert(s[1] == front[1]);
        } else {
            assert(s[1] == '$');
        }
    } else {
        assert(s[0] == '$' && s[1] == '{');
    }
}

proof fn lemma_first_open_none(s: Seq<char>)
    requires
        opens_nothing(s),
    ensures
        first_open(s) == s.len(),
    decreases s.len(),
{
    if s.len() >= 2 {
        let tail = s.skip(1);
        assert forall|i: int| 0 <= i < tail.len() - 1 implies !(#[trigger] tail[i] == '$'
            && tail[i + 1] == '{') by {
            assert(tail[i] == s[i + 1]);
        }
        lemma_first_open_none(tail);
        let first: int = 0;
        assert(!(s[first] == '$' && s[first + 1] == '{'));
    }
}

proof fn lemma_first_close_behind(name: Seq<char>, rest: Seq<char>)
    requires
        !name.contains('}'),
    ensures
        first_close(name + seq!['}'] + rest) == name.len(),
    decreases name.len(),
{
    let s = name + seq!['}'] + rest;
    if name.len() > 0 {
        let tail = name.skip(1);
        assert(s.skip(1) =~= tail + seq!['}'] + rest);
        assert(name.contains(name[0]));
        assert(s[0] == name[0]);
        assert(!tail.contains('}')) by {
            if tail.contains('}') {
                let i = choose|i: int| 0 <= i < tail.len() && tail[i] == '}';
                assert(name[i + 1] == '}');
            }
        }
        lemma_first_close_behind(tail, rest);
    } else {
        assert(s[0] == '}');
    }
}

proof fn lemma_first_close_none(s: Seq<char>)
    requires
        !s.contains('}'),
    ensures
        first_close(s) == s.len(),
    decreases s.len(),
{
    if s.len() > 0 {
        let tail = s.skip(1);
        assert(s.contains(s[0]));
        assert(!tail.contains('}')) by {
            if tail.contains('}') {
                let i = choose|i: int| 0 <= i < tail.len() && tail[i] == '}';
                assert(s[i + 1] == '}');
            }
        }
        lemma_first_close_none(tail);
    }
}

/// The first reference of a text is replaced by the value of its variable, what stands
/// before it is kept, and what stands behind it is expanded by itself, from the character
/// behind the closing brace on. Where the variable is not set, it is the one that is
/// missing.
pub proof fn law_only_references_are_replaced(
    front: Seq<char>,
    name: Seq<char>,
    rest: Seq<char>,
    env: Map<Seq<char>, Seq<char>>,
)
    requires
        opens_nothing(front),
        !name.contains('}'),
    ensures
        env.contains_key(name) ==> expanded(
            front + seq!['$', '{'] + name + seq!['}'] + rest,
            env,
        ) == (match expanded(rest, env) {
            Ok(tail) => Ok::<_, Seq<char>>(front + env[name] + tail),
            Err(missing) => Err(missing),
        }),
        !env.contains_key(name) ==> expanded(
            front + seq!['$', '{'] + name + seq!['}'] + rest,
            env,
        ) == Err::<Seq<char>, _>(name),
{
    let behind = name + seq!['}'] + rest;
    let s = front + seq!['$', '{'] + name + seq!['}'] + rest;
    assert(s =~= front + seq!['$', '{'] + behind);
    lemma_first_open_at(front, behind);
    let start = front.len() as int;
    assert(s.skip(start + 2) =~= behind);
    lemma_first_close_behind(name, rest);
    assert(behind.take(name.len() as int) =~= name);
    assert(behind.skip(name.len() as int + 1) =~= rest);
    assert(s.take(start) =~= front);
}

/// Text outside references is kept as it is: text, a reference to a variable that is set,
/// and text become the first text, the value and the second text.
pub proof fn law_text_around_a_reference_stays(
    front: Seq<char>,
    name: Seq<char>,
    back: Seq<char>,
    env: Map<Seq<char>, Seq<char>>,
)
    requires
        opens_nothing(front),
        opens_nothing(back),
        !name.contains('}'),
        env.contains_key(name),
    ensures
        expanded(front + seq!['$', '{'] + name + seq!['}'] + back, env) == Ok::<_, Seq<char>>(
            front + env[name] + back,
        ),
{
    law_only_references_are_replaced(front, name, back, env);
    law_text_without_references_stays(back, env);
}

/// A text in which no reference starts is kept as it is.
pub proof fn law_text_without_references_stays(s: Seq<char>, env: Map<Seq<char>, Seq<char>>)
    requires
        opens_nothing(s),
    ensures
        expanded(s, env) == Ok::<_, Seq<char>>(s),
{
    lemma_first_open_none(s);
}

/// A reference that is not closed is no reference: it stays, with what stands before it and
/// behind it.
pub proof fn law_open_references_stay(
    front: Seq<char>,
    rest: Seq<char>,
    env: Map<Seq<char>, Seq<char>>,
)
    requires
        opens_nothing(front),
        !rest.contains('}'),
    ensures
        expanded(front + seq!['$', '{'] + rest, env) == Ok::<_, Seq<char>>(
            front + seq!['$', '{'] + rest,
        ),
{
    let s = front + seq!['$', '{'] + rest;
    lemma_first_open_at(front, rest);
    assert(s.skip(front.len() as int + 2) =~= rest);
    lemma_first_close_none(rest);
}

/// A variable that is set is never reported as missing.
pub proof fn law_missing_variables_are_not_set(s: Seq<char>, env: Map<Seq<char>, Seq<char>>)
    ensures
        expanded(s, env) matches Err(missing) ==> !env.contains_key(missing),
    decreases s.len(),
{
    let start = first_open(s);
    let rest = s.skip(start + 2);
    let end = first_close(rest);
    if start < s.len() && end < rest.len() && env.contains_key(rest.take(end)) {
        lemma_first_bounds(s);
        lemma_first_bounds(rest);
        law_missing_variables_are_not_set(rest.skip(end + 1), env);
    }
}

} // verus!
