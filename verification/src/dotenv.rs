//! `.env` file parsing: logical lines, assignments, quoting, escapes and substitutions.
//!
//! Reading the file and setting process variables is left to the caller: the library turns the
//! file's text and the current environment into the assignments to perform.
use vstd::prelude::*;
use crate::env::{env_lookup, last_value, EnvVars};
use crate::text::{
    chars_of, push_char, append_str, utf8_size, utf8_width, lemma_utf8_size_take, is_ws, is_whitespace,
    trim_start, lead_ws, lemma_lead_ws, lemma_lead_ws_unique, string_of_range, trim_end, trail_ws,
    lemma_trail_ws, lemma_trail_ws_unique, is_ascii_alpha, is_ascii_alnum, ascii_alpha, ascii_alnum,
    string_of, str_eq,
};

verus! {

/// Errors produced while parsing a `.env` file.
#[derive(Debug, PartialEq, Eq)]
pub enum Error {
    /// A line could not be parsed: the offending line and the byte offset at which parsing
    /// failed.
    LineParse(String, usize),
}

/// Values of the variables assigned so far in the file (`None` for an empty assignment).
#[derive(Debug)]
pub struct SubstitutionData {
    /// Assignments in file order; the latest assignment of a name wins.
    pub entries: Vec<(String, Option<String>)>,
}

/// Optional string, by its characters.
pub open spec fn opt_view(v: Option<String>) -> Option<Seq<char>> {
    match v {
        Some(s) => Some(s@),
        None => None,
    }
}

impl View for SubstitutionData {
    type V = Seq<(Seq<char>, Option<Seq<char>>)>;

    open spec fn view(&self) -> Seq<(Seq<char>, Option<Seq<char>>)> {
        self.entries@.map_values(|p: (String, Option<String>)| (p.0@, opt_view(p.1)))
    }
}

/// Value the file last assigned to `name`, when it assigned a non-empty one.
pub open spec fn data_lookup(data: Seq<(Seq<char>, Option<Seq<char>>)>, name: Seq<char>) -> Option<Seq<char>> {
    match last_value(data, name) {
        Some(Some(v)) => Some(v),
        _ => None,
    }
}

impl SubstitutionData {
    /// No assignment yet.
    pub fn new() -> (r: SubstitutionData)
        ensures
            r@ == Seq::<(Seq<char>, Option<Seq<char>>)>::empty(),
    {
        let r = SubstitutionData { entries: Vec::new() };
        assert(r@ =~= Seq::<(Seq<char>, Option<Seq<char>>)>::empty());
        r
    }

    /// Records an assignment (`HashMap::insert`).
    pub fn insert(&mut self, name: String, value: Option<String>)
        ensures
            final(self)@ == old(self)@.push((name@, opt_view(value))),
    {
        let ghost nv = name@;
        let ghost vv = opt_view(value);
        self.entries.push((name, value));
        assert(self@ =~= old(self)@.push((nv, vv)));
    }

    /// Value last assigned to `name`, when non-empty.
    pub fn get(&self, name: &String) -> (r: Option<String>)
        ensures
            r matches Some(v) ==> data_lookup(self@, name@) == Some(v@),
            r is None ==> data_lookup(self@, name@) is None,
    {
        let mut n = self.entries.len();
        assert(self@.take(n as int) =~= self@);
        while n > 0
            invariant
                n <= self.entries@.len(),
                last_value(self@, name@) == last_value(self@.take(n as int), name@),
            decreases n,
        {
            assert(self@.take(n as int).drop_last() =~= self@.take(n - 1));
            assert(self@.take(n as int).last() == (self.entries@[n - 1].0@, opt_view(self.entries@[n - 1].1)));
            if self.entries[n - 1].0 == *name {
                return match &self.entries[n - 1].1 {
                    Some(v) => Some(v.clone()),
                    None => None,
                };
            }
            n -= 1;
        }
        None
    }
}

/// Value substituted for `name`: the environment's value, else the file's non-empty value, else
/// nothing.
pub open spec fn subst_value(env: Seq<(Seq<char>, Seq<char>)>, data: Seq<(Seq<char>, Option<Seq<char>>)>, name: Seq<char>) -> Seq<char> {
    match env_lookup(env, name) {
        Some(v) => v,
        None => match data_lookup(data, name) {
            Some(v) => v,
            None => Seq::empty(),
        },
    }
}

/// Appends the resolved substitution value to the parsed output and clears the name.
pub fn apply_substitution(
    env: &EnvVars,
    substitution_data: &SubstitutionData,
    substitution_name: &mut String,
    output: &mut String,
)
    ensures
        final(substitution_name)@ == Seq::<char>::empty(),
        final(output)@ == old(output)@ + subst_value(env@, substitution_data@, old(substitution_name)@),
{
    let mut name = String::new();
    std::mem::swap(&mut name, substitution_name);
    let value = match env.get(&name) {
        Some(v) => v,
        None => match substitution_data.get(&name) {
            Some(v) => v,
            None => String::new(),
        },
    };
    append_str(output, value.as_str());
}

/// Unicode alphanumeric test of `char::is_alphanumeric`.
pub uninterp spec fn is_alphanumeric_char(c: char) -> bool;

/// Whether `c` continues a substitution name: an ASCII letter or digit, or beyond ASCII a
/// character that `char::is_alphanumeric` accepts.
pub open spec fn name_char(c: char) -> bool {
    if (c as u32) < 0x80 {
        crate::text::is_ascii_alnum(c)
    } else {
        is_alphanumeric_char(c)
    }
}

/// `char::is_alphanumeric`: whether `c` is alphabetic or numeric in Unicode terms. For ASCII
/// characters this is exactly the letters and the digits.
#[verifier::external_body]
fn char_is_alphanumeric(c: char) -> (b: bool)
    ensures
        b == is_alphanumeric_char(c),
        (c as u32) < 0x80 ==> (b <==> crate::text::is_ascii_alnum(c)),
{
    c.is_alphanumeric()
}

/// State for parsing braced variable substitutions in values.
#[derive(Debug, Clone, Copy, PartialEq, Eq, Structural)]
pub enum SubstitutionMode {
    /// Parsing characters inside a substitution.
    Block,
    /// Inside a `${...}` substitution.
    EscapedBlock,
}

/// Scanner state while parsing one value.
pub struct ValueState {
    /// Inside single quotes.
    pub strong: bool,
    /// Inside double quotes.
    pub weak: bool,
    /// After a backslash.
    pub escaped: bool,
    /// After unquoted whitespace: only blanks or a comment may follow.
    pub expecting_end: bool,
    /// Value produced so far.
    pub output: Seq<char>,
    /// Current substitution, if any.
    pub mode: Option<SubstitutionMode>,
    /// Name of the variable being substituted.
    pub name: Seq<char>,
}

/// Outcome of scanning one character of a value.
pub enum ValueStep {
    /// Go on with the next character.
    Next(ValueState),
    /// A comment starts: the value ends here.
    Stop(ValueState),
    /// The character is not allowed here.
    Fail,
}

/// Effect of one character on the value scanner.
pub open spec fn value_step(
    env: Seq<(Seq<char>, Seq<char>)>,
    data: Seq<(Seq<char>, Option<Seq<char>>)>,
    s: ValueState,
    c: char,
) -> ValueStep {
    if s.expecting_end {
        if c == ' ' || c == '\t' {
            ValueStep::Next(s)
        } else if c == '#' {
            ValueStep::Stop(s)
        } else {
            ValueStep::Fail
        }
    } else if s.escaped {
        if c == '\\' || c == '\'' || c == '"' || c == '$' || c == ' ' {
            ValueStep::Next(ValueState { output: s.output.push(c), escaped: false, ..s })
        } else if c == 'n' {
            ValueStep::Next(ValueState { output: s.output.push('\n'), escaped: false, ..s })
        } else {
            ValueStep::Fail
        }
    } else if s.strong {
        if c == '\'' {
            ValueStep::Next(ValueState { strong: false, ..s })
        } else {
            ValueStep::Next(ValueState { output: s.output.push(c), ..s })
        }
    } else if s.mode is Some {
        if name_char(c) {
            ValueStep::Next(ValueState { name: s.name.push(c), ..s })
        } else if s.mode == Some(SubstitutionMode::Block) {
            if c == '{' && s.name.len() == 0 {
                ValueStep::Next(ValueState { mode: Some(SubstitutionMode::EscapedBlock), ..s })
            } else {
                let out = s.output + subst_value(env, data, s.name);
                if c == '$' {
                    ValueStep::Next(ValueState { output: out, name: Seq::empty(), mode: Some(SubstitutionMode::Block), ..s })
                } else {
                    ValueStep::Next(ValueState { output: out.push(c), name: Seq::empty(), mode: None, ..s })
                }
            }
        } else {
            if c == '}' {
                ValueStep::Next(
                    ValueState {
                        output: s.output + subst_value(env, data, s.name),
                        name: Seq::empty(),
                        mode: None,
                        ..s
                    },
                )
            } else {
                ValueStep::Next(ValueState { name: s.name.push(c), ..s })
            }
        }
    } else if c == '$' {
        ValueStep::Next(ValueState { mode: Some(SubstitutionMode::Block), ..s })
    } else if s.weak {
        if c == '"' {
            ValueStep::Next(ValueState { weak: false, ..s })
        } else if c == '\\' {
            ValueStep::Next(ValueState { escaped: true, ..s })
        } else {
            ValueStep::Next(ValueState { output: s.output.push(c), ..s })
        }
    } else if c == '\'' {
        ValueStep::Next(ValueState { strong: true, ..s })
    } else if c == '"' {
        ValueStep::Next(ValueState { weak: true, ..s })
    } else if c == '\\' {
        ValueStep::Next(ValueState { escaped: true, ..s })
    } else if c == ' ' || c == '\t' {
        ValueStep::Next(ValueState { expecting_end: true, ..s })
    } else {
        ValueStep::Next(ValueState { output: s.output.push(c), ..s })
    }
}

/// Scanner state after the characters `input[k..]`, or the index of the first rejected one.
pub open spec fn value_run(
    env: Seq<(Seq<char>, Seq<char>)>,
    data: Seq<(Seq<char>, Option<Seq<char>>)>,
    input: Seq<char>,
    k: int,
    s: ValueState,
) -> Result<ValueState, int>
    decreases input.len() - k,
{
    if k < 0 || k >= input.len() {
        Ok(s)
    } else {
        match value_step(env, data, s, input[k]) {
            ValueStep::Fail => Err(k),
            ValueStep::Stop(t) => Ok(t),
            ValueStep::Next(t) => value_run(env, data, input, k + 1, t),
        }
    }
}

/// The scanner state before the first character.
pub open spec fn value_start() -> ValueState {
    ValueState {
        strong: false,
        weak: false,
        escaped: false,
        expecting_end: false,
        output: Seq::empty(),
        mode: None,
        name: Seq::empty(),
    }
}

/// Parsed value of `input`, or the byte offset of the failure: a rejected character gives its
/// own offset; an unterminated quote or `${` gives the last byte offset of the input.
pub open spec fn parse_value_spec(
    env: Seq<(Seq<char>, Seq<char>)>,
    data: Seq<(Seq<char>, Option<Seq<char>>)>,
    input: Seq<char>,
) -> Result<Seq<char>, nat> {
    match value_run(env, data, input, 0, value_start()) {
        Err(k) => Err(utf8_size(input.take(k))),
        Ok(s) => if s.mode == Some(SubstitutionMode::EscapedBlock) || s.strong || s.weak {
            Err(if utf8_size(input) == 0 {
                0
            } else {
                (utf8_size(input) - 1) as nat
            })
        } else {
            Ok(s.output + subst_value(env, data, s.name))
        },
    }
}

/// Byte size of a text, computed character by character.
pub fn utf8_len(v: &[char]) -> (n: usize)
    requires
        utf8_size(v@) <= usize::MAX,
    ensures
        n == utf8_size(v@),
{
    let mut n: usize = 0;
    let mut i: usize = 0;
    while i < v.len()
        invariant
            i <= v@.len(),
            n == utf8_size(v@.take(i as int)),
            utf8_size(v@) <= usize::MAX,
        decreases v.len() - i,
    {
        proof {
            lemma_utf8_size_take(v@, i as int);
            crate::text::lemma_utf8_size_prefix(v@, i + 1, v@.len() as int);
            assert(v@.take(v@.len() as int) =~= v@);
        }
        n = n + utf8_width(v[i]);
        i += 1;
    }
    assert(v@.take(i as int) =~= v@);
    n
}

/// A character that a value takes literally outside quotes: no quote, backslash, dollar or blank.
pub open spec fn plain_value_char(c: char) -> bool {
    c != '\'' && c != '"' && c != '\\' && c != '$' && c != ' ' && c != '\t'
}

/// The scanner copies plain characters one by one.
proof fn lemma_plain_run(
    env: Seq<(Seq<char>, Seq<char>)>,
    data: Seq<(Seq<char>, Option<Seq<char>>)>,
    input: Seq<char>,
    k: int,
)
    requires
        0 <= k <= input.len(),
        forall|i: int| 0 <= i < input.len() ==> plain_value_char(#[trigger] input[i]),
    ensures
        value_run(env, data, input, k, ValueState { output: input.take(k), ..value_start() }) == Ok::<
            ValueState,
            int,
        >(ValueState { output: input, ..value_start() }),
    decreases input.len() - k,
{
    if k < input.len() {
        assert(plain_value_char(input[k]));
        assert(input.take(k).push(input[k]) =~= input.take(k + 1));
        lemma_plain_run(env, data, input, k + 1);
    } else {
        assert(input.take(k) =~= input);
    }
}

/// A value without quotes, backslashes, dollars or blanks comes back unchanged, whatever the
/// file assigned before and whatever the environment holds (no variable has an empty name).
pub proof fn plain_value_is_unchanged(
    env: Seq<(Seq<char>, Seq<char>)>,
    data: Seq<(Seq<char>, Option<Seq<char>>)>,
    input: Seq<char>,
)
    requires
        forall|i: int| 0 <= i < input.len() ==> plain_value_char(#[trigger] input[i]),
        env_lookup(env, Seq::empty()) is None,
        data_lookup(data, Seq::empty()) is None,
    ensures
        parse_value_spec(env, data, input) == Ok::<Seq<char>, nat>(input),
{
    lemma_plain_run(env, data, input, 0);
    assert(input.take(0) =~= Seq::<char>::empty());
    assert(ValueState { output: Seq::empty(), ..value_start() } == value_start());
    assert(input + Seq::<char>::empty() =~= input);
}

/// A rejected character lies inside the input.
pub proof fn lemma_value_run_err(
    env: Seq<(Seq<char>, Seq<char>)>,
    data: Seq<(Seq<char>, Option<Seq<char>>)>,
    input: Seq<char>,
    k: int,
    s: ValueState,
)
    requires
        0 <= k,
    ensures
        value_run(env, data, input, k, s) matches Err(j) ==> k <= j < input.len(),
    decreases input.len() - k,
{
    if k < input.len() {
        match value_step(env, data, s, input[k]) {
            ValueStep::Next(t) => lemma_value_run_err(env, data, input, k + 1, t),
            _ => {},
        }
    }
}

/// The failure offset of a value lies within its bytes.
pub proof fn lemma_value_error_offset(
    env: Seq<(Seq<char>, Seq<char>)>,
    data: Seq<(Seq<char>, Option<Seq<char>>)>,
    input: Seq<char>,
)
    ensures
        parse_value_spec(env, data, input) matches Err(i) ==> i <= utf8_size(input),
{
    lemma_value_run_err(env, data, input, 0, value_start());
    if let Err(k) = value_run(env, data, input, 0, value_start()) {
        crate::text::lemma_utf8_size_prefix(input, k, input.len() as int);
        assert(input.take(input.len() as int) =~= input);
    }
}

/// Parses and unescapes a value, applying variable substitution.
pub fn parse_value(input: &str, substitution_data: &SubstitutionData, env: &EnvVars) -> (r: Result<String, Error>)
    requires
        utf8_size(input@) <= usize::MAX,
    ensures
        match parse_value_spec(env@, substitution_data@, input@) {
            Ok(v) => r matches Ok(s) && s@ == v,
            Err(k) => r matches Err(Error::LineParse(l, i)) && l@ == input@ && i == k,
        },
        r matches Err(Error::LineParse(_, i)) ==> i <= utf8_size(input@),
{
    proof {
        lemma_value_error_offset(env@, substitution_data@, input@);
    }
    let chars = chars_of(input);
    let ghost envs = env@;
    let ghost data = substitution_data@;
    let mut strong_quote = false;
    let mut weak_quote = false;
    let mut escaped = false;
    let mut expecting_end = false;
    let mut output = String::new();
    let mut substitution_mode: Option<SubstitutionMode> = None;
    let mut substitution_name = String::new();
    let mut index: usize = 0;
    let mut done = false;
    while !done && index < chars.len()
        invariant
            chars@ == input@,
            utf8_size(input@) <= usize::MAX,
            index <= chars@.len(),
            envs == env@,
            data == substitution_data@,
            done ==> value_run(envs, data, input@, 0, value_start()) == Ok::<ValueState, int>(
                ValueState {
                    strong: strong_quote,
                    weak: weak_quote,
                    escaped,
                    expecting_end,
                    output: output@,
                    mode: substitution_mode,
                    name: substitution_name@,
                },
            ),
            !done ==> value_run(envs, data, input@, 0, value_start()) == value_run(
                envs,
                data,
                input@,
                index as int,
                ValueState {
                    strong: strong_quote,
                    weak: weak_quote,
                    escaped,
                    expecting_end,
                    output: output@,
                    mode: substitution_mode,
                    name: substitution_name@,
                },
            ),
        decreases chars.len() - index + (if done {
            0int
        } else {
            1int
        }),
    {
        let c = chars[index];
        let ghost before = ValueState {
            strong: strong_quote,
            weak: weak_quote,
            escaped,
            expecting_end,
            output: output@,
            mode: substitution_mode,
            name: substitution_name@,
        };
        if expecting_end {
            if c == ' ' || c == '\t' {
            } else if c == '#' {
                done = true;
            } else {
                let offset = utf8_len_prefix(&chars, index);
                proof {
                    crate::text::lemma_utf8_size_prefix(input@, index as int, input@.len() as int);
                    assert(input@.take(input@.len() as int) =~= input@);
                }
                return Err(Error::LineParse(crate::text::string_of(&chars), offset));
            }
        } else if escaped {
            if c == '\\' || c == '\'' || c == '"' || c == '$' || c == ' ' {
                push_char(&mut output, c);
            } else if c == 'n' {
                push_char(&mut output, '\n');
            } else {
                let offset = utf8_len_prefix(&chars, index);
                proof {
                    crate::text::lemma_utf8_size_prefix(input@, index as int, input@.len() as int);
                    assert(input@.take(input@.len() as int) =~= input@);
                }
                return Err(Error::LineParse(crate::text::string_of(&chars), offset));
            }
            escaped = false;
        } else if strong_quote {
            if c == '\'' {
                strong_quote = false;
            } else {
                push_char(&mut output, c);
            }
        } else if substitution_mode.is_some() {
            if char_is_alphanumeric(c) {
                push_char(&mut substitution_name, c);
            } else {
                match substitution_mode {
                    Some(SubstitutionMode::Block) => {
                        if c == '{' && substitution_name.as_str().is_empty() {
                            substitution_mode = Some(SubstitutionMode::EscapedBlock);
                        } else {
                            apply_substitution(env, substitution_data, &mut substitution_name, &mut output);
                            if c == '$' {
                                substitution_mode = Some(SubstitutionMode::Block);
                            } else {
                                substitution_mode = None;
                                push_char(&mut output, c);
                            }
                        }
                    },
                    _ => {
                        if c == '}' {
                            substitution_mode = None;
                            apply_substitution(env, substitution_data, &mut substitution_name, &mut output);
                        } else {
                            push_char(&mut substitution_name, c);
                        }
                    },
                }
            }
        } else if c == '$' {
            substitution_mode = Some(SubstitutionMode::Block);
        } else if weak_quote {
            if c == '"' {
                weak_quote = false;
            } else if c == '\\' {
                escaped = true;
            } else {
                push_char(&mut output, c);
            }
        } else if c == '\'' {
            strong_quote = true;
        } else if c == '"' {
            weak_quote = true;
        } else if c == '\\' {
            escaped = true;
        } else if c == ' ' || c == '\t' {
            expecting_end = true;
        } else {
            push_char(&mut output, c);
        }
        if !done {
            assert(value_step(envs, data, before, input@[index as int]) == ValueStep::Next(
                ValueState {
                    strong: strong_quote,
                    weak: weak_quote,
                    escaped,
                    expecting_end,
                    output: output@,
                    mode: substitution_mode,
                    name: substitution_name@,
                },
            ));
            index += 1;
        }
    }
    if matches!(substitution_mode, Some(SubstitutionMode::EscapedBlock)) || strong_quote || weak_quote {
        let value_length = utf8_len(&chars);
        return Err(
            Error::LineParse(
                crate::text::string_of(&chars),
                if value_length == 0 {
                    0
                } else {
                    value_length - 1
                },
            ),
        );
    }
    apply_substitution(env, substitution_data, &mut substitution_name, &mut output);
    Ok(output)
}

/// Parser state used while scanning for the end of a logical line.
#[derive(Debug, Clone, Copy, PartialEq, Eq, Structural)]
pub enum ParseState {
    /// Outside quotes and escapes.
    Complete,
    /// After an escape outside quotes.
    Escape,
    /// Inside single quotes.
    StrongOpen,
    /// After an escape inside single quotes.
    StrongOpenEscape,
    /// Inside double quotes.
    WeakOpen,
    /// After an escape inside double quotes.
    WeakOpenEscape,
    /// Inside a trailing comment.
    Comment,
    /// Scanning whitespace after a completed value.
    WhiteSpace,
}

/// Effect of one character on the line-end scanner.
pub open spec fn end_step(s: ParseState, c: char) -> ParseState {
    match s {
        ParseState::WhiteSpace => if c == '\\' {
            ParseState::Escape
        } else if c == '"' {
            ParseState::WeakOpen
        } else if c == '\'' {
            ParseState::StrongOpen
        } else {
            ParseState::Complete
        },
        ParseState::Escape => ParseState::Complete,
        ParseState::Complete => if is_ws(c) && c != '\n' && c != '\r' {
            ParseState::WhiteSpace
        } else if c == '\\' {
            ParseState::Escape
        } else if c == '"' {
            ParseState::WeakOpen
        } else if c == '\'' {
            ParseState::StrongOpen
        } else {
            ParseState::Complete
        },
        ParseState::WeakOpen => if c == '\\' {
            ParseState::WeakOpenEscape
        } else if c == '"' {
            ParseState::Complete
        } else {
            ParseState::WeakOpen
        },
        ParseState::WeakOpenEscape => ParseState::WeakOpen,
        ParseState::StrongOpen => if c == '\\' {
            ParseState::StrongOpenEscape
        } else if c == '\'' {
            ParseState::Complete
        } else {
            ParseState::StrongOpen
        },
        ParseState::StrongOpenEscape => ParseState::StrongOpen,
        ParseState::Comment => ParseState::Comment,
    }
}

/// Scans `buf[k..]` from state `s`: the index of the last character looked at (`last` when none
/// is left) and the final state; a `#` after whitespace starts a comment and ends the scan there.
pub open spec fn end_scan(s: ParseState, buf: Seq<char>, k: int, last: int) -> (int, ParseState)
    decreases buf.len() - k,
{
    if k < 0 || k >= buf.len() {
        (last, s)
    } else if s == ParseState::WhiteSpace && buf[k] == '#' {
        (k, ParseState::Comment)
    } else {
        end_scan(end_step(s, buf[k]), buf, k + 1, k)
    }
}

/// The scan reports an index inside the text (or 0 for an empty text).
pub proof fn lemma_end_scan_bounds(s: ParseState, buf: Seq<char>, k: int, last: int)
    requires
        0 <= k <= buf.len(),
        0 <= last,
        buf.len() == 0 || last < buf.len(),
    ensures
        0 <= end_scan(s, buf, k, last).0,
        buf.len() == 0 || end_scan(s, buf, k, last).0 < buf.len(),
    decreases buf.len() - k,
{
    if k < buf.len() && !(s == ParseState::WhiteSpace && buf[k] == '#') {
        lemma_end_scan_bounds(end_step(s, buf[k]), buf, k + 1, k);
    }
}

/// Scans `c[from..to]` for the end of a logical line; the index is relative to `from`.
fn end_scan_range(prev_state: ParseState, c: &[char], from: usize, to: usize) -> (r: (usize, ParseState))
    requires
        from <= to <= c@.len(),
        prev_state != ParseState::Comment || from == to,
    ensures
        (r.0 as int, r.1) == end_scan(prev_state, c@.subrange(from as int, to as int), 0, 0),
        r.0 == 0 || r.0 < to - from,
{
    let ghost piece = c@.subrange(from as int, to as int);
    let mut state = prev_state;
    let mut last: usize = 0;
    let mut k = from;
    proof {
        lemma_end_scan_bounds(prev_state, piece, 0, 0);
    }
    while k < to
        invariant
            from <= k <= to <= c@.len(),
            piece == c@.subrange(from as int, to as int),
            end_scan(prev_state, piece, 0, 0) == end_scan(state, piece, k - from, last as int),
            state != ParseState::Comment || k == to,
            last == 0 || last < to - from,
        decreases to - k,
    {
        let ch = c[k];
        assert(piece[k - from] == ch);
        if state == ParseState::WhiteSpace && ch == '#' {
            return ((k - from), ParseState::Comment);
        }
        last = k - from;
        state = match state {
            ParseState::WhiteSpace => if ch == '\\' {
                ParseState::Escape
            } else if ch == '"' {
                ParseState::WeakOpen
            } else if ch == '\'' {
                ParseState::StrongOpen
            } else {
                ParseState::Complete
            },
            ParseState::Escape => ParseState::Complete,
            ParseState::Complete => if is_whitespace(ch) && ch != '\n' && ch != '\r' {
                ParseState::WhiteSpace
            } else if ch == '\\' {
                ParseState::Escape
            } else if ch == '"' {
                ParseState::WeakOpen
            } else if ch == '\'' {
                ParseState::StrongOpen
            } else {
                ParseState::Complete
            },
            ParseState::WeakOpen => if ch == '\\' {
                ParseState::WeakOpenEscape
            } else if ch == '"' {
                ParseState::Complete
            } else {
                ParseState::WeakOpen
            },
            ParseState::WeakOpenEscape => ParseState::WeakOpen,
            ParseState::StrongOpen => if ch == '\\' {
                ParseState::StrongOpenEscape
            } else if ch == '\'' {
                ParseState::Complete
            } else {
                ParseState::StrongOpen
            },
            ParseState::StrongOpenEscape => ParseState::StrongOpen,
            ParseState::Comment => ParseState::Comment,
        };
        k += 1;
    }
    (last, state)
}

/// Byte size of the first `n` characters of `v`.
fn utf8_len_prefix(v: &[char], n: usize) -> (r: usize)
    requires
        n <= v@.len(),
        utf8_size(v@) <= usize::MAX,
    ensures
        r == utf8_size(v@.take(n as int)),
{
    let mut r: usize = 0;
    let mut i: usize = 0;
    while i < n
        invariant
            i <= n <= v@.len(),
            r == utf8_size(v@.take(i as int)),
            utf8_size(v@) <= usize::MAX,
        decreases n - i,
    {
        proof {
            lemma_utf8_size_take(v@, i as int);
            crate::text::lemma_utf8_size_prefix(v@, i + 1, v@.len() as int);
            assert(v@.take(v@.len() as int) =~= v@);
        }
        r = r + utf8_width(v[i]);
        i += 1;
    }
    r
}

/// Evaluates how a physical input line changes the logical-line parser state: the byte offset of
/// the last character looked at (of the `#` when a comment starts) and the resulting state.
pub fn eval_end_state(prev_state: ParseState, buf: &str) -> (r: (usize, ParseState))
    requires
        prev_state != ParseState::Comment || buf@.len() == 0,
        utf8_size(buf@) <= usize::MAX,
    ensures
        r.0 == utf8_size(buf@.take(end_scan(prev_state, buf@, 0, 0).0)),
        r.1 == end_scan(prev_state, buf@, 0, 0).1,
{
    let v = chars_of(buf);
    assert(v@.subrange(0, v@.len() as int) =~= v@);
    let (k, state) = end_scan_range(prev_state, &v, 0, v.len());
    let bytes = utf8_len_prefix(&v, k);
    (bytes, state)
}

/// Index just past the physical line that starts at `p` (past its `\n`, or the end of the text).
pub open spec fn phys_end(c: Seq<char>, p: int) -> int
    decreases c.len() - p,
{
    if p < 0 || p >= c.len() {
        c.len() as int
    } else if c[p] == '\n' {
        p + 1
    } else {
        phys_end(c, p + 1)
    }
}

/// A physical line is never empty and never runs past the text.
pub proof fn lemma_phys_end(c: Seq<char>, p: int)
    requires
        0 <= p < c.len(),
    ensures
        p < phys_end(c, p) <= c.len(),
        forall|j: int| p <= j < phys_end(c, p) - 1 ==> c[j] != '\n',
        phys_end(c, p) < c.len() ==> c[phys_end(c, p) - 1] == '\n',
    decreases c.len() - p,
{
    if c[p] != '\n' {
        if p + 1 < c.len() {
            lemma_phys_end(c, p + 1);
        } else {
            assert(phys_end(c, p + 1) == c.len());
        }
    }
}

/// The text without trailing `\r` and `\n` characters.
pub open spec fn trim_newlines(s: Seq<char>) -> Seq<char>
    decreases s.len(),
{
    if s.len() > 0 && (s.last() == '\r' || s.last() == '\n') {
        trim_newlines(s.drop_last())
    } else {
        s
    }
}

/// Whether the text, after leading whitespace, starts with `#`.
pub open spec fn is_comment_line(s: Seq<char>) -> bool {
    trim_start(s).len() > 0 && trim_start(s)[0] == '#'
}

/// Outcome of assembling one logical line.
pub enum Gathered {
    /// A logical line, and the index where the next one starts.
    Line(Seq<char>, int),
    /// The text is exhausted between logical lines.
    End,
    /// The text ends inside a quoted or escaped value; the partial line.
    Fail(Seq<char>),
}

/// Assembles the logical line whose physical lines start at `p`, with `buf` read so far in state
/// `st`: quoted values may span physical lines; comment-only lines give an empty line; a
/// trailing comment is cut off.
pub open spec fn gather(c: Seq<char>, p: int, buf: Seq<char>, st: ParseState) -> Gathered
    decreases c.len() - p,
{
    if p < 0 || p >= c.len() {
        if st == ParseState::Complete {
            Gathered::End
        } else {
            Gathered::Fail(buf)
        }
    } else {
        let e = phys_end(c, p);
        let piece = c.subrange(p, e);
        let nb = buf + piece;
        if is_comment_line(nb) {
            Gathered::Line(Seq::empty(), e)
        } else {
            let (ci, ns) = end_scan(st, piece, 0, 0);
            if ns == ParseState::Complete {
                Gathered::Line(trim_newlines(nb), e)
            } else if ns == ParseState::Comment {
                Gathered::Line(nb.take(buf.len() + ci), e)
            } else {
                proof {
                    lemma_phys_end(c, p);
                }
                gather(c, e, nb, ns)
            }
        }
    }
}

/// A gathered line always moves past its start.
pub proof fn lemma_gather_advances(c: Seq<char>, p: int, buf: Seq<char>, st: ParseState)
    requires
        0 <= p,
    ensures
        gather(c, p, buf, st) matches Gathered::Line(_, e) ==> p < e <= c.len(),
    decreases c.len() - p,
{
    if p < c.len() {
        lemma_phys_end(c, p);
        let e = phys_end(c, p);
        let piece = c.subrange(p, e);
        let nb = buf + piece;
        let (ci, ns) = end_scan(st, piece, 0, 0);
        if !is_comment_line(nb) && ns != ParseState::Complete && ns != ParseState::Comment {
            lemma_gather_advances(c, e, nb, ns);
        }
    }
}

/// Logical lines of `c[p..]`, and the failure that ends them early, if any: the partial line and
/// its byte size.
pub open spec fn lines_from(c: Seq<char>, p: int) -> (Seq<Seq<char>>, Option<(Seq<char>, nat)>)
    decreases c.len() - p,
{
    if p < 0 {
        (Seq::empty(), None)
    } else {
        match gather(c, p, Seq::empty(), ParseState::Complete) {
            Gathered::End => (Seq::empty(), None),
            Gathered::Fail(b) => (Seq::empty(), Some((b, utf8_size(b)))),
            Gathered::Line(l, e) => {
                proof {
                    lemma_gather_advances(c, p, Seq::empty(), ParseState::Complete);
                }
                let rest = lines_from(c, e);
                (seq![l] + rest.0, rest.1)
            },
        }
    }
}

/// Index just past the physical line starting at `p`.
fn find_phys_end(c: &[char], p: usize) -> (e: usize)
    requires
        p < c@.len(),
    ensures
        e == phys_end(c@, p as int),
{
    proof {
        lemma_phys_end(c@, p as int);
    }
    let mut j = p;
    while j < c.len()
        invariant
            p <= j <= c@.len(),
            phys_end(c@, p as int) == phys_end(c@, j as int),
        decreases c.len() - j,
    {
        if c[j] == '\n' {
            return j + 1;
        }
        j += 1;
    }
    j
}

/// Whether `v`, after leading whitespace, starts with `#`.
fn comment_line(v: &Vec<char>) -> (b: bool)
    ensures
        b == is_comment_line(v@),
{
    let mut i: usize = 0;
    while i < v.len() && is_whitespace(v[i])
        invariant
            i <= v@.len(),
            forall|k: int| 0 <= k < i ==> is_ws(#[trigger] v@[k]),
        decreases v.len() - i,
    {
        i += 1;
    }
    proof {
        lemma_lead_ws_unique(v@, i as int);
    }
    i < v.len() && v[i] == '#'
}

/// Length of `v[..n]` without trailing `\r` and `\n`.
fn trim_newlines_len(v: &Vec<char>) -> (n: usize)
    ensures
        n <= v@.len(),
        v@.take(n as int) == trim_newlines(v@),
{
    let mut n = v.len();
    assert(v@.take(n as int) =~= v@);
    while n > 0 && (v[n - 1] == '\r' || v[n - 1] == '\n')
        invariant
            n <= v@.len(),
            trim_newlines(v@) == trim_newlines(v@.take(n as int)),
        decreases n,
    {
        assert(v@.take(n as int).drop_last() =~= v@.take(n - 1));
        n -= 1;
    }
    n
}

/// One step of logical-line reading.
pub enum NextLine {
    /// A logical line, and the index where the next one starts.
    Line(String, usize),
    /// The text is exhausted.
    End,
    /// The text ends inside a quoted or escaped value.
    Fail(String),
}

/// Reads the logical line whose physical lines start at `p` (`QuotedLines::next`).
pub fn next_logical_line(c: &Vec<char>, p: usize) -> (r: NextLine)
    requires
        p <= c@.len(),
    ensures
        match gather(c@, p as int, Seq::empty(), ParseState::Complete) {
            Gathered::Line(l, e) => r matches NextLine::Line(s, f) && s@ == l && f == e,
            Gathered::End => r is End,
            Gathered::Fail(b) => r matches NextLine::Fail(s) && s@ == b,
        },
{
    let mut buf: Vec<char> = Vec::new();
    let mut state = ParseState::Complete;
    let mut q = p;
    while q < c.len()
        invariant
            p <= q <= c@.len(),
            gather(c@, p as int, Seq::empty(), ParseState::Complete) == gather(c@, q as int, buf@, state),
            state != ParseState::Comment,
        decreases c.len() - q,
    {
        let buf_pos = buf.len();
        let e = find_phys_end(c, q);
        proof {
            lemma_phys_end(c@, q as int);
        }
        let ghost old_buf = buf@;
        let mut j = q;
        while j < e
            invariant
                q <= j <= e <= c@.len(),
                old_buf.len() == buf_pos,
                buf@ == old_buf + c@.subrange(q as int, j as int),
            decreases e - j,
        {
            buf.push(c[j]);
            assert(c@.subrange(q as int, j + 1) =~= c@.subrange(q as int, j as int).push(c@[j as int]));
            j += 1;
        }
        if comment_line(&buf) {
            return NextLine::Line(String::new(), e);
        }
        let (ci, next) = end_scan_range(state, c, q, e);
        state = next;
        proof {
            lemma_end_scan_bounds(next, c@.subrange(q as int, e as int), 0, 0);
        }
        match state {
            ParseState::Complete => {
                let n = trim_newlines_len(&buf);
                let s = string_of_range(&buf, 0, n);
                assert(buf@.subrange(0, n as int) =~= buf@.take(n as int));
                return NextLine::Line(s, e);
            },
            ParseState::Comment => {
                let total_len = buf.len();
                assert(total_len == buf_pos + (e - q));
                let s = string_of_range(&buf, 0, buf_pos + ci);
                assert(buf@.subrange(0, (buf_pos + ci) as int) =~= buf@.take(buf_pos + ci));
                return NextLine::Line(s, e);
            },
            _ => {},
        }
        q = e;
    }
    if state == ParseState::Complete {
        NextLine::End
    } else {
        NextLine::Fail(crate::text::string_of(&buf))
    }
}

/// First index from `c` on that holds no whitespace (or the end).
pub open spec fn skip_ws_from(line: Seq<char>, c: int) -> int
    decreases line.len() - c,
{
    if c < 0 || c >= line.len() {
        line.len() as int
    } else if is_ws(line[c]) {
        skip_ws_from(line, c + 1)
    } else {
        c
    }
}

/// Characters allowed inside a variable name.
pub open spec fn is_key_char(ch: char) -> bool {
    is_ascii_alnum(ch) || ch == '_' || ch == '.'
}

/// First index from `c` on that cannot continue a variable name (or the end).
pub open spec fn key_end_from(line: Seq<char>, c: int) -> int
    decreases line.len() - c,
{
    if c < 0 || c >= line.len() {
        line.len() as int
    } else if is_key_char(line[c]) {
        key_end_from(line, c + 1)
    } else {
        c
    }
}

/// Whether a variable name starts at `c`: an ASCII letter or `_`.
pub open spec fn key_starts(line: Seq<char>, c: int) -> bool {
    0 <= c < line.len() && (is_ascii_alpha(line[c]) || line[c] == '_')
}

/// Whether `=` stands at `c`.
pub open spec fn equal_at(line: Seq<char>, c: int) -> bool {
    0 <= c < line.len() && line[c] == '='
}

/// The scan helpers stay between their start and the end of the line.
pub proof fn lemma_scans(line: Seq<char>, c: int)
    requires
        0 <= c <= line.len(),
    ensures
        c <= skip_ws_from(line, c) <= line.len(),
        c <= key_end_from(line, c) <= line.len(),
    decreases line.len() - c,
{
    if c < line.len() {
        lemma_scans(line, c + 1);
    }
}

/// Outcome of parsing one logical line.
pub enum LineSpec {
    /// Blank or comment line: nothing assigned.
    Blank,
    /// The line is malformed at this byte offset.
    Fail(nat),
    /// `key` is assigned the value; `None` for an empty value.
    Assign(Seq<char>, Option<Seq<char>>),
}

/// Outcome of the value part of an assignment whose `=` ends before `c2`.
pub open spec fn value_part(
    env: Seq<(Seq<char>, Seq<char>)>,
    data: Seq<(Seq<char>, Option<Seq<char>>)>,
    line: Seq<char>,
    key: Seq<char>,
    c2: int,
) -> LineSpec {
    let c4 = skip_ws_from(line, c2);
    if c4 >= line.len() || line[c4] == '#' {
        LineSpec::Assign(key, None)
    } else {
        match parse_value_spec(env, data, line.subrange(c4, line.len() as int)) {
            Ok(v) => LineSpec::Assign(key, Some(v)),
            Err(i) => LineSpec::Fail(utf8_size(line.take(c4)) + i),
        }
    }
}

/// Outcome of parsing one logical line `raw` (`KEY=VALUE`, optionally after `export`).
pub open spec fn parse_line_spec(env: Seq<(Seq<char>, Seq<char>)>, data: Seq<(Seq<char>, Option<Seq<char>>)>, raw: Seq<char>) -> LineSpec {
    let line = trim_end(raw);
    let c0 = skip_ws_from(line, 0);
    if c0 >= line.len() || line[c0] == '#' {
        LineSpec::Blank
    } else if !key_starts(line, c0) {
        LineSpec::Fail(utf8_size(line.take(c0)))
    } else {
        let k1 = key_end_from(line, c0);
        let key = line.subrange(c0, k1);
        let c1 = skip_ws_from(line, k1);
        if key == "export"@ && !equal_at(line, c1) {
            if !key_starts(line, c1) {
                LineSpec::Fail(utf8_size(line.take(c1)))
            } else {
                let k2 = key_end_from(line, c1);
                let c3 = skip_ws_from(line, k2);
                if !equal_at(line, c3) {
                    LineSpec::Fail(utf8_size(line.take(c3)))
                } else {
                    value_part(env, data, line, line.subrange(c1, k2), c3 + 1)
                }
            }
        } else if !equal_at(line, c1) {
            LineSpec::Fail(utf8_size(line.take(c1)))
        } else {
            value_part(env, data, line, key, c1 + 1)
        }
    }
}

/// Parser for one logical assignment line.
pub struct LineParser {
    /// Untrimmed line used when reporting parse errors.
    pub raw_line: String,
    /// Characters of the line without trailing whitespace.
    pub line: Vec<char>,
    /// Start of the remaining unparsed part of `line`.
    pub cursor: usize,
    /// Byte offset of `cursor` for diagnostics.
    pub pos: usize,
}

impl LineParser {
    /// Consistency of the parser's fields.
    pub open spec fn wf(&self) -> bool {
        &&& self.line@ == trim_end(self.raw_line@)
        &&& self.cursor <= self.line@.len()
        &&& self.pos == utf8_size(self.line@.take(self.cursor as int))
        &&& utf8_size(self.raw_line@) <= usize::MAX
    }

    /// Creates a parser for a single logical line.
    pub fn new(line: &str) -> (p: LineParser)
        requires
            utf8_size(line@) <= usize::MAX,
        ensures
            p.wf(),
            p.raw_line@ == line@,
            p.cursor == 0,
    {
        let v = chars_of(line);
        let mut n = v.len();
        assert(v@.take(n as int) =~= v@);
        while n > 0 && is_whitespace(v[n - 1])
            invariant
                n <= v@.len(),
                v@ == line@,
                forall|k: int| n <= k < v@.len() ==> is_ws(#[trigger] v@[k]),
            decreases n,
        {
            n -= 1;
        }
        proof {
            if n > 0 {
                assert(!is_ws(v@[n - 1]));
            }
            lemma_trail_ws_unique(line@, (v@.len() - n) as int);
        }
        let mut trimmed: Vec<char> = Vec::new();
        let mut i: usize = 0;
        while i < n
            invariant
                i <= n <= v@.len(),
                trimmed@ == v@.take(i as int),
            decreases n - i,
        {
            trimmed.push(v[i]);
            assert(v@.take(i + 1) =~= v@.take(i as int).push(v@[i as int]));
            i += 1;
        }
        assert(trimmed@.take(0) =~= Seq::<char>::empty());
        LineParser { raw_line: string_of(&v), line: trimmed, cursor: 0, pos: 0 }
    }

    /// Builds a parse error at the current byte offset.
    pub fn err(&self) -> (e: Error)
        ensures
            e matches Error::LineParse(l, i) && l@ == self.raw_line@ && i == self.pos,
    {
        Error::LineParse(self.raw_line.clone(), self.pos)
    }

    /// Advances past leading whitespace in the remaining line.
    pub fn skip_whitespace(&mut self)
        requires
            old(self).wf(),
        ensures
            final(self).wf(),
            final(self).raw_line == old(self).raw_line,
            final(self).line == old(self).line,
            final(self).cursor == skip_ws_from(old(self).line@, old(self).cursor as int),
    {
        let ghost start = self.cursor as int;
        proof {
            lemma_scans(self.line@, start);
        }
        while self.cursor < self.line.len() && is_whitespace(self.line[self.cursor])
            invariant
                self.wf(),
                self.raw_line == old(self).raw_line,
                self.line == old(self).line,
                start <= self.cursor,
                skip_ws_from(self.line@, start) == skip_ws_from(self.line@, self.cursor as int),
            decreases self.line.len() - self.cursor,
        {
            proof {
                lemma_utf8_size_take(self.line@, self.cursor as int);
                crate::text::lemma_utf8_size_prefix(self.line@, self.cursor + 1, self.line@.len() as int);
                lemma_trim_end_size(self.raw_line@);
                assert(self.line@.take(self.line@.len() as int) =~= self.line@);
            }
            self.pos = self.pos + utf8_width(self.line[self.cursor]);
            self.cursor = self.cursor + 1;
        }
    }

    /// Parses a variable name: an ASCII letter or `_`, then letters, digits, `_` or `.`.
    pub fn parse_key(&mut self) -> (r: Result<String, Error>)
        requires
            old(self).wf(),
        ensures
            final(self).wf(),
            final(self).raw_line == old(self).raw_line,
            final(self).line == old(self).line,
            key_starts(old(self).line@, old(self).cursor as int) ==> ({
                let k = key_end_from(old(self).line@, old(self).cursor as int);
                r matches Ok(s) && s@ == old(self).line@.subrange(old(self).cursor as int, k)
                    && final(self).cursor == k
            }),
            !key_starts(old(self).line@, old(self).cursor as int) ==> (r matches Err(Error::LineParse(l, i))
                && l@ == old(self).raw_line@ && i == old(self).pos) && final(self).cursor
                == old(self).cursor,
    {
        if !(self.cursor < self.line.len() && (ascii_alpha(self.line[self.cursor]) || self.line[self.cursor] == '_')) {
            return Err(self.err());
        }
        let start = self.cursor;
        proof {
            lemma_scans(self.line@, start as int);
        }
        while self.cursor < self.line.len() && (ascii_alnum(self.line[self.cursor]) || self.line[self.cursor] == '_'
            || self.line[self.cursor] == '.')
            invariant
                self.wf(),
                self.raw_line == old(self).raw_line,
                self.line == old(self).line,
                start <= self.cursor,
                key_end_from(self.line@, start as int) == key_end_from(self.line@, self.cursor as int),
            decreases self.line.len() - self.cursor,
        {
            proof {
                lemma_utf8_size_take(self.line@, self.cursor as int);
                crate::text::lemma_utf8_size_prefix(self.line@, self.cursor + 1, self.line@.len() as int);
                lemma_trim_end_size(self.raw_line@);
                assert(self.line@.take(self.line@.len() as int) =~= self.line@);
            }
            self.pos = self.pos + utf8_width(self.line[self.cursor]);
            self.cursor = self.cursor + 1;
        }
        Ok(string_of_range(&self.line, start, self.cursor))
    }

    /// Consumes the assignment separator `=`.
    pub fn expect_equal(&mut self) -> (r: Result<(), Error>)
        requires
            old(self).wf(),
        ensures
            final(self).wf(),
            final(self).raw_line == old(self).raw_line,
            final(self).line == old(self).line,
            equal_at(old(self).line@, old(self).cursor as int) ==> r is Ok && final(self).cursor == old(self).cursor + 1,
            !equal_at(old(self).line@, old(self).cursor as int) ==> (r matches Err(Error::LineParse(l, i))
                && l@ == old(self).raw_line@ && i == old(self).pos) && final(self).cursor
                == old(self).cursor,
    {
        if !(self.cursor < self.line.len() && self.line[self.cursor] == '=') {
            return Err(self.err());
        }
        proof {
            lemma_utf8_size_take(self.line@, self.cursor as int);
            crate::text::lemma_utf8_size_prefix(self.line@, self.cursor + 1, self.line@.len() as int);
            lemma_trim_end_size(self.raw_line@);
            assert(self.line@.take(self.line@.len() as int) =~= self.line@);
        }
        self.pos = self.pos + 1;
        self.cursor = self.cursor + 1;
        Ok(())
    }
}

/// Trimming never grows the byte size.
pub proof fn lemma_trim_end_size(s: Seq<char>)
    ensures
        utf8_size(trim_end(s)) <= utf8_size(s),
{
    lemma_trail_ws(s);
    crate::text::lemma_utf8_size_prefix(s, s.len() - trail_ws(s), s.len() as int);
    assert(s.take(s.len() as int) =~= s);
}

impl LineParser {
    /// Parses the line into an optional assignment and records it for later substitutions.
    pub fn parse_line(&mut self, substitution_data: &mut SubstitutionData, env: &EnvVars) -> (r: Result<
        Option<(String, String)>,
        Error,
    >)
        requires
            old(self).wf(),
            old(self).cursor == 0,
        ensures
            match parse_line_spec(env@, old(substitution_data)@, old(self).raw_line@) {
                LineSpec::Blank => r matches Ok(None) && final(substitution_data)@ == old(substitution_data)@,
                LineSpec::Fail(i) => (r matches Err(Error::LineParse(l, j)) && l@ == old(self).raw_line@
                    && j == i) && final(substitution_data)@ == old(substitution_data)@,
                LineSpec::Assign(k, v) => (r matches Ok(Some((a, b))) && a@ == k && b@ == (match v {
                    Some(x) => x,
                    None => Seq::<char>::empty(),
                })) && final(substitution_data)@ == old(substitution_data)@.push((k, v)),
            },
    {
        let ghost line = self.line@;
        proof {
            lemma_scans(line, 0);
        }
        self.skip_whitespace();
        if self.cursor >= self.line.len() || self.line[self.cursor] == '#' {
            return Ok(None);
        }
        let ghost c0 = self.cursor as int;
        let mut key = match self.parse_key() {
            Ok(k) => k,
            Err(e) => return Err(e),
        };
        proof {
            lemma_scans(line, c0);
        }
        let ghost k1 = self.cursor as int;
        self.skip_whitespace();
        proof {
            lemma_scans(line, k1);
        }
        if str_eq(key.as_str(), "export") {
            match self.expect_equal() {
                Ok(()) => {},
                Err(_) => {
                    let ghost c1 = self.cursor as int;
                    key = match self.parse_key() {
                        Ok(k) => k,
                        Err(e) => return Err(e),
                    };
                    proof {
                        lemma_scans(line, c1);
                    }
                    let ghost k2 = self.cursor as int;
                    self.skip_whitespace();
                    proof {
                        lemma_scans(line, k2);
                    }
                    match self.expect_equal() {
                        Ok(()) => {},
                        Err(e) => return Err(e),
                    }
                },
            }
        } else {
            match self.expect_equal() {
                Ok(()) => {},
                Err(e) => return Err(e),
            }
        }
        let ghost c2 = self.cursor as int;
        proof {
            lemma_scans(line, c2);
        }
        self.skip_whitespace();
        if self.cursor >= self.line.len() || self.line[self.cursor] == '#' {
            substitution_data.insert(key.clone(), None);
            return Ok(Some((key, String::new())));
        }
        let rest = string_of_range(&self.line, self.cursor, self.line.len());
        proof {
            lemma_trim_end_size(self.raw_line@);
            let t = self.line@;
            assert(t =~= t.take(self.cursor as int) + t.subrange(self.cursor as int, t.len() as int));
            crate::text::lemma_utf8_size_concat(t.take(self.cursor as int), t.subrange(self.cursor as int, t.len() as int));
        }
        let value = match parse_value(rest.as_str(), substitution_data, env) {
            Ok(v) => v,
            Err(Error::LineParse(_, i)) => return Err(Error::LineParse(self.raw_line.clone(), self.pos + i)),
        };
        substitution_data.insert(key.clone(), Some(value.clone()));
        Ok(Some((key, value)))
    }
}

/// The text without a leading byte-order mark.
pub open spec fn strip_bom(c: Seq<char>) -> Seq<char> {
    if c.len() > 0 && c[0] == '\u{FEFF}' {
        c.drop_first()
    } else {
        c
    }
}

/// Assignments performed for `lines` from environment `env` and file data `data`, and the error
/// that stops loading, if any. A variable already set in the environment keeps its value.
pub open spec fn load_run(
    lines: Seq<Seq<char>>,
    env: Seq<(Seq<char>, Seq<char>)>,
    data: Seq<(Seq<char>, Option<Seq<char>>)>,
) -> (Seq<(Seq<char>, Seq<char>)>, Option<(Seq<char>, nat)>)
    decreases lines.len(),
{
    if lines.len() == 0 {
        (Seq::empty(), None)
    } else {
        match parse_line_spec(env, data, lines[0]) {
            LineSpec::Blank => load_run(lines.drop_first(), env, data),
            LineSpec::Fail(i) => (Seq::empty(), Some((lines[0], i))),
            LineSpec::Assign(k, v) => {
                let val = match v {
                    Some(x) => x,
                    None => Seq::<char>::empty(),
                };
                if env_lookup(env, k) is None {
                    let r = load_run(lines.drop_first(), env.push((k, val)), data.push((k, v)));
                    (seq![(k, val)] + r.0, r.1)
                } else {
                    load_run(lines.drop_first(), env, data.push((k, v)))
                }
            },
        }
    }
}

/// Assignments that loading the `.env` text `content` performs, in order, starting from
/// environment `env`, and the error that stops it, if any.
pub open spec fn load_spec(content: Seq<char>, env: Seq<(Seq<char>, Seq<char>)>) -> (Seq<(Seq<char>, Seq<char>)>, Option<(Seq<char>, nat)>) {
    let (lines, line_error) = lines_from(strip_bom(content), 0);
    let (assigned, parse_error) = load_run(lines, env, Seq::empty());
    (assigned, if parse_error is Some {
        parse_error
    } else {
        line_error
    })
}

/// A subrange never has more bytes than the whole text.
pub proof fn lemma_utf8_size_subrange(c: Seq<char>, a: int, b: int)
    requires
        0 <= a <= b <= c.len(),
    ensures
        utf8_size(c.subrange(a, b)) <= utf8_size(c),
{
    assert(c =~= c.take(a) + c.subrange(a, b) + c.skip(b));
    crate::text::lemma_utf8_size_concat(c.take(a) + c.subrange(a, b), c.skip(b));
    crate::text::lemma_utf8_size_concat(c.take(a), c.subrange(a, b));
}

/// Removing trailing newlines leaves a prefix.
proof fn lemma_trim_newlines_prefix(s: Seq<char>)
    ensures
        trim_newlines(s).len() <= s.len(),
        trim_newlines(s) == s.take(trim_newlines(s).len() as int),
    decreases s.len(),
{
    if s.len() > 0 && (s.last() == '\r' || s.last() == '\n') {
        lemma_trim_newlines_prefix(s.drop_last());
        assert(s.drop_last().take(trim_newlines(s).len() as int) =~= s.take(trim_newlines(s).len() as int));
    } else {
        assert(s.take(s.len() as int) =~= s);
    }
}

/// Each logical line is a piece of the text.
proof fn lemma_gather_piece(c: Seq<char>, p0: int, p: int, buf: Seq<char>, st: ParseState)
    requires
        0 <= p0 <= p <= c.len(),
        buf == c.subrange(p0, p),
    ensures
        gather(c, p, buf, st) matches Gathered::Line(l, e) ==> utf8_size(l) <= utf8_size(c),
        gather(c, p, buf, st) matches Gathered::Fail(b) ==> utf8_size(b) <= utf8_size(c),
    decreases c.len() - p,
{
    if p >= c.len() {
        lemma_utf8_size_subrange(c, p0, p);
    } else {
        lemma_phys_end(c, p);
        let e = phys_end(c, p);
        let piece = c.subrange(p, e);
        let nb = buf + piece;
        assert(nb =~= c.subrange(p0, e));
        lemma_utf8_size_subrange(c, p0, e);
        let (ci, ns) = end_scan(st, piece, 0, 0);
        if is_comment_line(nb) {
            assert(utf8_size(Seq::<char>::empty()) == 0);
        } else if ns == ParseState::Complete {
            lemma_trim_newlines_prefix(nb);
            let n = trim_newlines(nb).len() as int;
            assert(nb.take(n) =~= c.subrange(p0, p0 + n));
            lemma_utf8_size_subrange(c, p0, p0 + n);
        } else if ns == ParseState::Comment {
            lemma_end_scan_bounds(st, piece, 0, 0);
            let n = buf.len() + ci;
            assert(nb.take(n) =~= c.subrange(p0, p0 + n));
            lemma_utf8_size_subrange(c, p0, p0 + n);
        } else {
            lemma_gather_piece(c, p0, e, nb, ns);
        }
    }
}

/// Every logical line and failure text is no larger than the text.
proof fn lemma_lines_small(c: Seq<char>, p: int)
    requires
        0 <= p <= c.len(),
    ensures
        forall|i: int| 0 <= i < lines_from(c, p).0.len() ==> utf8_size(#[trigger] lines_from(c, p).0[i]) <= utf8_size(c),
    decreases c.len() - p,
{
    assert(c.subrange(p, p) =~= Seq::<char>::empty());
    lemma_gather_piece(c, p, p, Seq::empty(), ParseState::Complete);
    lemma_gather_advances(c, p, Seq::empty(), ParseState::Complete);
    match gather(c, p, Seq::empty(), ParseState::Complete) {
        Gathered::Line(l, e) => {
            lemma_lines_small(c, e);
            let rest = lines_from(c, e);
            assert forall|i: int| 0 <= i < lines_from(c, p).0.len() implies utf8_size(#[trigger] lines_from(c, p).0[i]) <= utf8_size(c) by {
                if i > 0 {
                    assert(lines_from(c, p).0[i] == rest.0[i - 1]);
                }
            }
        },
        _ => {},
    }
}

/// Assignments to perform and the error that stopped loading, if any.
#[derive(Debug)]
pub struct LoadOutcome {
    /// Variables to set, in order.
    pub assignments: Vec<(String, String)>,
    /// Parse error that stopped loading, if any.
    pub error: Option<Error>,
}

/// Parses `.env` text and returns the variables to set in the process environment: every
/// assignment of a variable not yet set in `env` (nor by an earlier line), in file order.
pub fn load(content: &str, env: &EnvVars) -> (r: LoadOutcome)
    requires
        utf8_size(content@) <= usize::MAX,
    ensures
        ({
            let (assigned, error) = load_spec(content@, env@);
            &&& r.assignments@.len() == assigned.len()
            &&& forall|i: int| 0 <= i < assigned.len() ==> (#[trigger] r.assignments@[i]).0@ == assigned[i].0
                && r.assignments@[i].1@ == assigned[i].1
            &&& match error {
                None => r.error is None,
                Some((t, k)) => r.error matches Some(Error::LineParse(l, j)) && l@ == t && j == k,
            }
        }),
{
    let all = chars_of(content);
    let mut c: Vec<char> = Vec::new();
    let start: usize = if all.len() > 0 && all[0] == '\u{FEFF}' {
        1
    } else {
        0
    };
    let mut i = start;
    while i < all.len()
        invariant
            start <= i <= all@.len(),
            c@ == all@.subrange(start as int, i as int),
        decreases all.len() - i,
    {
        c.push(all[i]);
        assert(all@.subrange(start as int, i + 1) =~= all@.subrange(start as int, i as int).push(all@[i as int]));
        i += 1;
    }
    proof {
        assert(c@ =~= strip_bom(content@));
        lemma_utf8_size_subrange(all@, start as int, all@.len() as int);
        lemma_lines_small(c@, 0);
    }
    let ghost lines = lines_from(c@, 0);
    let mut run_env = env.duplicate();
    let mut data = SubstitutionData::new();
    let mut assignments: Vec<(String, String)> = Vec::new();
    let mut p: usize = 0;
    let mut seen: usize = 0;
    proof {
        assert(lines.0.skip(0) =~= lines.0);
        assert(assignments_view(assignments@) =~= Seq::<(Seq<char>, Seq<char>)>::empty());
        let total = load_run(lines.0, env@, Seq::empty());
        assert(total.0 =~= assignments_view(assignments@) + total.0);
    }
    loop
        invariant
            p <= c@.len(),
            seen <= p,
            c@ == strip_bom(content@),
            utf8_size(c@) <= usize::MAX,
            forall|i: int| 0 <= i < lines.0.len() ==> utf8_size(#[trigger] lines.0[i]) <= utf8_size(c@),
            lines == lines_from(c@, 0),
            lines_from(c@, p as int).0 == lines.0.skip(seen as int),
            lines_from(c@, p as int).1 == lines.1,
            seen <= lines.0.len(),
            ({
                let total = load_run(lines.0, env@, Seq::empty());
                let rest = load_run(lines.0.skip(seen as int), run_env@, data@);
                &&& total.0 == assignments_view(assignments@) + rest.0
                &&& total.1 == rest.1
            }),
        decreases c@.len() - p,
    {
        proof {
            lemma_gather_advances(c@, p as int, Seq::empty(), ParseState::Complete);
        }
        let ghost a0 = assignments_view(assignments@);
        let line = match next_logical_line(&c, p) {
            NextLine::End => {
                assert(lines.0.skip(seen as int) =~= Seq::<Seq<char>>::empty());
                assert(a0 + Seq::<(Seq<char>, Seq<char>)>::empty() =~= a0);
                return LoadOutcome { assignments, error: None };
            },
            NextLine::Fail(b) => {
                assert(lines.0.skip(seen as int) =~= Seq::<Seq<char>>::empty());
                assert(a0 + Seq::<(Seq<char>, Seq<char>)>::empty() =~= a0);
                proof {
                    assert(c@.subrange(p as int, p as int) =~= Seq::<char>::empty());
                    lemma_gather_piece(c@, p as int, p as int, Seq::empty(), ParseState::Complete);
                }
                let n = utf8_len(&chars_of(b.as_str()));
                return LoadOutcome { assignments, error: Some(Error::LineParse(b, n)) };
            },
            NextLine::Line(l, e) => {
                p = e;
                l
            },
        };
        let ghost cur = lines.0.skip(seen as int);
        assert(cur[0] == line@);
        assert(cur.drop_first() =~= lines.0.skip(seen + 1));
        assert(lines.0[seen as int] == line@);
        let ghost env0 = run_env@;
        let ghost data0 = data@;
        let mut parser = LineParser::new(line.as_str());
        match parser.parse_line(&mut data, &run_env) {
            Err(e) => {
                assert(a0 + Seq::<(Seq<char>, Seq<char>)>::empty() =~= a0);
                return LoadOutcome { assignments, error: Some(e) };
            },
            Ok(None) => {},
            Ok(Some((key, value))) => {
                if !run_env.contains(&key) {
                    assignments.push((key.clone(), value.clone()));
                    assert(assignments_view(assignments@) =~= a0.push((key@, value@)));
                    run_env.set_if_absent(key, value);
                    let ghost r2 = load_run(cur.drop_first(), run_env@, data@);
                    assert(a0 + (seq![(key@, value@)] + r2.0) =~= a0.push((key@, value@)) + r2.0);
                }
            },
        }
        seen = seen + 1;
    }
}

/// Names and values of the assignments, by their characters.
pub open spec fn assignments_view(a: Seq<(String, String)>) -> Seq<(Seq<char>, Seq<char>)> {
    a.map_values(|p: (String, String)| (p.0@, p.1@))
}

/// Loading assigns only variables that the environment does not hold yet, each at most once.
pub proof fn lemma_load_run_fresh(
    lines: Seq<Seq<char>>,
    env: Seq<(Seq<char>, Seq<char>)>,
    data: Seq<(Seq<char>, Option<Seq<char>>)>,
)
    ensures
        ({
            let a = load_run(lines, env, data).0;
            &&& forall|i: int| 0 <= i < a.len() ==> env_lookup(env, (#[trigger] a[i]).0) is None
            &&& forall|i: int, j: int| 0 <= i < j < a.len() ==> (#[trigger] a[i]).0 != (#[trigger] a[j]).0
        }),
    decreases lines.len(),
{
    if lines.len() > 0 {
        match parse_line_spec(env, data, lines[0]) {
            LineSpec::Blank => {
                lemma_load_run_fresh(lines.drop_first(), env, data);
            },
            LineSpec::Assign(k, v) => {
                let val = match v {
                    Some(x) => x,
                    None => Seq::<char>::empty(),
                };
                if env_lookup(env, k) is None {
                    let env2 = env.push((k, val));
                    lemma_load_run_fresh(lines.drop_first(), env2, data.push((k, v)));
                    let rest = load_run(lines.drop_first(), env2, data.push((k, v))).0;
                    let a = load_run(lines, env, data).0;
                    assert(a == seq![(k, val)] + rest);
                    assert forall|i: int| 0 <= i < rest.len() implies (#[trigger] rest[i]).0 != k && env_lookup(env, rest[i].0) is None by {
                        crate::env::lemma_first_value_push(env, k, val, rest[i].0);
                    }
                    assert forall|i: int| 0 <= i < a.len() implies env_lookup(env, (#[trigger] a[i]).0) is None by {
                        if i > 0 {
                            assert(a[i] == rest[i - 1]);
                        }
                    }
                    assert forall|i: int, j: int| 0 <= i < j < a.len() implies (#[trigger] a[i]).0 != (#[trigger] a[j]).0 by {
                        assert(a[j] == rest[j - 1]);
                        if i > 0 {
                            assert(a[i] == rest[i - 1]);
                        }
                    }
                } else {
                    lemma_load_run_fresh(lines.drop_first(), env, data.push((k, v)));
                }
            },
            _ => {},
        }
    }
}

/// Loading a `.env` text leaves every variable that is already set untouched, and sets each
/// variable at most once.
pub proof fn load_preserves_existing_variables(content: Seq<char>, env: Seq<(Seq<char>, Seq<char>)>)
    ensures
        ({
            let a = load_spec(content, env).0;
            &&& forall|i: int| 0 <= i < a.len() ==> env_lookup(env, (#[trigger] a[i]).0) is None
            &&& forall|i: int, j: int| 0 <= i < j < a.len() ==> (#[trigger] a[i]).0 != (#[trigger] a[j]).0
        }),
{
    let lines = lines_from(strip_bom(content), 0);
    lemma_load_run_fresh(lines.0, env, Seq::empty());
}

} // verus!
