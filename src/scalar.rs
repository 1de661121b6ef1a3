//! Scalar parameter values and their literal text in the target script dialect.

use vstd::prelude::*;

verus! {

/// One candidate value of a parameter: a boolean, a number, or a string.
///
/// A number is held as its literal text (`2`, `2.5`, `-3`), exactly as the
/// configuration document writes it; [`Scalar::number`] admits only JSON
/// number literals there.
#[derive(Debug, Hash)]
pub enum Scalar {
    Bool(bool),
    Number(String),
    Str(String),
}

/// The mathematical value of a [`Scalar`].
pub enum ScalarModel {
    Bool(bool),
    Number(Seq<char>),
    Str(Seq<char>),
}

impl View for Scalar {
    type V = ScalarModel;

    open spec fn view(&self) -> ScalarModel {
        match self {
            Scalar::Bool(b) => ScalarModel::Bool(*b),
            Scalar::Number(t) => ScalarModel::Number(t@),
            Scalar::Str(s) => ScalarModel::Str(s@),
        }
    }
}

/// A lowercase hexadecimal digit.
pub open spec fn hex_digit(n: int) -> char {
    seq!['0', '1', '2', '3', '4', '5', '6', '7', '8', '9', 'a', 'b', 'c', 'd', 'e', 'f'][n]
}

/// How JSON writes one character inside a string literal: quote and
/// backslash behind a backslash, five control characters by their short
/// escapes, other control characters as `\u00XX`, everything else as itself.
pub open spec fn escape_char(c: char) -> Seq<char> {
    if c == '"' {
        seq!['\\', '"']
    } else if c == '\\' {
        seq!['\\', '\\']
    } else if c == '\u{8}' {
        seq!['\\', 'b']
    } else if c == '\t' {
        seq!['\\', 't']
    } else if c == '\n' {
        seq!['\\', 'n']
    } else if c == '\u{c}' {
        seq!['\\', 'f']
    } else if c == '\r' {
        seq!['\\', 'r']
    } else if (c as u32) < 0x20 {
        seq!['\\', 'u', '0', '0', hex_digit((c as u32) as int / 16), hex_digit((c as u32) as int % 16)]
    } else {
        seq![c]
    }
}

/// The characters of `s` with every one escaped as JSON does.
pub open spec fn escaped(s: Seq<char>) -> Seq<char>
    decreases s.len(),
{
    if s.len() == 0 {
        s
    } else {
        escaped(s.drop_last()) + escape_char(s.last())
    }
}

/// The JSON string literal of `s`: its escaped characters between quotes.
pub open spec fn json_string_text(s: Seq<char>) -> Seq<char> {
    seq!['"'] + escaped(s) + seq!['"']
}

/// A string that JSON writes without any escape: no quote, no backslash,
/// no control character.
pub open spec fn escape_free(s: Seq<char>) -> bool {
    forall|i: int|
        0 <= i < s.len() ==> #[trigger] s[i] != '"' && s[i] != '\\' && (s[i] as u32) >= 0x20
}

/// A string with nothing to escape is its own escaped form.
pub proof fn lemma_escape_free_unchanged(s: Seq<char>)
    requires
        escape_free(s),
    ensures
        escaped(s) == s,
    decreases s.len(),
{
    if s.len() > 0 {
        assert(escape_free(s.drop_last())) by {
            assert forall|i: int| 0 <= i < s.drop_last().len() implies #[trigger] s.drop_last()[i]
                != '"' && s.drop_last()[i] != '\\' && (s.drop_last()[i] as u32) >= 0x20 by {
                assert(s.drop_last()[i] == s[i]);
            }
        }
        lemma_escape_free_unchanged(s.drop_last());
        assert(s[s.len() - 1] != '"' && s[s.len() - 1] != '\\' && (s[s.len() - 1] as u32) >= 0x20);
        assert(s.drop_last() + seq![s.last()] =~= s);
    }
}

pub open spec fn true_text() -> Seq<char> {
    seq!['t', 'r', 'u', 'e']
}

pub open spec fn false_text() -> Seq<char> {
    seq!['f', 'a', 'l', 's', 'e']
}

/// How a value is written in the script: numbers unquoted, booleans as
/// their keyword, strings as double-quoted literals.
pub open spec fn literal(v: ScalarModel) -> Seq<char> {
    match v {
        ScalarModel::Bool(b) => if b {
            true_text()
        } else {
            false_text()
        },
        ScalarModel::Number(t) => t,
        ScalarModel::Str(s) => json_string_text(s),
    }
}

/// Relies on the `Display` of `serde_json::Value::String`: it writes the
/// string as a JSON literal, escaping only quotes, backslashes and control
/// characters.
#[verifier::external_body]
fn json_quote(s: &String) -> (r: String)
    ensures
        r@ == json_string_text(s@),
{
    serde_json::Value::String(s.clone()).to_string()
}

pub(crate) fn copy_text(s: &String) -> (r: String)
    ensures
        r@ == s@,
{
    s.clone()
}


pub open spec fn is_digit(c: char) -> bool {
    '0' <= c <= '9'
}

/// One step of the recogniser of JSON number literals
/// `-?(0|[1-9][0-9]*)(.[0-9]+)?([eE][+-]?[0-9]+)?`. States: 0 start, 1 after
/// the sign, 2 after a leading zero, 3 in the integer digits, 4 after the
/// point, 5 in the fraction, 6 after the exponent mark, 7 after its sign,
/// 8 in the exponent, 9 rejected.
pub open spec fn number_step(state: u8, c: char) -> u8 {
    if state == 0 && c == '-' {
        1
    } else if (state == 0 || state == 1) && c == '0' {
        2
    } else if (state == 0 || state == 1) && is_digit(c) {
        3
    } else if state == 3 && is_digit(c) {
        3
    } else if (state == 2 || state == 3) && c == '.' {
        4
    } else if (state == 4 || state == 5) && is_digit(c) {
        5
    } else if (state == 2 || state == 3 || state == 5) && (c == 'e' || c == 'E') {
        6
    } else if state == 6 && (c == '+' || c == '-') {
        7
    } else if (state == 6 || state == 7 || state == 8) && is_digit(c) {
        8
    } else {
        9
    }
}

/// The recogniser's state after reading `t`.
pub open spec fn number_state(t: Seq<char>) -> u8
    decreases t.len(),
{
    if t.len() == 0 {
        0
    } else {
        number_step(number_state(t.drop_last()), t.last())
    }
}

/// Whether `t` is a JSON number literal.
pub open spec fn is_number_literal(t: Seq<char>) -> bool {
    let q = number_state(t);
    q == 2 || q == 3 || q == 5 || q == 8
}

fn next_number_state(state: u8, c: char) -> (r: u8)
    ensures
        r == number_step(state, c),
{
    let digit = '0' <= c && c <= '9';
    if state == 0 && c == '-' {
        1
    } else if (state == 0 || state == 1) && c == '0' {
        2
    } else if (state == 0 || state == 1) && digit {
        3
    } else if state == 3 && digit {
        3
    } else if (state == 2 || state == 3) && c == '.' {
        4
    } else if (state == 4 || state == 5) && digit {
        5
    } else if (state == 2 || state == 3 || state == 5) && (c == 'e' || c == 'E') {
        6
    } else if state == 6 && (c == '+' || c == '-') {
        7
    } else if (state == 6 || state == 7 || state == 8) && digit {
        8
    } else {
        9
    }
}

/// Whether `t` is a JSON number literal.
pub fn number_literal(t: &str) -> (r: bool)
    ensures
        r == is_number_literal(t@),
{
    let n = t.unicode_len();
    let mut state: u8 = 0;
    let mut i: usize = 0;
    while i < n
        invariant
            n == t@.len(),
            0 <= i <= n,
            state == number_state(t@.take(i as int)),
        decreases n - i,
    {
        let c = t.get_char(i);
        proof {
            assert(t@.take(i as int + 1).drop_last() =~= t@.take(i as int));
        }
        state = next_number_state(state, c);
        i += 1;
    }
    proof {
        assert(t@.take(n as int) =~= t@);
    }
    state == 2 || state == 3 || state == 5 || state == 8
}

impl Scalar {
    /// The number whose literal is `text`, or none where `text` is not a JSON
    /// number literal.
    pub fn number(text: String) -> (r: Option<Scalar>)
        ensures
            r is Some <==> is_number_literal(text@),
            r is Some ==> r->Some_0@ == ScalarModel::Number(text@),
    {
        if number_literal(text.as_str()) {
            Some(Scalar::Number(text))
        } else {
            None
        }
    }

    /// A copy of this value.
    pub fn duplicate(&self) -> (r: Scalar)
        ensures
            r@ == self@,
    {
        match self {
            Scalar::Bool(b) => Scalar::Bool(*b),
            Scalar::Number(t) => Scalar::Number(copy_text(t)),
            Scalar::Str(s) => Scalar::Str(copy_text(s)),
        }
    }

    /// Whether two values are the same: booleans and numbers by value,
    /// strings by exact content.
    pub fn same(&self, o: &Scalar) -> (r: bool)
        ensures
            r == (self@ == o@),
    {
        match (self, o) {
            (Scalar::Bool(a), Scalar::Bool(b)) => *a == *b,
            (Scalar::Number(a), Scalar::Number(b)) => a.eq(b),
            (Scalar::Str(a), Scalar::Str(b)) => a.eq(b),
            _ => false,
        }
    }

    /// The value's literal text in the script dialect.
    pub fn literal_text(&self) -> (r: String)
        ensures
            r@ == literal(self@),
            self@ is Str && escape_free(self@->Str_0) ==> r@ == seq!['"'] + self@->Str_0 + seq![
                '"',
            ],
    {
        proof {
            if self@ is Str && escape_free(self@->Str_0) {
                lemma_escape_free_unchanged(self@->Str_0);
            }
        }
        match self {
            Scalar::Bool(b) => {
                if *b {
                    let t = String::from_str("true");
                    proof {
                        reveal_strlit("true");
                    }
                    t
                } else {
                    let t = String::from_str("false");
                    proof {
                        reveal_strlit("false");
                    }
                    t
                }
            },
            Scalar::Number(t) => copy_text(t),
            Scalar::Str(s) => json_quote(s),
        }
    }
}

impl Clone for Scalar {
    fn clone(&self) -> Scalar {
        self.duplicate()
    }
}

impl PartialEq for Scalar {
    fn eq(&self, o: &Scalar) -> (r: bool) {
        self.same(o)
    }
}

impl vstd::std_specs::cmp::PartialEqSpecImpl for Scalar {
    open spec fn obeys_eq_spec() -> bool {
        true
    }

    open spec fn eq_spec(&self, o: &Scalar) -> bool {
        self@ == o@
    }
}

impl Eq for Scalar {

}

} // verus!
