//! The environment micro-format `KEY=VAL;KEY2=VAL2;`: a two-state parser
//! (reading a key, reading a value) with backslash escaping, and its
//! round-trip law.

use vstd::prelude::*;
use crate::text::push_char;

verus! {

/// Why an environment string is rejected.
#[derive(Clone, Copy, PartialEq, Eq, Structural, Debug)]
pub enum EnvError {
    /// `=` seen while already reading a value.
    SeveralValues,
    /// `;` seen before the `=` of the current pair.
    MissingValue,
    /// Input ended while still reading a value (the closing `;` is missing).
    Unterminated,
}

impl EnvError {
    /// The message reported over the wire for this error.
    pub open spec fn spec_message(self) -> Seq<char> {
        match self {
            EnvError::SeveralValues => "Env arg has several values"@,
            EnvError::MissingValue => "Env arg is missing value"@,
            EnvError::Unterminated => "Env args are unterminated"@,
        }
    }

    /// Renders the message reported over the wire.
    pub fn message(&self) -> (r: &'static str)
        ensures
            r@ == self.spec_message(),
    {
        match self {
            EnvError::SeveralValues => "Env arg has several values",
            EnvError::MissingValue => "Env arg is missing value",
            EnvError::Unterminated => "Env args are unterminated",
        }
    }
}

/// The parser's step function, one character at a time. `in_value` tells
/// which buffer is being filled; a backslash appends the following character
/// to that buffer unexamined; `=` switches from key to value; `;` closes the
/// pair. A trailing lone backslash acts as end of input. Characters
/// accumulated into an unclosed key when the input ends are discarded.
pub open spec fn parse_env_rec(
    s: Seq<char>,
    in_value: bool,
    key: Seq<char>,
    val: Seq<char>,
    acc: Seq<(Seq<char>, Seq<char>)>,
) -> Result<Seq<(Seq<char>, Seq<char>)>, EnvError>
    decreases s.len(),
{
    if s.len() == 0 {
        if in_value {
            Err(EnvError::Unterminated)
        } else {
            Ok(acc)
        }
    } else if s[0] == '\\' {
        if s.len() == 1 {
            if in_value {
                Err(EnvError::Unterminated)
            } else {
                Ok(acc)
            }
        } else if in_value {
            parse_env_rec(s.skip(2), true, key, val.push(s[1]), acc)
        } else {
            parse_env_rec(s.skip(2), false, key.push(s[1]), val, acc)
        }
    } else if s[0] == '=' {
        if in_value {
            Err(EnvError::SeveralValues)
        } else {
            parse_env_rec(s.skip(1), true, key, val, acc)
        }
    } else if s[0] == ';' {
        if !in_value {
            Err(EnvError::MissingValue)
        } else {
            parse_env_rec(s.skip(1), false, Seq::empty(), Seq::empty(), acc.push((key, val)))
        }
    } else if in_value {
        parse_env_rec(s.skip(1), true, key, val.push(s[0]), acc)
    } else {
        parse_env_rec(s.skip(1), false, key.push(s[0]), val, acc)
    }
}

/// What an env blob means: the pair list it denotes, or the first error the
/// two-state parser meets.
pub open spec fn parse_env_spec(s: Seq<char>) -> Result<
    Seq<(Seq<char>, Seq<char>)>,
    EnvError,
> {
    parse_env_rec(s, false, Seq::empty(), Seq::empty(), Seq::empty())
}

/// Parses an env blob into `(key, value)` pairs, exactly as `parse_env_spec`
/// describes: on an error, nothing is returned, so a malformed blob never
/// partially applies.
pub fn parse_env(s: &str) -> (r: Result<Vec<(String, String)>, EnvError>)
    ensures
        match r {
            Ok(pairs) => parse_env_spec(s@) == Ok::<_, EnvError>(pairs.deep_view()),
            Err(e) => parse_env_spec(s@) == Err::<Seq<(Seq<char>, Seq<char>)>, _>(e),
        },
{
    let n = s.unicode_len();
    let mut out: Vec<(String, String)> = Vec::new();
    let mut cur_key = String::new();
    let mut cur_val = String::new();
    let mut in_value = false;
    let mut i: usize = 0;
    proof {
        assert(s@.skip(0) =~= s@);
        assert(out.deep_view() =~= Seq::<(Seq<char>, Seq<char>)>::empty());
    }
    while i < n
        invariant
            i <= n,
            n == s@.len(),
            parse_env_spec(s@) == parse_env_rec(
                s@.skip(i as int),
                in_value,
                cur_key@,
                cur_val@,
                out.deep_view(),
            ),
        decreases n - i,
    {
        let ghost rem = s@.skip(i as int);
        let c = s.get_char(i);
        assert(rem[0] == c);
        if c == '\\' {
            if i + 1 == n {
                assert(rem.len() == 1);
                if in_value {
                    return Err(EnvError::Unterminated);
                } else {
                    return Ok(out);
                }
            }
            let c2 = s.get_char(i + 1);
            proof {
                assert(rem[1] == c2);
                assert(rem.skip(2) =~= s@.skip(i + 2));
            }
            if in_value {
                push_char(&mut cur_val, c2);
            } else {
                push_char(&mut cur_key, c2);
            }
            i = i + 2;
        } else if c == '=' {
            if in_value {
                return Err(EnvError::SeveralValues);
            }
            proof {
                assert(rem.skip(1) =~= s@.skip(i + 1));
            }
            in_value = true;
            i = i + 1;
        } else if c == ';' {
            if !in_value {
                return Err(EnvError::MissingValue);
            }
            proof {
                assert(rem.skip(1) =~= s@.skip(i + 1));
            }
            let ghost prev_acc = out.deep_view();
            let ghost k = cur_key@;
            let ghost v = cur_val@;
            out.push((cur_key, cur_val));
            cur_key = String::new();
            cur_val = String::new();
            in_value = false;
            proof {
                assert(out.deep_view() =~= prev_acc.push((k, v)));
            }
            i = i + 1;
        } else {
            proof {
                assert(rem.skip(1) =~= s@.skip(i + 1));
            }
            if in_value {
                push_char(&mut cur_val, c);
            } else {
                push_char(&mut cur_key, c);
            }
            i = i + 1;
        }
    }
    assert(s@.skip(i as int).len() == 0);
    if in_value {
        Err(EnvError::Unterminated)
    } else {
        Ok(out)
    }
}

/// One character of a key or value as written in a well-formed env string:
/// the three control characters are escaped with a backslash.
pub open spec fn escape_char(c: char) -> Seq<char> {
    if c == '\\' || c == '=' || c == ';' {
        seq!['\\', c]
    } else {
        seq![c]
    }
}

/// A key or value as written in a well-formed env string.
pub open spec fn escape_text(s: Seq<char>) -> Seq<char>
    decreases s.len(),
{
    if s.len() == 0 {
        Seq::empty()
    } else {
        escape_char(s[0]) + escape_text(s.skip(1))
    }
}

/// One pair as written in a well-formed env string: `KEY=VAL;`, escaped.
pub open spec fn encode_env_pair(k: Seq<char>, v: Seq<char>) -> Seq<char> {
    escape_text(k) + seq!['='] + escape_text(v) + seq![';']
}

/// A pair list as written in a well-formed env string.
pub open spec fn encode_env(pairs: Seq<(Seq<char>, Seq<char>)>) -> Seq<char>
    decreases pairs.len(),
{
    if pairs.len() == 0 {
        Seq::empty()
    } else {
        encode_env_pair(pairs[0].0, pairs[0].1) + encode_env(pairs.skip(1))
    }
}

/// Escaped text feeds through the parser unexamined: in key state it lands on
/// the key buffer and the parser goes on with the rest of the input.
proof fn lemma_parse_escaped_key(
    t: Seq<char>,
    rest: Seq<char>,
    key: Seq<char>,
    val: Seq<char>,
    acc: Seq<(Seq<char>, Seq<char>)>,
)
    ensures
        parse_env_rec(escape_text(t) + rest, false, key, val, acc) == parse_env_rec(
            rest,
            false,
            key + t,
            val,
            acc,
        ),
    decreases t.len(),
{
    if t.len() == 0 {
        assert(escape_text(t) + rest =~= rest);
        assert(key + t =~= key);
    } else {
        let c = t[0];
        let s = escape_text(t) + rest;
        assert(escape_text(t) == escape_char(c) + escape_text(t.skip(1)));
        if c == '\\' || c == '=' || c == ';' {
            assert(s[0] == '\\');
            assert(s[1] == c);
            assert(s.len() >= 2);
            assert(s.skip(2) =~= escape_text(t.skip(1)) + rest);
            lemma_parse_escaped_key(t.skip(1), rest, key.push(c), val, acc);
            assert(key.push(c) + t.skip(1) =~= key + t);
        } else {
            assert(s[0] == c);
            assert(s.skip(1) =~= escape_text(t.skip(1)) + rest);
            lemma_parse_escaped_key(t.skip(1), rest, key.push(c), val, acc);
            assert(key.push(c) + t.skip(1) =~= key + t);
        }
    }
}

/// Escaped text feeds through the parser unexamined: in value state it lands
/// on the value buffer and the parser goes on with the rest of the input.
proof fn lemma_parse_escaped_val(
    t: Seq<char>,
    rest: Seq<char>,
    key: Seq<char>,
    val: Seq<char>,
    acc: Seq<(Seq<char>, Seq<char>)>,
)
    ensures
        parse_env_rec(escape_text(t) + rest, true, key, val, acc) == parse_env_rec(
            rest,
            true,
            key,
            val + t,
            acc,
        ),
    decreases t.len(),
{
    if t.len() == 0 {
        assert(escape_text(t) + rest =~= rest);
        assert(val + t =~= val);
    } else {
        let c = t[0];
        let s = escape_text(t) + rest;
        assert(escape_text(t) == escape_char(c) + escape_text(t.skip(1)));
        if c == '\\' || c == '=' || c == ';' {
            assert(s[0] == '\\');
            assert(s[1] == c);
            assert(s.len() >= 2);
            assert(s.skip(2) =~= escape_text(t.skip(1)) + rest);
            lemma_parse_escaped_val(t.skip(1), rest, key, val.push(c), acc);
            assert(val.push(c) + t.skip(1) =~= val + t);
        } else {
            assert(s[0] == c);
            assert(s.skip(1) =~= escape_text(t.skip(1)) + rest);
            lemma_parse_escaped_val(t.skip(1), rest, key, val.push(c), acc);
            assert(val.push(c) + t.skip(1) =~= val + t);
        }
    }
}

/// One well-formed `KEY=VAL;` group parses to exactly one appended pair.
proof fn lemma_parse_encoded_pair(
    k: Seq<char>,
    v: Seq<char>,
    rest: Seq<char>,
    acc: Seq<(Seq<char>, Seq<char>)>,
)
    ensures
        parse_env_rec(encode_env_pair(k, v) + rest, false, Seq::empty(), Seq::empty(), acc)
            == parse_env_rec(rest, false, Seq::empty(), Seq::empty(), acc.push((k, v))),
{
    let empty = Seq::<char>::empty();
    let after_key = seq!['='] + escape_text(v) + seq![';'] + rest;
    let after_val = seq![';'] + rest;
    assert(encode_env_pair(k, v) + rest =~= escape_text(k) + after_key);
    lemma_parse_escaped_key(k, after_key, empty, empty, acc);
    assert(empty + k =~= k);
    assert(parse_env_rec(encode_env_pair(k, v) + rest, false, empty, empty, acc)
        == parse_env_rec(after_key, false, k, empty, acc));
    assert(after_key[0] == '=');
    assert(after_key.skip(1) =~= escape_text(v) + after_val);
    assert(parse_env_rec(after_key, false, k, empty, acc) == parse_env_rec(
        escape_text(v) + after_val,
        true,
        k,
        empty,
        acc,
    ));
    lemma_parse_escaped_val(v, after_val, k, empty, acc);
    assert(empty + v =~= v);
    assert(parse_env_rec(escape_text(v) + after_val, true, k, empty, acc) == parse_env_rec(
        after_val,
        true,
        k,
        v,
        acc,
    ));
    assert(after_val[0] == ';');
    assert(after_val.skip(1) =~= rest);
    assert(parse_env_rec(after_val, true, k, v, acc) == parse_env_rec(
        rest,
        false,
        empty,
        empty,
        acc.push((k, v)),
    ));
}

/// A whole well-formed env string parses to the pairs it was written from,
/// appended to whatever was already accumulated.
proof fn lemma_parse_encoded(pairs: Seq<(Seq<char>, Seq<char>)>, acc: Seq<(Seq<char>, Seq<char>)>)
    ensures
        parse_env_rec(encode_env(pairs), false, Seq::empty(), Seq::empty(), acc) == Ok::<
            _,
            EnvError,
        >(acc + pairs),
    decreases pairs.len(),
{
    if pairs.len() == 0 {
        assert(encode_env(pairs).len() == 0);
        assert(acc + pairs =~= acc);
    } else {
        let k = pairs[0].0;
        let v = pairs[0].1;
        assert(encode_env(pairs) =~= encode_env_pair(k, v) + encode_env(pairs.skip(1)));
        lemma_parse_encoded_pair(k, v, encode_env(pairs.skip(1)), acc);
        lemma_parse_encoded(pairs.skip(1), acc.push((k, v)));
        assert(acc.push((k, v)) + pairs.skip(1) =~= acc + pairs);
    }
}

/// Round trip: the well-formed env string written for any pair list — keys
/// and values escaped, each pair closed with `;` — parses back to exactly
/// that list.
pub proof fn lemma_env_round_trip(pairs: Seq<(Seq<char>, Seq<char>)>)
    ensures
        parse_env_spec(encode_env(pairs)) == Ok::<_, EnvError>(pairs),
{
    lemma_parse_encoded(pairs, Seq::empty());
    assert(Seq::<(Seq<char>, Seq<char>)>::empty() + pairs =~= pairs);
}

} // verus!
