use vstd::prelude::*;
use vstd::string::StringExecFns;

verus! {

/// The final value of a script, in a form that can be sent as text.
#[derive(Debug, PartialEq, Eq)]
pub enum ScriptValue {
    Nil,
    Boolean(bool),
    Integer(i64),
    /// A number with a fraction, already written out by the interpreter's host.
    Number(String),
    Text(String),
    /// A table with the keys 1, 2, ..., n, in key order.
    Sequence(Vec<ScriptValue>),
    /// A table with text keys, in the order the host walked it.
    Record(Vec<(String, ScriptValue)>),
    /// A function, userdata or other value without a text form.
    Opaque,
}

/// A script's value, or a value inside it, has no text form.
#[derive(Debug, Clone, Copy, PartialEq, Eq, Structural)]
pub enum RenderError {
    UnexpectedType,
}

/// The decimal digits of `n`, most significant first, without leading zeros.
pub open spec fn digits_of(n: nat) -> Seq<char>
    decreases n,
{
    if n < 10 {
        seq!["0123456789"@[n as int]]
    } else {
        digits_of(n / 10).push("0123456789"@[(n % 10) as int])
    }
}

/// An integer in decimal, with `-` before a negative one.
pub open spec fn decimal_of(i: int) -> Seq<char> {
    if i < 0 {
        seq!['-'] + digits_of((-i) as nat)
    } else {
        digits_of(i as nat)
    }
}

/// How one character is written inside quotes.
pub open spec fn escape_char(c: char) -> Seq<char> {
    if c == '"' {
        "\\\""@
    } else if c == '\\' {
        "\\\\"@
    } else if c == '\n' {
        "\\n"@
    } else if c == '\r' {
        "\\r"@
    } else if c == '\t' {
        "\\t"@
    } else {
        seq![c]
    }
}

/// A text with quotes, backslashes and line breaks escaped.
pub open spec fn escaped(s: Seq<char>) -> Seq<char>
    decreases s.len(),
{
    if s.len() == 0 {
        Seq::empty()
    } else {
        escaped(s.drop_last()) + escape_char(s.last())
    }
}

/// A text between double quotes.
pub open spec fn quoted(s: Seq<char>) -> Seq<char> {
    "\""@ + escaped(s) + "\""@
}

/// The JSON-like text of a value nested in a result, if every part of it has one.
pub open spec fn json_of(v: ScriptValue) -> Option<Seq<char>>
    decreases v,
{
    match v {
        ScriptValue::Nil => Some("null"@),
        ScriptValue::Boolean(b) => Some(
            if b {
                "true"@
            } else {
                "false"@
            },
        ),
        ScriptValue::Integer(i) => Some(decimal_of(i as int)),
        ScriptValue::Number(t) => Some(t@),
        ScriptValue::Text(s) => Some(quoted(s@)),
        ScriptValue::Sequence(items) => {
            proof {
                assert(decreases_to!(items => items@)) by {
                    broadcast use vstd::std_specs::vec::axiom_vec_decreases_to_view;
                }
            }
            match json_items(items@) {
                Some(b) => Some("["@ + b + "]"@),
                None => None,
            }
        },
        ScriptValue::Record(fields) => {
            proof {
                assert(decreases_to!(fields => fields@)) by {
                    broadcast use vstd::std_specs::vec::axiom_vec_decreases_to_view;
                }
            }
            match json_fields(fields@) {
                Some(b) => Some("{"@ + b + "}"@),
                None => None,
            }
        },
        ScriptValue::Opaque => None,
    }
}

/// The elements of a sequence, each as `json_of` writes it, separated by commas.
pub open spec fn json_items(s: Seq<ScriptValue>) -> Option<Seq<char>>
    decreases s,
{
    if s.len() == 0 {
        Some(Seq::empty())
    } else {
        proof {
            assert(decreases_to!(s => s[s.len() - 1])) by {
                vstd::seq::axiom_seq_index_decreases(s, s.len() - 1);
            }
            assert(decreases_to!(s => s.drop_last())) by {
                vstd::seq::axiom_seq_len_decreases(s, s.drop_last());
            }
        }
        match (json_items(s.drop_last()), json_of(s[s.len() - 1])) {
            (Some(a), Some(b)) => Some(
                if s.len() == 1 {
                    b
                } else {
                    a + ","@ + b
                },
            ),
            _ => None,
        }
    }
}

/// The fields of a record, each as a quoted key, a colon and the value's `json_of`,
/// separated by commas.
pub open spec fn json_fields(s: Seq<(String, ScriptValue)>) -> Option<Seq<char>>
    decreases s,
{
    if s.len() == 0 {
        Some(Seq::empty())
    } else {
        proof {
            assert(decreases_to!(s => s[s.len() - 1])) by {
                vstd::seq::axiom_seq_index_decreases(s, s.len() - 1);
            }
            assert(decreases_to!(s => s.drop_last())) by {
                vstd::seq::axiom_seq_len_decreases(s, s.drop_last());
            }
        }
        let last = s[s.len() - 1];
        match (json_fields(s.drop_last()), json_of(last.1)) {
            (Some(a), Some(b)) => {
                let field = quoted(last.0@) + ":"@ + b;
                Some(
                    if s.len() == 1 {
                        field
                    } else {
                        a + ","@ + field
                    },
                )
            },
            _ => None,
        }
    }
}

/// The text that the final value of a script is sent as, if it has one: a text as it
/// is, nil as `nil`, anything else as `json_of` writes it.
pub open spec fn rendering(v: ScriptValue) -> Option<Seq<char>> {
    match v {
        ScriptValue::Nil => Some("nil"@),
        ScriptValue::Text(s) => Some(s@),
        _ => json_of(v),
    }
}

proof fn lemma_items_none(s: Seq<ScriptValue>, j: int)
    requires
        1 <= j <= s.len(),
        json_items(s.subrange(0, j)) is None,
    ensures
        json_items(s) is None,
    decreases s.len() - j,
{
    if j == s.len() {
        assert(s.subrange(0, j) =~= s);
    } else {
        assert(s.subrange(0, j + 1).drop_last() =~= s.subrange(0, j));
        lemma_items_none(s, j + 1);
    }
}

proof fn lemma_fields_none(s: Seq<(String, ScriptValue)>, j: int)
    requires
        1 <= j <= s.len(),
        json_fields(s.subrange(0, j)) is None,
    ensures
        json_fields(s) is None,
    decreases s.len() - j,
{
    if j == s.len() {
        assert(s.subrange(0, j) =~= s);
    } else {
        assert(s.subrange(0, j + 1).drop_last() =~= s.subrange(0, j));
        lemma_fields_none(s, j + 1);
    }
}

/// Relies on `ToString` through the `Display` of `i64`: decimal, with `-` before a negative number.
#[verifier::external_body]
fn integer_text(i: i64) -> (r: String)
    ensures
        r@ == decimal_of(i as int),
{
    i.to_string()
}

/// Appends `s` to `out` between double quotes, escaped.
fn push_quoted(out: &mut String, s: &str)
    ensures
        final(out)@ == old(out)@ + quoted(s@),
{
    let n = s.unicode_len();
    out.append("\"");
    let mut i: usize = 0;
    assert(s@.subrange(0, 0) =~= Seq::<char>::empty());
    while i < n
        invariant
            n == s@.len(),
            i <= n,
            out@ == old(out)@ + "\""@ + escaped(s@.subrange(0, i as int)),
        decreases n - i,
    {
        let c = s.get_char(i);
        let ghost before = out@;
        if c == '"' {
            out.append("\\\"");
        } else if c == '\\' {
            out.append("\\\\");
        } else if c == '\n' {
            out.append("\\n");
        } else if c == '\r' {
            out.append("\\r");
        } else if c == '\t' {
            out.append("\\t");
        } else {
            let one = s.substring_char(i, i + 1);
            assert(one@ =~= seq![c]);
            out.append(one);
        }
        assert(out@ == before + escape_char(c));
        assert(s@.subrange(0, i + 1).drop_last() =~= s@.subrange(0, i as int));
        assert(escaped(s@.subrange(0, i + 1)) == escaped(s@.subrange(0, i as int)) + escape_char(
            c,
        ));
        i = i + 1;
        assert(out@ =~= old(out)@ + "\""@ + escaped(s@.subrange(0, i as int)));
    }
    out.append("\"");
    assert(s@.subrange(0, n as int) =~= s@);
    assert(out@ =~= old(out)@ + quoted(s@));
}

/// The JSON-like text of a value nested in a result.
pub fn json_text(v: &ScriptValue) -> (r: Option<String>)
    ensures
        match json_of(*v) {
            Some(t) => r matches Some(s) && s@ == t,
            None => r is None,
        },
    decreases v,
{
    match v {
        ScriptValue::Nil => Some("null".to_owned()),
        ScriptValue::Boolean(b) => Some(
            if *b {
                "true".to_owned()
            } else {
                "false".to_owned()
            },
        ),
        ScriptValue::Integer(i) => Some(integer_text(*i)),
        ScriptValue::Number(t) => Some(t.clone()),
        ScriptValue::Text(s) => {
            let mut out = String::new();
            push_quoted(&mut out, s.as_str());
            assert(out@ =~= quoted(s@));
            Some(out)
        },
        ScriptValue::Sequence(items) => {
            let mut out = "[".to_owned();
            let mut i: usize = 0;
            assert(items@.subrange(0, 0) =~= Seq::<ScriptValue>::empty());
            while i < items.len()
                invariant
                    *v == ScriptValue::Sequence(*items),
                    i <= items@.len(),
                    json_items(items@.subrange(0, i as int)) is Some,
                    out@ == "["@ + json_items(items@.subrange(0, i as int))->Some_0,
                decreases items@.len() - i,
            {
                let ghost prefix = items@.subrange(0, i + 1);
                assert(prefix.drop_last() =~= items@.subrange(0, i as int));
                assert(prefix[prefix.len() - 1] == items@[i as int]);
                proof {
                    assert(decreases_to!(*items => items[i as int])) by {
                        broadcast use vstd::std_specs::vec::axiom_vec_index_decreases;
                    }
                }
                match json_text(&items[i]) {
                    None => {
                        proof {
                            lemma_items_none(items@, i + 1);
                        }
                        return None;
                    },
                    Some(t) => {
                        if i > 0 {
                            out.append(",");
                        }
                        out.append(t.as_str());
                    },
                }
                i = i + 1;
            }
            out.append("]");
            assert(items@.subrange(0, i as int) =~= items@);
            Some(out)
        },
        ScriptValue::Record(fields) => {
            let mut out = "{".to_owned();
            let mut i: usize = 0;
            assert(fields@.subrange(0, 0) =~= Seq::<(String, ScriptValue)>::empty());
            while i < fields.len()
                invariant
                    *v == ScriptValue::Record(*fields),
                    i <= fields@.len(),
                    json_fields(fields@.subrange(0, i as int)) is Some,
                    out@ == "{"@ + json_fields(fields@.subrange(0, i as int))->Some_0,
                decreases fields@.len() - i,
            {
                let ghost prefix = fields@.subrange(0, i + 1);
                assert(prefix.drop_last() =~= fields@.subrange(0, i as int));
                assert(prefix[prefix.len() - 1] == fields@[i as int]);
                let field = &fields[i];
                proof {
                    assert(decreases_to!(*fields => fields[i as int])) by {
                        broadcast use vstd::std_specs::vec::axiom_vec_index_decreases;
                    }
                }
                match json_text(&field.1) {
                    None => {
                        proof {
                            lemma_fields_none(fields@, i + 1);
                        }
                        return None;
                    },
                    Some(t) => {
                        if i > 0 {
                            out.append(",");
                        }
                        push_quoted(&mut out, field.0.as_str());
                        out.append(":");
                        out.append(t.as_str());
                    },
                }
                i = i + 1;
            }
            out.append("}");
            assert(fields@.subrange(0, i as int) =~= fields@);
            Some(out)
        },
        ScriptValue::Opaque => None,
    }
}

/// The text that the final value of a script is sent as.
pub fn render_result(v: ScriptValue) -> (r: Result<String, RenderError>)
    ensures
        match rendering(v) {
            Some(t) => r matches Ok(s) && s@ == t,
            None => r == Err::<String, RenderError>(RenderError::UnexpectedType),
        },
{
    match v {
        ScriptValue::Nil => Ok("nil".to_owned()),
        ScriptValue::Text(s) => Ok(s),
        _ => match json_text(&v) {
            Some(t) => Ok(t),
            None => Err(RenderError::UnexpectedType),
        },
    }
}

} // verus!
