//! String-literal unquoting and small verified string helpers.

use vstd::prelude::*;
use vstd::string::StrSliceExecFns;
use vstd::string::StringExecFns;

use crate::errors::ErrorKind;
use crate::errors::JabroniError;
use crate::errors::JabroniResult;

verus! {

/// What a backslash escape decodes to: `\n`, `\t`, `\r`, `\\`, `\'` and `\"`
/// are accepted, everything else is malformed.
pub open spec fn escape_char(c: char) -> Option<char> {
    if c == 'n' {
        Some('\n')
    } else if c == 't' {
        Some('\t')
    } else if c == 'r' {
        Some('\r')
    } else if c == '\\' || c == '\'' || c == '"' {
        Some(c)
    } else {
        None
    }
}

/// Decode the remainder of a quoted literal after its opening quote `term`:
/// the body's characters, with escapes decoded, up to a closing `term` that
/// must be the last character. `None` where the text is malformed.
pub open spec fn unquote_body(s: Seq<char>, term: char) -> Option<Seq<char>>
    decreases s.len(),
{
    if s.len() == 0 {
        // the input ran out before the closing quote
        None
    } else if s[0] == '\\' {
        if s.len() == 1 {
            None
        } else {
            match escape_char(s[1]) {
                Some(d) => match unquote_body(s.skip(2), term) {
                    Some(rest) => Some(seq![d] + rest),
                    None => None,
                },
                None => None,
            }
        }
    } else if s[0] == term {
        if s.len() == 1 {
            Some(Seq::empty())
        } else {
            // the closing quote came before the end of the input
            None
        }
    } else {
        match unquote_body(s.skip(1), term) {
            Some(rest) => Some(seq![s[0]] + rest),
            None => None,
        }
    }
}

/// The value of a quoted string literal: the text between a matching pair of
/// `'` or `"` delimiters, with backslash escapes decoded. `None` where the
/// literal is malformed.
pub open spec fn unquote_spec(s: Seq<char>) -> Option<Seq<char>> {
    if s.len() < 2 {
        None
    } else if s[0] == '"' || s[0] == '\'' {
        unquote_body(s.skip(1), s[0])
    } else {
        None
    }
}

/// Relies on `String::push`: appends the given character to the end of the
/// string and changes nothing else.
#[verifier::external_body]
pub(crate) fn string_push(s: &mut String, c: char)
    ensures
        final(s)@ == old(s)@.push(c),
{
    s.push(c);
}

/// The characters of a string slice, in order, as a vector.
pub(crate) fn str_to_chars(s: &str) -> (r: Vec<char>)
    ensures
        r@ == s@,
{
    let n = s.unicode_len();
    let mut r: Vec<char> = Vec::new();
    let mut i: usize = 0;
    while i < n
        invariant
            n == s@.len(),
            i <= n,
            r@ == s@.subrange(0, i as int),
        decreases n - i,
    {
        r.push(s.get_char(i));
        proof {
            assert(r@ =~= s@.subrange(0, i + 1 as int));
        }
        i = i + 1;
    }
    proof {
        assert(r@ =~= s@);
    }
    r
}

/// The given characters, joined into an owned string.
pub(crate) fn chars_to_string(v: &Vec<char>) -> (s: String)
    ensures
        s@ == v@,
{
    let mut s = String::new();
    let mut i: usize = 0;
    while i < v.len()
        invariant
            i <= v@.len(),
            s@ == v@.subrange(0, i as int),
        decreases v@.len() - i,
    {
        string_push(&mut s, v[i]);
        proof {
            assert(s@ =~= v@.subrange(0, i + 1 as int));
        }
        i = i + 1;
    }
    proof {
        assert(s@ =~= v@);
    }
    s
}

/// The characters `s[from..to]`, joined into an owned string.
pub(crate) fn substring(s: &Vec<char>, from: usize, to: usize) -> (r: String)
    requires
        from <= to <= s@.len(),
    ensures
        r@ == s@.subrange(from as int, to as int),
{
    let mut r = String::new();
    let mut i: usize = from;
    while i < to
        invariant
            from <= i <= to <= s@.len(),
            r@ == s@.subrange(from as int, i as int),
        decreases to - i,
    {
        string_push(&mut r, s[i]);
        proof {
            assert(r@ =~= s@.subrange(from as int, i + 1 as int));
        }
        i = i + 1;
    }
    r
}

/// A copy of a list of names, character for character.
pub(crate) fn clone_strings(v: &Vec<String>) -> (r: Vec<String>)
    ensures
        r.deep_view() == v.deep_view(),
        r@.len() == v@.len(),
{
    let mut r: Vec<String> = Vec::new();
    let mut i: usize = 0;
    while i < v.len()
        invariant
            0 <= i <= v@.len(),
            r@.len() == i,
            forall|k: int| 0 <= k < i ==> r@[k] == v@[k],
        decreases v@.len() - i,
    {
        r.push(v[i].clone());
        i = i + 1;
    }
    proof {
        assert(r.deep_view() =~= v.deep_view());
    }
    r
}

/// Character-for-character equality of two string slices.
pub(crate) fn str_eq(a: &str, b: &str) -> (r: bool)
    ensures
        r == (a@ == b@),
{
    let n = a.unicode_len();
    let m = b.unicode_len();
    if n != m {
        return false;
    }
    let mut i: usize = 0;
    while i < n
        invariant
            n == a@.len(),
            n == b@.len(),
            i <= n,
            forall|k: int| 0 <= k < i ==> a@[k] == b@[k],
        decreases n - i,
    {
        if a.get_char(i) != b.get_char(i) {
            return false;
        }
        i = i + 1;
    }
    proof {
        assert(a@ =~= b@);
    }
    true
}

/// The decoded escape for `c`, or `None` where `\c` is not a known escape.
fn escape_char_exec(c: char) -> (r: Option<char>)
    ensures
        r == escape_char(c),
{
    if c == 'n' {
        Some('\n')
    } else if c == 't' {
        Some('\t')
    } else if c == 'r' {
        Some('\r')
    } else if c == '\\' || c == '\'' || c == '"' {
        Some(c)
    } else {
        None
    }
}

/// Strip a matching pair of `'` or `"` delimiters from `string` and decode
/// the backslash escapes `\n \t \r \\ \' \"` in between.
///
/// Returns exactly the value of [`unquote_spec`]; fails with a parse error
/// if and only if the literal is malformed: too short, not delimited by a
/// quote, terminated early or not at all, or holding an unknown escape.
pub fn unquote(string: &str) -> (r: JabroniResult<String>)
    ensures
        match r {
            Ok(out) => unquote_spec(string@) == Some(out@),
            Err(e) => unquote_spec(string@) is None && e@ == ErrorKind::Parse,
        },
{
    let chars = str_to_chars(string);
    if chars.len() < 2 {
        return Err(JabroniError::Parse(String::from_str(
            "Attempted to unquote an already unquoted string",
        )));
    }
    let term = chars[0];
    if term != '"' && term != '\'' {
        return Err(JabroniError::Parse(String::from_str(
            "Attempted to unquote an already unquoted string",
        )));
    }
    let mut out: Vec<char> = Vec::new();
    let mut i: usize = 1;
    loop
        invariant
            chars@ == string@,
            2 <= chars@.len(),
            1 <= i <= chars@.len(),
            term == chars@[0],
            term == '"' || term == '\'',
            unquote_spec(string@) == match unquote_body(chars@.skip(i as int), term) {
                Some(rest) => Some(out@ + rest),
                None => None::<Seq<char>>,
            },
        decreases chars@.len() - i,
    {
        if i == chars.len() {
            proof {
                assert(chars@.skip(i as int) =~= Seq::<char>::empty());
            }
            return Err(JabroniError::Parse(String::from_str(
                "String parsing unexpectedly cut short",
            )));
        }
        let c = chars[i];
        proof {
            assert(chars@.skip(i as int)[0] == chars@[i as int]);
        }
        if c == '\\' {
            if i + 1 == chars.len() {
                proof {
                    assert(chars@.skip(i as int).len() == 1);
                }
                return Err(JabroniError::Parse(String::from_str(
                    "String parsing unexpectedly cut short",
                )));
            }
            proof {
                assert(chars@.skip(i as int)[1] == chars@[i + 1 as int]);
            }
            match escape_char_exec(chars[i + 1]) {
                Some(d) => {
                    let ghost prev = out@;
                    out.push(d);
                    proof {
                        assert(chars@.skip(i as int).skip(2) =~= chars@.skip(i + 2 as int));
                        assert forall|rest: Seq<char>| prev + (seq![d] + rest) =~= out@
                            + rest by {}
                    }
                    i = i + 2;
                },
                None => {
                    return Err(JabroniError::Parse(String::from_str(
                        "Found unknown escaped sequence while parsing string",
                    )));
                },
            }
        } else if c == term {
            if i + 1 == chars.len() {
                proof {
                    assert(chars@.skip(i as int).len() == 1);
                    assert(out@ + Seq::<char>::empty() =~= out@);
                }
                return Ok(chars_to_string(&out));
            } else {
                return Err(JabroniError::Parse(String::from_str(
                    "While parsing string, met terminator before end of string",
                )));
            }
        } else {
            let ghost prev = out@;
            out.push(c);
            proof {
                assert(chars@.skip(i as int).skip(1) =~= chars@.skip(i + 1 as int));
                assert forall|rest: Seq<char>| prev + (seq![c] + rest) =~= out@ + rest by {}
            }
            i = i + 1;
        }
    }
}

} // verus!
