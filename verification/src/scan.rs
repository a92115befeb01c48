//! Low-level executable scanning: character-range copies, string building,
//! and the quoted-string scanner, each proved against the models in
//! [`crate::grammar`].

use vstd::prelude::*;
use vstd::string::StrSliceExecFns;
use vstd::string::StringExecFns;
use crate::grammar::is_digit;
use crate::grammar::is_var_char;
use crate::grammar::parse_cstring;
use crate::grammar::scan_comma;
use crate::grammar::scan_digits;
use crate::grammar::scan_string_body;
use crate::grammar::scan_var;
use crate::grammar::unescape;
use crate::grammar::StrParse;

verus! {

/// Outcome of an executable scan or parse step: the parsed piece and the
/// index after it, or the column of the first violation.
pub(crate) enum Step<T> {
    Good(T, usize),
    Bad(usize),
}

/// Relies on `String::push`: appends the given character to the end of the
/// string.
#[verifier::external_body]
pub(crate) fn push_char(s: &mut String, c: char)
    ensures
        final(s)@ == old(s)@ + seq![c],
{
    s.push(c);
}

/// Copies the characters of `v` in `[lo, hi)` into a fresh string.
pub(crate) fn chars_to_string(v: &Vec<char>, lo: usize, hi: usize) -> (s: String)
    requires
        lo <= hi <= v@.len(),
    ensures
        s@ == v@.subrange(lo as int, hi as int),
{
    let mut s = String::new();
    let mut k = lo;
    while k < hi
        invariant
            lo <= k <= hi <= v@.len(),
            s@ == v@.subrange(lo as int, k as int),
        decreases hi - k,
    {
        let ghost pre = s@;
        push_char(&mut s, v[k]);
        k = k + 1;
        proof {
            assert(s@ =~= v@.subrange(lo as int, k as int));
        }
    }
    s
}

/// Copies the characters of `v` in `[lo, hi)` into a fresh vector.
pub(crate) fn copy_chars(v: &Vec<char>, lo: usize, hi: usize) -> (r: Vec<char>)
    requires
        lo <= hi <= v@.len(),
    ensures
        r@ == v@.subrange(lo as int, hi as int),
{
    let mut r: Vec<char> = Vec::new();
    let mut k = lo;
    while k < hi
        invariant
            lo <= k <= hi <= v@.len(),
            r@ == v@.subrange(lo as int, k as int),
        decreases hi - k,
    {
        r.push(v[k]);
        k = k + 1;
        proof {
            assert(r@ =~= v@.subrange(lo as int, k as int));
        }
    }
    r
}

/// Executable counterpart of [`crate::lines::find_nl`].
pub(crate) fn find_nl_exec(v: &Vec<char>, from: usize) -> (r: usize)
    requires
        from <= v@.len(),
    ensures
        r as int == crate::lines::find_nl(v@, from as int),
        from <= r <= v@.len(),
        r < v@.len() ==> v@[r as int] == '\n',
{
    let mut k = from;
    loop
        invariant
            from <= k <= v@.len(),
            crate::lines::find_nl(v@, from as int) == crate::lines::find_nl(v@, k as int),
        decreases v@.len() - k,
    {
        if k == v.len() {
            return k;
        }
        if v[k] == '\n' {
            return k;
        }
        k = k + 1;
    }
}

/// The characters of `s`, in order, as a vector.
pub(crate) fn str_to_chars(s: &str) -> (v: Vec<char>)
    ensures
        v@ == s@,
{
    let n = s.unicode_len();
    let mut v: Vec<char> = Vec::new();
    let mut k: usize = 0;
    while k < n
        invariant
            k <= n,
            n == s@.len(),
            v@ == s@.subrange(0, k as int),
        decreases n - k,
    {
        v.push(s.get_char(k));
        k = k + 1;
        proof {
            assert(v@ =~= s@.subrange(0, k as int));
        }
    }
    proof {
        assert(v@ =~= s@);
    }
    v
}

/// Do the characters of `a` read exactly `b`?
pub(crate) fn string_eq(a: &String, b: &str) -> (r: bool)
    ensures
        r == (a@ == b@),
{
    let bs = String::from_str(b);
    a.eq(&bs)
}

/// Executable counterpart of [`is_digit`].
pub(crate) fn is_digit_exec(c: char) -> (r: bool)
    ensures
        r == is_digit(c),
{
    let u = c as u32;
    ('0' as u32) <= u && u <= ('9' as u32)
}

/// Executable counterpart of [`is_var_char`].
pub(crate) fn is_var_char_exec(c: char) -> (r: bool)
    ensures
        r == is_var_char(c),
{
    c != '=' && c != ',' && c != '{' && c != '}' && c != '[' && c != ']' && c != '"'
}

/// Executable counterpart of [`scan_digits`].
pub(crate) fn scan_digits_exec(v: &Vec<char>, from: usize) -> (r: usize)
    requires
        from <= v@.len(),
    ensures
        r as int == scan_digits(v@, from as int),
        from <= r <= v@.len(),
    decreases v@.len() - from,
{
    let mut k = from;
    loop
        invariant
            from <= k <= v@.len(),
            scan_digits(v@, from as int) == scan_digits(v@, k as int),
        decreases v@.len() - k,
    {
        if k == v.len() {
            return k;
        }
        if !is_digit_exec(v[k]) {
            return k;
        }
        k = k + 1;
    }
}

/// Executable counterpart of [`scan_var`].
pub(crate) fn scan_var_exec(v: &Vec<char>, from: usize) -> (r: usize)
    requires
        from <= v@.len(),
    ensures
        r as int == scan_var(v@, from as int),
        from <= r <= v@.len(),
    decreases v@.len() - from,
{
    let mut k = from;
    loop
        invariant
            from <= k <= v@.len(),
            scan_var(v@, from as int) == scan_var(v@, k as int),
        decreases v@.len() - k,
    {
        if k == v.len() {
            return k;
        }
        if !is_var_char_exec(v[k]) {
            return k;
        }
        k = k + 1;
    }
}

/// Executable counterpart of [`scan_comma`].
pub(crate) fn scan_comma_exec(v: &Vec<char>, from: usize) -> (r: usize)
    requires
        from <= v@.len(),
    ensures
        r as int == scan_comma(v@, from as int),
        from <= r <= v@.len(),
    decreases v@.len() - from,
{
    let mut k = from;
    loop
        invariant
            from <= k <= v@.len(),
            scan_comma(v@, from as int) == scan_comma(v@, k as int),
        decreases v@.len() - k,
    {
        if k == v.len() {
            return k;
        }
        if v[k] == ',' {
            return k;
        }
        k = k + 1;
    }
}

/// Executable counterpart of [`unescape`].
pub(crate) fn unescape_exec(c: char) -> (r: char)
    ensures
        r == unescape(c),
{
    if c == 'n' {
        '\n'
    } else if c == 't' {
        '\t'
    } else {
        c
    }
}

/// Parses the quoted string whose opening quote is expected at `i`,
/// de-escaping its body, exactly as [`parse_cstring`] describes.
pub(crate) fn parse_cstring_exec(v: &Vec<char>, i: usize) -> (r: Step<String>)
    requires
        i <= v@.len(),
    ensures
        match parse_cstring(v@, i as int) {
            StrParse::Good(t, j) => r matches Step::Good(s, jj) && s@ == t && jj == j,
            StrParse::Bad(c) => r matches Step::Bad(cc) && cc == c,
        },
{
    if i >= v.len() || v[i] != '"' {
        return Step::Bad(i);
    }
    let mut acc = String::new();
    let mut k = i + 1;
    loop
        invariant
            i + 1 <= k <= v@.len(),
            scan_string_body(v@, (i + 1) as int) == (match scan_string_body(v@, k as int) {
                StrParse::Good(t, j) => StrParse::Good(acc@ + t, j),
                StrParse::Bad(c) => StrParse::Bad(c),
            }),
            parse_cstring(v@, i as int) == scan_string_body(v@, (i + 1) as int),
        decreases v@.len() - k,
    {
        if k == v.len() {
            return Step::Bad(v.len());
        }
        let c = v[k];
        if c == '"' {
            proof {
                assert(acc@ + Seq::<char>::empty() =~= acc@);
            }
            return Step::Good(acc, k + 1);
        }
        if c == '\\' {
            if k + 1 == v.len() {
                return Step::Bad(v.len());
            }
            let ghost pre = acc@;
            let d = unescape_exec(v[k + 1]);
            push_char(&mut acc, d);
            proof {
                match scan_string_body(v@, (k + 2) as int) {
                    StrParse::Good(t, j) => {
                        assert(pre + (seq![unescape(v@[k + 1])] + t) =~= acc@ + t);
                    },
                    StrParse::Bad(_c) => {},
                }
            }
            k = k + 2;
        } else {
            let ghost pre = acc@;
            push_char(&mut acc, c);
            proof {
                match scan_string_body(v@, (k + 1) as int) {
                    StrParse::Good(t, j) => {
                        assert(pre + (seq![v@[k as int]] + t) =~= acc@ + t);
                    },
                    StrParse::Bad(_c) => {},
                }
            }
            k = k + 1;
        }
    }
}

} // verus!
