//! JSON texts: which texts are well formed, and indenting them anew.
//!
//! The grammar is that of RFC 8259. A position is an index into the
//! characters of a text; each `.._end` function gives the position just
//! behind what it reads, where the text holds such a thing at the position
//! asked for.

use vstd::prelude::*;

verus! {

/// Blank, tab, line feed or carriage return.
pub open spec fn is_ws(c: char) -> bool {
    c == ' ' || c == '\t' || c == '\n' || c == '\r'
}

/// `0` to `9`.
pub open spec fn is_digit(c: char) -> bool {
    '0' as int <= c as int <= '9' as int
}

/// A digit or one of the letters `a` to `f`, small or capital.
pub open spec fn is_hex(c: char) -> bool {
    ||| is_digit(c)
    ||| 'a' as int <= c as int <= 'f' as int
    ||| 'A' as int <= c as int <= 'F' as int
}

/// A character that may follow a backslash by itself.
pub open spec fn is_escape(c: char) -> bool {
    c == '"' || c == '\\' || c == '/' || c == 'b' || c == 'f' || c == 'n' || c == 'r' || c == 't'
}

/// The position behind the white space that starts at `i`.
pub open spec fn ws_end(s: Seq<char>, i: int) -> int
    decreases s.len() - i,
{
    if 0 <= i < s.len() && is_ws(s[i]) {
        ws_end(s, i + 1)
    } else {
        i
    }
}

/// The position behind the digits that start at `i`.
pub open spec fn digits_end(s: Seq<char>, i: int) -> int
    decreases s.len() - i,
{
    if 0 <= i < s.len() && is_digit(s[i]) {
        digits_end(s, i + 1)
    } else {
        i
    }
}

/// The integer part of a number: `0`, or a digit other than `0` and any
/// digits behind it.
pub open spec fn int_end(s: Seq<char>, i: int) -> Option<int> {
    if 0 <= i < s.len() && is_digit(s[i]) {
        if s[i] == '0' {
            Some(i + 1)
        } else {
            Some(digits_end(s, i + 1))
        }
    } else {
        None
    }
}

/// The fraction of a number, which may be missing: `.` and at least one
/// digit.
pub open spec fn frac_end(s: Seq<char>, i: int) -> Option<int> {
    if 0 <= i < s.len() && s[i] == '.' {
        if i + 1 < s.len() && is_digit(s[i + 1]) {
            Some(digits_end(s, i + 2))
        } else {
            None
        }
    } else {
        Some(i)
    }
}

/// The exponent of a number, which may be missing: `e` or `E`, a sign or
/// none, and at least one digit.
pub open spec fn exp_end(s: Seq<char>, i: int) -> Option<int> {
    if 0 <= i < s.len() && (s[i] == 'e' || s[i] == 'E') {
        let j = if i + 1 < s.len() && (s[i + 1] == '+' || s[i + 1] == '-') {
            i + 2
        } else {
            i + 1
        };
        if j < s.len() && is_digit(s[j]) {
            Some(digits_end(s, j + 1))
        } else {
            None
        }
    } else {
        Some(i)
    }
}

/// A number: a minus sign or none, the integer part, the fraction or none,
/// the exponent or none.
pub open spec fn number_end(s: Seq<char>, i: int) -> Option<int> {
    let j = if 0 <= i < s.len() && s[i] == '-' {
        i + 1
    } else {
        i
    };
    match int_end(s, j) {
        None => None,
        Some(k) => match frac_end(s, k) {
            None => None,
            Some(m) => exp_end(s, m),
        },
    }
}

/// The rest of a string whose opening quote stands just before `i`: any
/// characters from U+0020 on other than the quote and the backslash, a
/// backslash with one of `"\/bfnrt`, a backslash with `u` and four
/// hexadecimal digits; then the closing quote.
pub open spec fn string_end(s: Seq<char>, i: int) -> Option<int>
    decreases s.len() - i,
{
    if !(0 <= i < s.len()) {
        None
    } else if s[i] == '"' {
        Some(i + 1)
    } else if s[i] == '\\' {
        if i + 1 < s.len() && is_escape(s[i + 1]) {
            string_end(s, i + 2)
        } else if i + 5 < s.len() && s[i + 1] == 'u' && is_hex(s[i + 2]) && is_hex(s[i + 3])
            && is_hex(s[i + 4]) && is_hex(s[i + 5]) {
            string_end(s, i + 6)
        } else {
            None
        }
    } else if s[i] as int >= 0x20 {
        string_end(s, i + 1)
    } else {
        None
    }
}

/// The word `word`, letter for letter.
pub open spec fn word_end(s: Seq<char>, i: int, word: Seq<char>) -> Option<int> {
    if 0 <= i && i + word.len() <= s.len() && (forall|k: int|
        0 <= k < word.len() ==> s[i + k] == word[k]) {
        Some(i + word.len())
    } else {
        None
    }
}

/// A value: an object, an array, a string, one of the words `true`, `false`
/// and `null`, or a number.
pub open spec fn value_end(s: Seq<char>, i: int) -> Option<int>
    decreases s.len() - i, 1int,
{
    if !(0 <= i < s.len()) {
        None
    } else if s[i] == '{' {
        let j = ws_end(s, i + 1);
        if !(i < j <= s.len()) {
            None
        } else if j < s.len() && s[j] == '}' {
            Some(j + 1)
        } else {
            members_end(s, j)
        }
    } else if s[i] == '[' {
        let j = ws_end(s, i + 1);
        if !(i < j <= s.len()) {
            None
        } else if j < s.len() && s[j] == ']' {
            Some(j + 1)
        } else {
            elements_end(s, j)
        }
    } else if s[i] == '"' {
        string_end(s, i + 1)
    } else if s[i] == 't' {
        word_end(s, i, seq!['t', 'r', 'u', 'e'])
    } else if s[i] == 'f' {
        word_end(s, i, seq!['f', 'a', 'l', 's', 'e'])
    } else if s[i] == 'n' {
        word_end(s, i, seq!['n', 'u', 'l', 'l'])
    } else {
        number_end(s, i)
    }
}

/// The elements of an array of which the first starts at `i`, up to and
/// with the closing bracket: values with a comma between each two, and white
/// space wherever it pleases but inside a value.
pub open spec fn elements_end(s: Seq<char>, i: int) -> Option<int>
    decreases s.len() - i, 2int,
{
    if !(0 <= i < s.len()) {
        None
    } else {
        match value_end(s, i) {
            None => None,
            Some(j) => {
                let k = ws_end(s, j);
                if !(i < k < s.len()) {
                    None
                } else if s[k] == ']' {
                    Some(k + 1)
                } else if s[k] == ',' {
                    let m = ws_end(s, k + 1);
                    if i < m <= s.len() {
                        elements_end(s, m)
                    } else {
                        None
                    }
                } else {
                    None
                }
            },
        }
    }
}

/// The members of an object of which the first starts at `i`, up to and with
/// the closing brace: each a string, a colon and a value, with a comma
/// between each two, and white space wherever it pleases but inside a string
/// or a value.
pub open spec fn members_end(s: Seq<char>, i: int) -> Option<int>
    decreases s.len() - i, 2int,
{
    if !(0 <= i < s.len()) || s[i] != '"' {
        None
    } else {
        match string_end(s, i + 1) {
            None => None,
            Some(j) => {
                let c = ws_end(s, j);
                if !(i < c < s.len()) || s[c] != ':' {
                    None
                } else {
                    let v = ws_end(s, c + 1);
                    if !(i < v <= s.len()) {
                        None
                    } else {
                        match value_end(s, v) {
                            None => None,
                            Some(e) => {
                                let k = ws_end(s, e);
                                if !(i < k < s.len()) {
                                    None
                                } else if s[k] == '}' {
                                    Some(k + 1)
                                } else if s[k] == ',' {
                                    let m = ws_end(s, k + 1);
                                    if i < m <= s.len() {
                                        members_end(s, m)
                                    } else {
                                        None
                                    }
                                } else {
                                    None
                                }
                            },
                        }
                    }
                }
            },
        }
    }
}

/// `s` is a JSON text: one value, with nothing but white space before and
/// behind it.
pub open spec fn well_formed_json(s: Seq<char>) -> bool {
    match value_end(s, ws_end(s, 0)) {
        Some(j) => ws_end(s, j) == s.len(),
        None => false,
    }
}

/// White space ends at or behind the place where it starts, within the
/// text.
pub proof fn lemma_ws_end_bounds(s: Seq<char>, i: int)
    requires
        0 <= i <= s.len(),
    ensures
        i <= ws_end(s, i) <= s.len(),
    decreases s.len() - i,
{
    if i < s.len() && is_ws(s[i]) {
        lemma_ws_end_bounds(s, i + 1);
    }
}

/// Digits end at or behind the place where they start, within the text.
pub proof fn lemma_digits_end_bounds(s: Seq<char>, i: int)
    requires
        0 <= i <= s.len(),
    ensures
        i <= digits_end(s, i) <= s.len(),
    decreases s.len() - i,
{
    if i < s.len() && is_digit(s[i]) {
        lemma_digits_end_bounds(s, i + 1);
    }
}

/// A number ends behind the place where it starts, within the text.
pub proof fn lemma_number_end_bounds(s: Seq<char>, i: int)
    requires
        0 <= i <= s.len(),
    ensures
        number_end(s, i) matches Some(j) ==> i < j <= s.len(),
{
    let j = if i < s.len() && s[i] == '-' {
        i + 1
    } else {
        i
    };
    if int_end(s, j) is Some {
        lemma_digits_end_bounds(s, j + 1);
        let k = int_end(s, j)->Some_0;
        if frac_end(s, k) is Some {
            if k + 1 < s.len() {
                lemma_digits_end_bounds(s, k + 2);
            }
            let m = frac_end(s, k)->Some_0;
            if exp_end(s, m) is Some && m < s.len() {
                if m + 2 < s.len() {
                    lemma_digits_end_bounds(s, m + 3);
                }
                if m + 1 < s.len() {
                    lemma_digits_end_bounds(s, m + 2);
                }
            }
        }
    }
}

/// A string ends behind the place where it starts, within the text.
pub proof fn lemma_string_end_bounds(s: Seq<char>, i: int)
    requires
        0 <= i <= s.len(),
    ensures
        string_end(s, i) matches Some(j) ==> i < j <= s.len(),
    decreases s.len() - i,
{
    if i < s.len() && s[i] != '"' {
        if s[i] == '\\' {
            if i + 1 < s.len() && is_escape(s[i + 1]) {
                lemma_string_end_bounds(s, i + 2);
            } else if i + 5 < s.len() {
                lemma_string_end_bounds(s, i + 6);
            }
        } else {
            lemma_string_end_bounds(s, i + 1);
        }
    }
}

/// A value ends behind the place where it starts, within the text; so do
/// the elements of an array and the members of an object. The comparisons of
/// places in the definitions of the three therefore turn nothing down: they
/// are there to show that the definitions end.
pub proof fn lemma_value_end_bounds(s: Seq<char>, i: int)
    requires
        0 <= i <= s.len(),
    ensures
        value_end(s, i) matches Some(j) ==> i < j <= s.len(),
        elements_end(s, i) matches Some(j) ==> i < j <= s.len(),
        members_end(s, i) matches Some(j) ==> i < j <= s.len(),
    decreases s.len() - i,
{
    if i < s.len() {
        lemma_ws_end_bounds(s, i + 1);
        lemma_string_end_bounds(s, i + 1);
        lemma_number_end_bounds(s, i);
        if value_end(s, i) is Some && (s[i] == '{' || s[i] == '[') {
            lemma_value_end_bounds(s, ws_end(s, i + 1));
        }
        if elements_end(s, i) is Some {
            let j = value_end(s, i)->Some_0;
            let k = ws_end(s, j);
            if s[k] == ',' {
                lemma_value_end_bounds(s, ws_end(s, k + 1));
            }
        }
        if members_end(s, i) is Some {
            let j = string_end(s, i + 1)->Some_0;
            let c = ws_end(s, j);
            let v = ws_end(s, c + 1);
            lemma_value_end_bounds(s, v);
            let e = value_end(s, v)->Some_0;
            let k = ws_end(s, e);
            if s[k] == ',' {
                lemma_value_end_bounds(s, ws_end(s, k + 1));
            }
        }
    }
}

/// A JSON text holds at least one character that is no white space.
pub proof fn lemma_well_formed_is_not_blank(s: Seq<char>)
    requires
        well_formed_json(s),
    ensures
        ws_end(s, 0) < s.len(),
{
}

fn ws_char(c: char) -> (b: bool)
    ensures
        b == is_ws(c),
{
    c == ' ' || c == '\t' || c == '\n' || c == '\r'
}

fn digit_char(c: char) -> (b: bool)
    ensures
        b == is_digit(c),
{
    let n = c as u32;
    48 <= n && n <= 57
}

fn hex_char(c: char) -> (b: bool)
    ensures
        b == is_hex(c),
{
    let n = c as u32;
    (48 <= n && n <= 57) || (97 <= n && n <= 102) || (65 <= n && n <= 70)
}

fn escape_char(c: char) -> (b: bool)
    ensures
        b == is_escape(c),
{
    c == '"' || c == '\\' || c == '/' || c == 'b' || c == 'f' || c == 'n' || c == 'r' || c == 't'
}

fn printable_char(c: char) -> (b: bool)
    ensures
        b == (c as int >= 0x20),
{
    let n = c as u32;
    n >= 0x20
}

fn skip_ws(s: &Vec<char>, i: usize) -> (j: usize)
    requires
        i <= s.len(),
    ensures
        j == ws_end(s@, i as int),
        i <= j <= s.len(),
{
    let mut j = i;
    while j < s.len() && ws_char(s[j])
        invariant
            i <= j <= s.len(),
            ws_end(s@, i as int) == ws_end(s@, j as int),
        decreases s.len() - j,
    {
        j += 1;
    }
    j
}

fn skip_digits(s: &Vec<char>, i: usize) -> (j: usize)
    requires
        i <= s.len(),
    ensures
        j == digits_end(s@, i as int),
        i <= j <= s.len(),
{
    let mut j = i;
    while j < s.len() && digit_char(s[j])
        invariant
            i <= j <= s.len(),
            digits_end(s@, i as int) == digits_end(s@, j as int),
        decreases s.len() - j,
    {
        j += 1;
    }
    j
}

fn read_number(s: &Vec<char>, i: usize) -> (r: Option<usize>)
    requires
        i < s.len(),
    ensures
        match r {
            Some(j) => number_end(s@, i as int) == Some(j as int) && i < j <= s.len(),
            None => number_end(s@, i as int) is None,
        },
{
    let n = s.len();
    let j = if s[i] == '-' {
        i + 1
    } else {
        i
    };
    if !(j < n && digit_char(s[j])) {
        return None;
    }
    let k = if s[j] == '0' {
        j + 1
    } else {
        skip_digits(s, j + 1)
    };
    let m = if k < n && s[k] == '.' {
        if n - k > 1 && digit_char(s[k + 1]) {
            skip_digits(s, k + 2)
        } else {
            return None;
        }
    } else {
        k
    };
    if m < n && (s[m] == 'e' || s[m] == 'E') {
        let d = if n - m > 1 && (s[m + 1] == '+' || s[m + 1] == '-') {
            m + 2
        } else {
            m + 1
        };
        if d < n && digit_char(s[d]) {
            Some(skip_digits(s, d + 1))
        } else {
            None
        }
    } else {
        Some(m)
    }
}

fn read_string(s: &Vec<char>, start: usize) -> (r: Option<usize>)
    requires
        start <= s.len(),
    ensures
        match r {
            Some(j) => string_end(s@, start as int) == Some(j as int) && start < j <= s.len(),
            None => string_end(s@, start as int) is None,
        },
{
    let n = s.len();
    let mut i = start;
    loop
        invariant
            n == s.len(),
            start <= i <= n,
            string_end(s@, start as int) == string_end(s@, i as int),
        decreases n - i,
    {
        if i >= n {
            return None;
        }
        let c = s[i];
        if c == '"' {
            return Some(i + 1);
        } else if c == '\\' {
            if n - i > 1 && escape_char(s[i + 1]) {
                i += 2;
            } else if n - i > 5 && s[i + 1] == 'u' && hex_char(s[i + 2]) && hex_char(s[i + 3])
                && hex_char(s[i + 4]) && hex_char(s[i + 5]) {
                i += 6;
            } else {
                return None;
            }
        } else if printable_char(c) {
            i += 1;
        } else {
            return None;
        }
    }
}

fn read_value(s: &Vec<char>, i: usize) -> (r: Option<usize>)
    requires
        i <= s.len(),
    ensures
        match r {
            Some(j) => value_end(s@, i as int) == Some(j as int) && i < j <= s.len(),
            None => value_end(s@, i as int) is None,
        },
    decreases s.len() - i, 1int,
{
    let n = s.len();
    if i >= n {
        return None;
    }
    let c = s[i];
    if c == '{' {
        let j = skip_ws(s, i + 1);
        if j < n && s[j] == '}' {
            Some(j + 1)
        } else {
            read_members(s, j)
        }
    } else if c == '[' {
        let j = skip_ws(s, i + 1);
        if j < n && s[j] == ']' {
            Some(j + 1)
        } else {
            read_elements(s, j)
        }
    } else if c == '"' {
        read_string(s, i + 1)
    } else if c == 't' {
        if n - i >= 4 && s[i + 1] == 'r' && s[i + 2] == 'u' && s[i + 3] == 'e' {
            Some(i + 4)
        } else {
            proof {
                let w = seq!['t', 'r', 'u', 'e'];
                if i + 4 <= n {
                    assert(s@[i + 1] == w[1] && s@[i + 2] == w[2] && s@[i + 3] == w[3] ==> false);
                }
            }
            None
        }
    } else if c == 'f' {
        if n - i >= 5 && s[i + 1] == 'a' && s[i + 2] == 'l' && s[i + 3] == 's' && s[i + 4] == 'e' {
            Some(i + 5)
        } else {
            proof {
                let w = seq!['f', 'a', 'l', 's', 'e'];
                if i + 5 <= n {
                    assert(s@[i + 1] == w[1] && s@[i + 2] == w[2] && s@[i + 3] == w[3] && s@[i
                        + 4] == w[4] ==> false);
                }
            }
            None
        }
    } else if c == 'n' {
        if n - i >= 4 && s[i + 1] == 'u' && s[i + 2] == 'l' && s[i + 3] == 'l' {
            Some(i + 4)
        } else {
            proof {
                let w = seq!['n', 'u', 'l', 'l'];
                if i + 4 <= n {
                    assert(s@[i + 1] == w[1] && s@[i + 2] == w[2] && s@[i + 3] == w[3] ==> false);
                }
            }
            None
        }
    } else {
        read_number(s, i)
    }
}

fn read_elements(s: &Vec<char>, start: usize) -> (r: Option<usize>)
    requires
        start <= s.len(),
    ensures
        match r {
            Some(j) => elements_end(s@, start as int) == Some(j as int) && start < j <= s.len(),
            None => elements_end(s@, start as int) is None,
        },
    decreases s.len() - start, 2int,
{
    let n = s.len();
    let mut i = start;
    loop
        invariant
            n == s.len(),
            start <= i <= n,
            elements_end(s@, start as int) == elements_end(s@, i as int),
        decreases n - i,
    {
        if i >= n {
            return None;
        }
        match read_value(s, i) {
            None => {
                return None;
            },
            Some(j) => {
                let k = skip_ws(s, j);
                if k >= n {
                    return None;
                }
                if s[k] == ']' {
                    return Some(k + 1);
                } else if s[k] == ',' {
                    i = skip_ws(s, k + 1);
                } else {
                    return None;
                }
            },
        }
    }
}

fn read_members(s: &Vec<char>, start: usize) -> (r: Option<usize>)
    requires
        start <= s.len(),
    ensures
        match r {
            Some(j) => members_end(s@, start as int) == Some(j as int) && start < j <= s.len(),
            None => members_end(s@, start as int) is None,
        },
    decreases s.len() - start, 2int,
{
    let n = s.len();
    let mut i = start;
    loop
        invariant
            n == s.len(),
            start <= i <= n,
            members_end(s@, start as int) == members_end(s@, i as int),
        decreases n - i,
    {
        if i >= n || s[i] != '"' {
            return None;
        }
        let j = match read_string(s, i + 1) {
            None => {
                return None;
            },
            Some(j) => j,
        };
        let c = skip_ws(s, j);
        if c >= n || s[c] != ':' {
            return None;
        }
        let v = skip_ws(s, c + 1);
        match read_value(s, v) {
            None => {
                return None;
            },
            Some(e) => {
                let k = skip_ws(s, e);
                if k >= n {
                    return None;
                }
                if s[k] == '}' {
                    return Some(k + 1);
                } else if s[k] == ',' {
                    i = skip_ws(s, k + 1);
                } else {
                    return None;
                }
            },
        }
    }
}

/// The characters of `text`, one by one.
fn chars_of(text: &str) -> (v: Vec<char>)
    ensures
        v@ == text@,
{
    let mut v: Vec<char> = Vec::new();
    for c in it: text.chars()
        invariant
            it.seq() == text@,
            v@ == text@.take(it.index() as int),
    {
        v.push(c);
        assert(text@.take(it.index() + 1) =~= text@.take(it.index() as int).push(c));
    }
    assert(text@.take(text@.len() as int) =~= text@);
    v
}

/// Says whether `text` is a JSON text.
pub fn is_json(text: &str) -> (ok: bool)
    ensures
        ok == well_formed_json(text@),
{
    let s = chars_of(text);
    let i = skip_ws(&s, 0);
    match read_value(&s, i) {
        None => false,
        Some(j) => skip_ws(&s, j) == s.len(),
    }
}

/// What `jsonxf::pretty_print` makes of `text`: the text indented anew, or
/// the pretty-printer's complaint.
pub uninterp spec fn pretty_printed(text: Seq<char>) -> Result<Seq<char>, Seq<char>>;

/// Calls `jsonxf::pretty_print` on `text`.
///
/// Trusted: the outcome depends on the characters of `text` alone, so it is
/// given the name [`pretty_printed`]. The pretty-printer promises output for
/// valid input; its code gives an error only where reading, writing or the
/// encoding of its output fails, and none of these can happen to a text held
/// in memory. So it is claimed that a well-formed text is not turned down.
/// Nothing is claimed about how it indents.
#[verifier::external_body]
pub(crate) fn pretty_json(text: &str) -> (r: Result<String, String>)
    ensures
        match r {
            Ok(p) => pretty_printed(text@) == Ok::<Seq<char>, Seq<char>>(p@),
            Err(e) => pretty_printed(text@) == Err::<Seq<char>, Seq<char>>(e@),
        },
        well_formed_json(text@) ==> r is Ok,
{
    jsonxf::pretty_print(text)
}

} // verus!
