//! Reading a configuration file: a JSON object whose members set the
//! configuration's fields.
//!
//! The file is one JSON object (RFC 8259), with white space allowed around
//! every token. Each member sets one field: `command`, `cwd` and `log_file`
//! take a string; `args` an array of strings; `env` an array of two-string
//! arrays; `restart_delay` a non-negative integer that fits in a `u64`;
//! `max_restarts` `null` or a non-negative integer that fits in a `u32`;
//! `enable_logging` `true` or `false`. Fields the file does not name keep
//! their values, a field named twice takes its last value, and any other
//! member, value or trailing text makes the whole file invalid. Strings take
//! the JSON escapes, `\uXXXX` ones included (a surrogate pair stands for one
//! character; a lone surrogate is invalid).
use vstd::prelude::*;
use crate::config::{Config, ConfigView, pairs_view, strings_view};
use crate::text::{chars_of, digits_end, digits_value, is_digit, read_digits};
use vstd::string::StringExecFns;

verus! {

/// `char::from_u32`: the character with this code, when there is one.
pub assume_specification[ char::from_u32 ](i: u32) -> (r: Option<char>)
    ensures
        r is Some <==> (i <= 0x10FFFF && !(0xD800 <= i && i <= 0xDFFF)),
        r matches Some(c) ==> c as u32 == i,
;

// ---------------------------------------------------------------------------
// The grammar, as spec functions on the text's characters. Each parser takes
// the position to start at and gives the value read and the position after
// it, or `None` when the text does not fit.
// ---------------------------------------------------------------------------

/// JSON white space.
pub open spec fn is_json_ws(c: char) -> bool {
    c == ' ' || c == '\t' || c == '\n' || c == '\r'
}

/// The first position at or after `i` that is not white space.
pub open spec fn skip_ws(s: Seq<char>, i: int) -> int
    decreases s.len() - i,
{
    if 0 <= i < s.len() && is_json_ws(s[i]) {
        skip_ws(s, i + 1)
    } else {
        i
    }
}

/// The value of a hexadecimal digit.
pub open spec fn hex_digit(c: char) -> Option<nat> {
    if '0' <= c && c <= '9' {
        Some((c as int - '0' as int) as nat)
    } else if 'a' <= c && c <= 'f' {
        Some((c as int - 'a' as int + 10) as nat)
    } else if 'A' <= c && c <= 'F' {
        Some((c as int - 'A' as int + 10) as nat)
    } else {
        None
    }
}

/// The value of the four hexadecimal digits at `i`.
pub open spec fn hex4(s: Seq<char>, i: int) -> Option<nat> {
    if 0 <= i && i + 4 <= s.len() {
        match (hex_digit(s[i]), hex_digit(s[i + 1]), hex_digit(s[i + 2]), hex_digit(s[i + 3])) {
            (Some(a), Some(b), Some(c), Some(d)) => Some(a * 4096 + b * 256 + c * 16 + d),
            _ => None,
        }
    } else {
        None
    }
}

/// A high surrogate code.
pub open spec fn is_high_surrogate(h: nat) -> bool {
    0xD800 <= h && h <= 0xDBFF
}

/// A low surrogate code.
pub open spec fn is_low_surrogate(h: nat) -> bool {
    0xDC00 <= h && h <= 0xDFFF
}

/// The escape that starts with the backslash at `i`: the character it
/// stands for and the position after it.
pub open spec fn escape(s: Seq<char>, i: int) -> Option<(char, int)> {
    if i < 0 || i + 1 >= s.len() {
        None
    } else {
        let e = s[i + 1];
        if e == '"' {
            Some(('"', i + 2))
        } else if e == '\\' {
            Some(('\\', i + 2))
        } else if e == '/' {
            Some(('/', i + 2))
        } else if e == 'b' {
            Some(('\x08', i + 2))
        } else if e == 'f' {
            Some(('\x0c', i + 2))
        } else if e == 'n' {
            Some(('\n', i + 2))
        } else if e == 'r' {
            Some(('\r', i + 2))
        } else if e == 't' {
            Some(('\t', i + 2))
        } else if e == 'u' {
            match hex4(s, i + 2) {
                Some(h) => {
                    if is_high_surrogate(h) {
                        if i + 7 < s.len() && s[i + 6] == '\\' && s[i + 7] == 'u' {
                            match hex4(s, i + 8) {
                                Some(l) => {
                                    if is_low_surrogate(l) {
                                        let code = 0x10000 + (h - 0xD800) * 0x400 + (l - 0xDC00);
                                        Some(((code as u32) as char, i + 12))
                                    } else {
                                        None
                                    }
                                },
                                None => None,
                            }
                        } else {
                            None
                        }
                    } else if is_low_surrogate(h) {
                        None
                    } else {
                        Some(((h as u32) as char, i + 6))
                    }
                },
                None => None,
            }
        } else {
            None
        }
    }
}

/// The rest of a string from `i` (after its opening quote) to its closing
/// quote: the characters it stands for and the position after the quote.
pub open spec fn string_from(s: Seq<char>, i: int) -> Option<(Seq<char>, int)>
    decreases s.len() - i,
{
    if i < 0 || i >= s.len() {
        None
    } else if s[i] == '"' {
        Some((seq![], i + 1))
    } else if s[i] == '\\' {
        match escape(s, i) {
            Some((c, j)) => {
                if i < j {
                    match string_from(s, j) {
                        Some((r, k)) => Some((seq![c] + r, k)),
                        None => None,
                    }
                } else {
                    None
                }
            },
            None => None,
        }
    } else if (s[i] as u32) < 0x20 {
        None
    } else {
        match string_from(s, i + 1) {
            Some((r, k)) => Some((seq![s[i]] + r, k)),
            None => None,
        }
    }
}

/// A string starting at `i`.
pub open spec fn parse_string(s: Seq<char>, i: int) -> Option<(Seq<char>, int)> {
    if 0 <= i < s.len() && s[i] == '"' {
        string_from(s, i + 1)
    } else {
        None
    }
}

/// A non-negative JSON integer no larger than `max` starting at `i`: `0`, or
/// a digit other than `0` followed by digits.
pub open spec fn parse_uint(s: Seq<char>, i: int, max: nat) -> Option<(nat, int)> {
    if 0 <= i < s.len() && s[i] == '0' {
        Some((0, i + 1))
    } else if 0 <= i < s.len() && is_digit(s[i]) {
        let e = digits_end(s, i);
        let v = digits_value(s.subrange(i, e));
        if v <= max {
            Some((v, e))
        } else {
            None
        }
    } else {
        None
    }
}

/// Whether `word` stands at `i`.
pub open spec fn word_at(s: Seq<char>, i: int, word: Seq<char>) -> bool {
    0 <= i && i + word.len() <= s.len() && s.subrange(i, i + word.len()) == word
}

/// The elements of an array of strings from the first element at `i`: the
/// strings and the position after the closing bracket.
pub open spec fn strings_from(s: Seq<char>, i: int) -> Option<(Seq<Seq<char>>, int)>
    decreases s.len() - i,
{
    match parse_string(s, i) {
        Some((v, k)) => {
            let k2 = skip_ws(s, k);
            if 0 <= k2 < s.len() && s[k2] == ',' {
                let n = skip_ws(s, k2 + 1);
                if i < n && n <= s.len() {
                    match strings_from(s, n) {
                        Some((rest, e)) => Some((seq![v] + rest, e)),
                        None => None,
                    }
                } else {
                    None
                }
            } else if 0 <= k2 < s.len() && s[k2] == ']' {
                Some((seq![v], k2 + 1))
            } else {
                None
            }
        },
        None => None,
    }
}

/// An array of strings starting at `i`.
pub open spec fn parse_string_array(s: Seq<char>, i: int) -> Option<(Seq<Seq<char>>, int)> {
    if 0 <= i < s.len() && s[i] == '[' {
        let j = skip_ws(s, i + 1);
        if 0 <= j < s.len() && s[j] == ']' {
            Some((seq![], j + 1))
        } else {
            strings_from(s, j)
        }
    } else {
        None
    }
}

/// A two-string array (a name and a value) starting at `i`.
pub open spec fn parse_pair(s: Seq<char>, i: int) -> Option<((Seq<char>, Seq<char>), int)> {
    if 0 <= i < s.len() && s[i] == '[' {
        match parse_string(s, skip_ws(s, i + 1)) {
            Some((x, k)) => {
                let k2 = skip_ws(s, k);
                if 0 <= k2 < s.len() && s[k2] == ',' {
                    match parse_string(s, skip_ws(s, k2 + 1)) {
                        Some((y, m)) => {
                            let m2 = skip_ws(s, m);
                            if 0 <= m2 < s.len() && s[m2] == ']' {
                                Some(((x, y), m2 + 1))
                            } else {
                                None
                            }
                        },
                        None => None,
                    }
                } else {
                    None
                }
            },
            None => None,
        }
    } else {
        None
    }
}

/// The elements of an array of pairs from the first element at `i`.
pub open spec fn pairs_from(s: Seq<char>, i: int) -> Option<(Seq<(Seq<char>, Seq<char>)>, int)>
    decreases s.len() - i,
{
    match parse_pair(s, i) {
        Some((p, k)) => {
            let k2 = skip_ws(s, k);
            if 0 <= k2 < s.len() && s[k2] == ',' {
                let n = skip_ws(s, k2 + 1);
                if i < n && n <= s.len() {
                    match pairs_from(s, n) {
                        Some((rest, e)) => Some((seq![p] + rest, e)),
                        None => None,
                    }
                } else {
                    None
                }
            } else if 0 <= k2 < s.len() && s[k2] == ']' {
                Some((seq![p], k2 + 1))
            } else {
                None
            }
        },
        None => None,
    }
}

/// An array of pairs starting at `i`.
pub open spec fn parse_pair_array(s: Seq<char>, i: int) -> Option<(Seq<(Seq<char>, Seq<char>)>, int)> {
    if 0 <= i < s.len() && s[i] == '[' {
        let j = skip_ws(s, i + 1);
        if 0 <= j < s.len() && s[j] == ']' {
            Some((seq![], j + 1))
        } else {
            pairs_from(s, j)
        }
    } else {
        None
    }
}

/// The value of the member named `name`, starting at `j`, applied to `c`.
pub open spec fn member_value(s: Seq<char>, j: int, name: Seq<char>, c: ConfigView) -> Option<
    (ConfigView, int),
> {
    if name == "command"@ {
        match parse_string(s, j) {
            Some((v, e)) => Some((ConfigView { command: v, ..c }, e)),
            None => None,
        }
    } else if name == "args"@ {
        match parse_string_array(s, j) {
            Some((v, e)) => Some((ConfigView { args: v, ..c }, e)),
            None => None,
        }
    } else if name == "cwd"@ {
        match parse_string(s, j) {
            Some((v, e)) => Some((ConfigView { cwd: v, ..c }, e)),
            None => None,
        }
    } else if name == "log_file"@ {
        match parse_string(s, j) {
            Some((v, e)) => Some((ConfigView { log_file: v, ..c }, e)),
            None => None,
        }
    } else if name == "restart_delay"@ {
        match parse_uint(s, j, u64::MAX as nat) {
            Some((v, e)) => Some((ConfigView { restart_delay: v as u64, ..c }, e)),
            None => None,
        }
    } else if name == "max_restarts"@ {
        if word_at(s, j, "null"@) {
            Some((ConfigView { max_restarts: None, ..c }, j + 4))
        } else {
            match parse_uint(s, j, u32::MAX as nat) {
                Some((v, e)) => Some((ConfigView { max_restarts: Some(v as u32), ..c }, e)),
                None => None,
            }
        }
    } else if name == "enable_logging"@ {
        if word_at(s, j, "true"@) {
            Some((ConfigView { enable_logging: true, ..c }, j + 4))
        } else if word_at(s, j, "false"@) {
            Some((ConfigView { enable_logging: false, ..c }, j + 5))
        } else {
            None
        }
    } else if name == "env"@ {
        match parse_pair_array(s, j) {
            Some((v, e)) => Some((ConfigView { env: v, ..c }, e)),
            None => None,
        }
    } else {
        None
    }
}

/// One member (`"name": value`) starting at `i`, applied to `c`.
pub open spec fn parse_member(s: Seq<char>, i: int, c: ConfigView) -> Option<(ConfigView, int)> {
    match parse_string(s, i) {
        Some((name, k)) => {
            let k2 = skip_ws(s, k);
            if 0 <= k2 < s.len() && s[k2] == ':' {
                member_value(s, skip_ws(s, k2 + 1), name, c)
            } else {
                None
            }
        },
        None => None,
    }
}

/// The members of the object from the first member at `i`, applied to `c`
/// in order, and the position after the closing brace.
pub open spec fn members_from(s: Seq<char>, i: int, c: ConfigView) -> Option<(ConfigView, int)>
    decreases s.len() - i,
{
    match parse_member(s, i, c) {
        Some((c2, k)) => {
            let k2 = skip_ws(s, k);
            if 0 <= k2 < s.len() && s[k2] == ',' {
                let n = skip_ws(s, k2 + 1);
                if i < n && n <= s.len() {
                    members_from(s, n, c2)
                } else {
                    None
                }
            } else if 0 <= k2 < s.len() && s[k2] == '}' {
                Some((c2, k2 + 1))
            } else {
                None
            }
        },
        None => None,
    }
}

/// The configuration that the file text `s` makes of `c`, or `None` when the
/// text is not a valid configuration file.
pub open spec fn decode_config(s: Seq<char>, c: ConfigView) -> Option<ConfigView> {
    let i = skip_ws(s, 0);
    if 0 <= i < s.len() && s[i] == '{' {
        let j = skip_ws(s, i + 1);
        let body = if 0 <= j < s.len() && s[j] == '}' {
            Some((c, j + 1))
        } else {
            members_from(s, j, c)
        };
        match body {
            Some((c2, e)) => {
                if skip_ws(s, e) == s.len() {
                    Some(c2)
                } else {
                    None
                }
            },
            None => None,
        }
    } else {
        None
    }
}

// ---------------------------------------------------------------------------
// The reader, proved to follow the grammar.
// ---------------------------------------------------------------------------

fn is_ws_char(c: char) -> (r: bool)
    ensures
        r == is_json_ws(c),
{
    c == ' ' || c == '\t' || c == '\n' || c == '\r'
}

fn skip_ws_at(v: &Vec<char>, i: usize) -> (r: usize)
    requires
        i <= v.len(),
    ensures
        r as int == skip_ws(v@, i as int),
        i <= r <= v.len(),
{
    let mut j = i;
    while j < v.len() && is_ws_char(v[j])
        invariant
            i <= j <= v.len(),
            skip_ws(v@, i as int) == skip_ws(v@, j as int),
        decreases v.len() - j,
    {
        j = j + 1;
    }
    j
}

fn hex_digit_of(c: char) -> (r: Option<u32>)
    ensures
        match hex_digit(c) {
            Some(d) => r == Some(d as u32),
            None => r is None,
        },
{
    if '0' <= c && c <= '9' {
        Some(c as u32 - '0' as u32)
    } else if 'a' <= c && c <= 'f' {
        Some(c as u32 - 'a' as u32 + 10)
    } else if 'A' <= c && c <= 'F' {
        Some(c as u32 - 'A' as u32 + 10)
    } else {
        None
    }
}

fn hex4_at(v: &Vec<char>, i: usize) -> (r: Option<u32>)
    requires
        i <= v.len(),
    ensures
        match hex4(v@, i as int) {
            Some(h) => r == Some(h as u32) && h <= 0xFFFF,
            None => r is None,
        },
{
    if v.len() - i < 4 {
        return None;
    }
    match (hex_digit_of(v[i]), hex_digit_of(v[i + 1]), hex_digit_of(v[i + 2]), hex_digit_of(v[i + 3])) {
        (Some(a), Some(b), Some(c), Some(d)) => {
            assert(a < 16 && b < 16 && c < 16 && d < 16);
            Some(a * 4096 + b * 256 + c * 16 + d)
        },
        _ => None,
    }
}

fn escape_at(v: &Vec<char>, i: usize) -> (r: Option<(char, usize)>)
    requires
        i < v.len(),
    ensures
        match escape(v@, i as int) {
            Some((c, j)) => r == Some((c, j as usize)) && i < j <= v.len(),
            None => r is None,
        },
{
    if v.len() - i < 2 {
        return None;
    }
    let e = v[i + 1];
    if e == '"' {
        Some(('"', i + 2))
    } else if e == '\\' {
        Some(('\\', i + 2))
    } else if e == '/' {
        Some(('/', i + 2))
    } else if e == 'b' {
        Some(('\x08', i + 2))
    } else if e == 'f' {
        Some(('\x0c', i + 2))
    } else if e == 'n' {
        Some(('\n', i + 2))
    } else if e == 'r' {
        Some(('\r', i + 2))
    } else if e == 't' {
        Some(('\t', i + 2))
    } else if e == 'u' {
        match hex4_at(v, i + 2) {
            Some(h) => {
                if 0xD800 <= h && h <= 0xDBFF {
                    if v.len() - i > 7 && v[i + 6] == '\\' && v[i + 7] == 'u' {
                        match hex4_at(v, i + 8) {
                            Some(l) => {
                                if 0xDC00 <= l && l <= 0xDFFF {
                                    let code: u32 = 0x10000 + (h - 0xD800) * 0x400 + (l - 0xDC00);
                                    match char::from_u32(code) {
                                        Some(c) => {
                                            proof {
                                                vstd::utf8::char_u32_cast(c, code);
                                            }
                                            Some((c, i + 12))
                                        },
                                        None => None,
                                    }
                                } else {
                                    None
                                }
                            },
                            None => None,
                        }
                    } else {
                        None
                    }
                } else if 0xDC00 <= h && h <= 0xDFFF {
                    None
                } else {
                    match char::from_u32(h) {
                        Some(c) => {
                            proof {
                                vstd::utf8::char_u32_cast(c, h);
                            }
                            Some((c, i + 6))
                        },
                        None => None,
                    }
                }
            },
            None => None,
        }
    } else {
        None
    }
}

/// `acc` before what a parser read.
pub open spec fn prefixed(acc: Seq<char>, r: Option<(Seq<char>, int)>) -> Option<(Seq<char>, int)> {
    match r {
        Some((t, k)) => Some((acc + t, k)),
        None => None,
    }
}

fn string_at(v: &Vec<char>, i: usize) -> (r: Option<(String, usize)>)
    requires
        i <= v.len(),
    ensures
        match parse_string(v@, i as int) {
            Some((t, k)) => r matches Some((x, j)) && x@ == t && j == k && i < j <= v.len(),
            None => r is None,
        },
{
    if i >= v.len() || v[i] != '"' {
        return None;
    }
    let mut acc = String::new();
    let mut j = i + 1;
    assert(prefixed(acc@, string_from(v@, j as int)) =~= string_from(v@, j as int)) by {
        match string_from(v@, j as int) {
            Some((t, k)) => {
                assert(acc@ + t =~= t);
            },
            None => {},
        }
    }
    while j < v.len()
        invariant
            i < j <= v.len(),
            parse_string(v@, i as int) == prefixed(acc@, string_from(v@, j as int)),
        decreases v.len() - j,
    {
        let c = v[j];
        if c == '"' {
            assert(acc@ + seq![] =~= acc@);
            return Some((acc, j + 1));
        }
        let ghost before = acc@;
        let next: usize;
        if c == '\\' {
            match escape_at(v, j) {
                Some((ch, k)) => {
                    acc.push(ch);
                    next = k;
                    proof {
                        match string_from(v@, k as int) {
                            Some((t, m)) => {
                                assert(before + (seq![ch] + t) =~= acc@ + t);
                            },
                            None => {},
                        }
                    }
                },
                None => {
                    return None;
                },
            }
        } else if (c as u32) < 0x20 {
            return None;
        } else {
            acc.push(c);
            next = j + 1;
            proof {
                match string_from(v@, j + 1) {
                    Some((t, m)) => {
                        assert(before + (seq![c] + t) =~= acc@ + t);
                    },
                    None => {},
                }
            }
        }
        j = next;
    }
    None
}

fn uint_at(v: &Vec<char>, i: usize, max: u64) -> (r: Option<(u64, usize)>)
    requires
        i <= v.len(),
    ensures
        match parse_uint(v@, i as int, max as nat) {
            Some((n, k)) => r == Some((n as u64, k as usize)) && i < k <= v.len(),
            None => r is None,
        },
{
    if i < v.len() && v[i] == '0' {
        return Some((0, i + 1));
    }
    if !(i < v.len() && '0' <= v[i] && v[i] <= '9') {
        return None;
    }
    let (end, value) = read_digits(v, i, max);
    match value {
        Some(n) => Some((n, end)),
        None => None,
    }
}

fn word_at_exec(v: &Vec<char>, i: usize, word: &str) -> (r: bool)
    requires
        i <= v.len(),
    ensures
        r == word_at(v@, i as int, word@),
{
    let w = chars_of(word);
    if v.len() - i < w.len() {
        return false;
    }
    let mut k: usize = 0;
    while k < w.len()
        invariant
            w@ == word@,
            i + w.len() <= v.len(),
            k <= w.len(),
            v@.subrange(i as int, i + k) =~= w@.take(k as int),
        decreases w.len() - k,
    {
        if v[i + k] != w[k] {
            assert(v@.subrange(i as int, i + w.len())[k as int] != w@[k as int]);
            return false;
        }
        assert(v@.subrange(i as int, i + k + 1) =~= w@.take(k + 1));
        k = k + 1;
    }
    assert(w@.take(w.len() as int) =~= w@);
    true
}

fn strings_from_at(v: &Vec<char>, i: usize) -> (r: Option<(Vec<String>, usize)>)
    requires
        i <= v.len(),
    ensures
        match strings_from(v@, i as int) {
            Some((t, k)) => r matches Some((x, j)) && strings_view(x@) == t && j == k && i < j
                <= v.len(),
            None => r is None,
        },
    decreases v.len() - i,
{
    match string_at(v, i) {
        None => None,
        Some((val, k)) => {
            let k2 = skip_ws_at(v, k);
            if k2 < v.len() && v[k2] == ',' {
                let n = skip_ws_at(v, k2 + 1);
                match strings_from_at(v, n) {
                    Some((rest, e)) => {
                        let mut out: Vec<String> = Vec::new();
                        let ghost vv = val@;
                        out.push(val);
                        let mut rest = rest;
                        let ghost rv = rest@;
                        out.append(&mut rest);
                        assert(strings_view(out@) =~= seq![vv] + strings_view(rv));
                        Some((out, e))
                    },
                    None => None,
                }
            } else if k2 < v.len() && v[k2] == ']' {
                let mut out: Vec<String> = Vec::new();
                let ghost vv = val@;
                out.push(val);
                assert(strings_view(out@) =~= seq![vv]);
                Some((out, k2 + 1))
            } else {
                None
            }
        },
    }
}

fn string_array_at(v: &Vec<char>, i: usize) -> (r: Option<(Vec<String>, usize)>)
    requires
        i <= v.len(),
    ensures
        match parse_string_array(v@, i as int) {
            Some((t, k)) => r matches Some((x, j)) && strings_view(x@) == t && j == k && i < j
                <= v.len(),
            None => r is None,
        },
{
    if !(i < v.len() && v[i] == '[') {
        return None;
    }
    let j = skip_ws_at(v, i + 1);
    if j < v.len() && v[j] == ']' {
        let out: Vec<String> = Vec::new();
        assert(strings_view(out@) =~= Seq::<Seq<char>>::empty());
        return Some((out, j + 1));
    }
    strings_from_at(v, j)
}

fn pair_at(v: &Vec<char>, i: usize) -> (r: Option<((String, String), usize)>)
    requires
        i <= v.len(),
    ensures
        match parse_pair(v@, i as int) {
            Some((t, k)) => r matches Some((x, j)) && x.0@ == t.0 && x.1@ == t.1 && j == k && i
                < j <= v.len(),
            None => r is None,
        },
{
    if !(i < v.len() && v[i] == '[') {
        return None;
    }
    let a = skip_ws_at(v, i + 1);
    match string_at(v, a) {
        None => None,
        Some((x, k)) => {
            let k2 = skip_ws_at(v, k);
            if !(k2 < v.len() && v[k2] == ',') {
                return None;
            }
            let b = skip_ws_at(v, k2 + 1);
            match string_at(v, b) {
                None => None,
                Some((y, m)) => {
                    let m2 = skip_ws_at(v, m);
                    if m2 < v.len() && v[m2] == ']' {
                        Some(((x, y), m2 + 1))
                    } else {
                        None
                    }
                },
            }
        },
    }
}

fn pairs_from_at(v: &Vec<char>, i: usize) -> (r: Option<(Vec<(String, String)>, usize)>)
    requires
        i <= v.len(),
    ensures
        match pairs_from(v@, i as int) {
            Some((t, k)) => r matches Some((x, j)) && pairs_view(x@) == t && j == k && i < j
                <= v.len(),
            None => r is None,
        },
    decreases v.len() - i,
{
    match pair_at(v, i) {
        None => None,
        Some((p, k)) => {
            let k2 = skip_ws_at(v, k);
            let ghost pv = (p.0@, p.1@);
            if k2 < v.len() && v[k2] == ',' {
                let n = skip_ws_at(v, k2 + 1);
                match pairs_from_at(v, n) {
                    Some((rest, e)) => {
                        let mut out: Vec<(String, String)> = Vec::new();
                        out.push(p);
                        let mut rest = rest;
                        let ghost rv = rest@;
                        out.append(&mut rest);
                        assert(pairs_view(out@) =~= seq![pv] + pairs_view(rv));
                        Some((out, e))
                    },
                    None => None,
                }
            } else if k2 < v.len() && v[k2] == ']' {
                let mut out: Vec<(String, String)> = Vec::new();
                out.push(p);
                assert(pairs_view(out@) =~= seq![pv]);
                Some((out, k2 + 1))
            } else {
                None
            }
        },
    }
}

fn pair_array_at(v: &Vec<char>, i: usize) -> (r: Option<(Vec<(String, String)>, usize)>)
    requires
        i <= v.len(),
    ensures
        match parse_pair_array(v@, i as int) {
            Some((t, k)) => r matches Some((x, j)) && pairs_view(x@) == t && j == k && i < j
                <= v.len(),
            None => r is None,
        },
{
    if !(i < v.len() && v[i] == '[') {
        return None;
    }
    let j = skip_ws_at(v, i + 1);
    if j < v.len() && v[j] == ']' {
        let out: Vec<(String, String)> = Vec::new();
        assert(pairs_view(out@) =~= Seq::<(Seq<char>, Seq<char>)>::empty());
        return Some((out, j + 1));
    }
    pairs_from_at(v, j)
}

fn is_name(name: &String, word: &str) -> (r: bool)
    ensures
        r == (name@ == word@),
{
    *name == String::from_str(word)
}

fn member_value_at(v: &Vec<char>, j: usize, name: &String, c: Config) -> (r: Option<(Config, usize)>)
    requires
        j <= v.len(),
    ensures
        match member_value(v@, j as int, name@, c@) {
            Some((t, k)) => r matches Some((x, e)) && x@ == t && e == k && j < e <= v.len(),
            None => r is None,
        },
{
    let mut c = c;
    if is_name(name, "command") {
        match string_at(v, j) {
            Some((x, e)) => {
                c.command = x;
                Some((c, e))
            },
            None => None,
        }
    } else if is_name(name, "args") {
        match string_array_at(v, j) {
            Some((x, e)) => {
                c.args = x;
                Some((c, e))
            },
            None => None,
        }
    } else if is_name(name, "cwd") {
        match string_at(v, j) {
            Some((x, e)) => {
                c.cwd = x;
                Some((c, e))
            },
            None => None,
        }
    } else if is_name(name, "log_file") {
        match string_at(v, j) {
            Some((x, e)) => {
                c.log_file = x;
                Some((c, e))
            },
            None => None,
        }
    } else if is_name(name, "restart_delay") {
        match uint_at(v, j, u64::MAX) {
            Some((x, e)) => {
                c.restart_delay = x;
                Some((c, e))
            },
            None => None,
        }
    } else if is_name(name, "max_restarts") {
        if word_at_exec(v, j, "null") {
            proof {
                reveal_strlit("null");
            }
            c.max_restarts = None;
            Some((c, j + 4))
        } else {
            match uint_at(v, j, u32::MAX as u64) {
                Some((x, e)) => {
                    c.max_restarts = Some(x as u32);
                    Some((c, e))
                },
                None => None,
            }
        }
    } else if is_name(name, "enable_logging") {
        if word_at_exec(v, j, "true") {
            proof {
                reveal_strlit("true");
            }
            c.enable_logging = true;
            Some((c, j + 4))
        } else if word_at_exec(v, j, "false") {
            proof {
                reveal_strlit("false");
            }
            c.enable_logging = false;
            Some((c, j + 5))
        } else {
            None
        }
    } else if is_name(name, "env") {
        match pair_array_at(v, j) {
            Some((x, e)) => {
                c.env = x;
                Some((c, e))
            },
            None => None,
        }
    } else {
        None
    }
}

fn member_at(v: &Vec<char>, i: usize, c: Config) -> (r: Option<(Config, usize)>)
    requires
        i <= v.len(),
    ensures
        match parse_member(v@, i as int, c@) {
            Some((t, k)) => r matches Some((x, e)) && x@ == t && e == k && i < e <= v.len(),
            None => r is None,
        },
{
    match string_at(v, i) {
        None => None,
        Some((name, k)) => {
            let k2 = skip_ws_at(v, k);
            if k2 < v.len() && v[k2] == ':' {
                let j = skip_ws_at(v, k2 + 1);
                member_value_at(v, j, &name, c)
            } else {
                None
            }
        },
    }
}

fn members_from_at(v: &Vec<char>, i: usize, c: Config) -> (r: Option<(Config, usize)>)
    requires
        i <= v.len(),
    ensures
        match members_from(v@, i as int, c@) {
            Some((t, k)) => r matches Some((x, e)) && x@ == t && e == k && i < e <= v.len(),
            None => r is None,
        },
    decreases v.len() - i,
{
    match member_at(v, i, c) {
        None => None,
        Some((c2, k)) => {
            let k2 = skip_ws_at(v, k);
            if k2 < v.len() && v[k2] == ',' {
                let n = skip_ws_at(v, k2 + 1);
                members_from_at(v, n, c2)
            } else if k2 < v.len() && v[k2] == '}' {
                Some((c2, k2 + 1))
            } else {
                None
            }
        },
    }
}

/// Applies the configuration file `text` to `c`: the fields it sets replace
/// those of `c`. Gives `None` when the text is not a valid configuration
/// file.
pub fn apply_config_file(text: &str, c: Config) -> (r: Option<Config>)
    ensures
        match decode_config(text@, c@) {
            Some(t) => r matches Some(x) && x@ == t,
            None => r is None,
        },
{
    let v = chars_of(text);
    let i = skip_ws_at(&v, 0);
    if !(i < v.len() && v[i] == '{') {
        return None;
    }
    let j = skip_ws_at(&v, i + 1);
    let body = if j < v.len() && v[j] == '}' {
        Some((c, j + 1))
    } else {
        members_from_at(&v, j, c)
    };
    match body {
        Some((c2, e)) => {
            if skip_ws_at(&v, e) == v.len() {
                Some(c2)
            } else {
                None
            }
        },
        None => None,
    }
}

} // verus!
