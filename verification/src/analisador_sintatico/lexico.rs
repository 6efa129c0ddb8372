//! Reading the characters of a text: blanks, comments, numbers, names and
//! text literals.
use crate::analisador_sintatico::gramatica::{
    at, blank, block_rest, digits, is_blank, is_digit, is_name_char, is_name_start, line_rest,
    name_rest, number_len, text_rest,
};
use vstd::prelude::*;

verus! {

/// Whether `c` is a blank.
pub fn blank_char(c: char) -> (r: bool)
    ensures
        r == is_blank(c),
{
    c == ' ' || c == '\t' || c == '\n' || c == '\r'
}

/// Whether `c` is a digit.
pub fn digit_char(c: char) -> (r: bool)
    ensures
        r == is_digit(c),
{
    '0' <= c && c <= '9'
}

/// Whether a name may start with `c`.
pub fn name_start_char(c: char) -> (r: bool)
    ensures
        r == is_name_start(c),
{
    ('a' <= c && c <= 'z') || ('A' <= c && c <= 'Z') || c == '_'
}

/// Whether a name may go on with `c`.
pub fn name_char(c: char) -> (r: bool)
    ensures
        r == is_name_char(c),
{
    name_start_char(c) || digit_char(c)
}

/// Whether the character `c` stands at `i`.
pub fn char_at(s: &Vec<char>, i: usize, c: char) -> (r: bool)
    ensures
        r == at(s@, i as nat, c),
{
    i < s.len() && s[i] == c
}

/// The place where the line that holds `i` ends.
pub fn line_end(s: &Vec<char>, i: usize) -> (r: usize)
    requires
        i <= s.len(),
    ensures
        r == i + line_rest(s@, i as nat),
        r <= s.len(),
{
    let mut p: usize = i;
    while p < s.len() && s[p] != '\n'
        invariant
            i <= p <= s.len(),
            i + line_rest(s@, i as nat) == p + line_rest(s@, p as nat),
        decreases s.len() - p,
    {
        p += 1;
    }
    p
}

/// The place after the first `*/` from `i` on, if there is one.
pub fn block_end(s: &Vec<char>, i: usize) -> (r: Option<usize>)
    requires
        i <= s.len(),
    ensures
        match r {
            Some(e) => i < e <= s.len() && block_rest(s@, i as nat) == Some((e - i) as nat),
            None => block_rest(s@, i as nat) is None,
        },
{
    let mut p: usize = i;
    while p < s.len() && p + 1 < s.len()
        invariant
            i <= p <= s.len(),
            block_rest(s@, i as nat) == match block_rest(s@, p as nat) {
                Some(n) => Some((n + (p - i)) as nat),
                None => None,
            },
        decreases s.len() - p,
    {
        if s[p] == '*' && s[p + 1] == '/' {
            return Some(p + 2);
        }
        p += 1;
    }
    None
}

/// The place after the blanks and comments that stand at `i`.
pub fn skip(s: &Vec<char>, i: usize) -> (r: usize)
    requires
        i <= s.len(),
    ensures
        r == i + blank(s@, i as nat),
        i <= r <= s.len(),
{
    let mut p: usize = i;
    loop
        invariant
            i <= p <= s.len(),
            i + blank(s@, i as nat) == p + blank(s@, p as nat),
        decreases s.len() - p,
    {
        if p >= s.len() {
            return p;
        }
        if blank_char(s[p]) {
            p += 1;
        } else if s[p] == '/' && char_at(s, p + 1, '/') {
            p = line_end(s, p + 2);
        } else if s[p] == '/' && char_at(s, p + 1, '*') {
            match block_end(s, p + 2) {
                Some(e) => {
                    p = e;
                },
                None => {
                    return p;
                },
            }
        } else {
            return p;
        }
    }
}

/// The place after the digits that stand at `i`.
pub fn scan_digits(s: &Vec<char>, i: usize) -> (r: usize)
    requires
        i <= s.len(),
    ensures
        r == i + digits(s@, i as nat),
        r <= s.len(),
{
    let mut p: usize = i;
    while p < s.len() && digit_char(s[p])
        invariant
            i <= p <= s.len(),
            i + digits(s@, i as nat) == p + digits(s@, p as nat),
        decreases s.len() - p,
    {
        p += 1;
    }
    p
}

/// The place after the number that stands at `i`.
pub fn scan_number(s: &Vec<char>, i: usize) -> (r: usize)
    requires
        i <= s.len(),
    ensures
        r == i + number_len(s@, i as nat),
        r <= s.len(),
{
    let whole = scan_digits(s, i);
    if char_at(s, whole, '.') {
        let fraction = scan_digits(s, whole + 1);
        if fraction > whole + 1 {
            return fraction;
        }
    }
    whole
}

/// The place after the characters of a name that stand at `i`.
pub fn scan_name(s: &Vec<char>, i: usize) -> (r: usize)
    requires
        i <= s.len(),
    ensures
        r == i + name_rest(s@, i as nat),
        r <= s.len(),
{
    let mut p: usize = i;
    while p < s.len() && name_char(s[p])
        invariant
            i <= p <= s.len(),
            i + name_rest(s@, i as nat) == p + name_rest(s@, p as nat),
        decreases s.len() - p,
    {
        p += 1;
    }
    p
}

/// The place after the next quote from `i` on, if there is one.
pub fn scan_text(s: &Vec<char>, i: usize) -> (r: Option<usize>)
    requires
        i <= s.len(),
    ensures
        match r {
            Some(e) => i < e <= s.len() && text_rest(s@, i as nat) == Some((e - i) as nat),
            None => text_rest(s@, i as nat) is None,
        },
{
    let mut p: usize = i;
    while p < s.len()
        invariant
            i <= p <= s.len(),
            text_rest(s@, i as nat) == match text_rest(s@, p as nat) {
                Some(n) => Some((n + (p - i)) as nat),
                None => None,
            },
        decreases s.len() - p,
    {
        if s[p] == '"' {
            return Some(p + 1);
        }
        p += 1;
    }
    None
}

} // verus!
