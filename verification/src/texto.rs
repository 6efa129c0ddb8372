//! Text: the characters of a `str`, and `String`s built from characters.
use vstd::prelude::*;
use vstd::std_specs::iter::IteratorSpec;
use vstd::utf8::{
    encode_scalar, encode_utf8, encode_utf8_first_scalar, encode_utf8_valid_utf8, is_char_boundary,
    pop_first_scalar,
};

verus! {

/// `String::push` of std: the text after the call is the text before it with
/// the character at its end.
pub assume_specification[ std::string::String::push ](s: &mut std::string::String, c: char)
    ensures
        final(s)@ == old(s)@.push(c),
;

/// The characters of `s`, in order.
pub fn chars_of(s: &str) -> (r: Vec<char>)
    ensures
        r@ == s@,
{
    let mut out: Vec<char> = Vec::new();
    let mut it = s.chars();
    loop
        invariant
            it.obeys_prophetic_iter_laws(),
            it.decrease() is Some,
            out@ + it.remaining() == s@,
        decreases it.decrease()->0,
    {
        match it.next() {
            Some(c) => {
                out.push(c);
            },
            None => {
                return out;
            },
        }
    }
}

/// The text made of the characters `v[from..to]`.
pub fn string_of(v: &Vec<char>, from: usize, to: usize) -> (r: String)
    requires
        from <= to <= v.len(),
    ensures
        r@ == v@.subrange(from as int, to as int),
{
    let mut out = String::new();
    let mut i: usize = from;
    while i < to
        invariant
            from <= i <= to <= v.len(),
            out@ == v@.subrange(from as int, i as int),
        decreases to - i,
    {
        out.push(v[i]);
        i += 1;
    }
    out
}

/// The number of bytes that the first `k` characters of a text take in
/// UTF-8.
pub open spec fn byte_offset(s: Seq<char>, k: int) -> int {
    encode_utf8(s.subrange(0, k)).len() as int
}

/// Where the first `k` characters of a text end, a character of its UTF-8
/// bytes begins, or the bytes end.
pub proof fn prefix_ends_on_boundary(s: Seq<char>, k: int)
    requires
        0 <= k <= s.len(),
    ensures
        0 <= byte_offset(s, k) <= encode_utf8(s).len(),
        is_char_boundary(encode_utf8(s), byte_offset(s, k)),
    decreases k,
{
    broadcast use encode_utf8_valid_utf8;

    let bytes = encode_utf8(s);
    if k == 0 {
        assert(s.subrange(0, 0) =~= Seq::<char>::empty());
    } else {
        let prefix = s.subrange(0, k);
        encode_utf8_first_scalar(s);
        assert(pop_first_scalar(bytes) =~= encode_utf8(s.drop_first()));
        assert(prefix.drop_first() =~= s.drop_first().subrange(0, k - 1));
        assert(prefix[0] == s[0]);
        prefix_ends_on_boundary(s.drop_first(), k - 1);
        assert(encode_utf8(prefix) == encode_scalar(s[0] as u32) + encode_utf8(prefix.drop_first()));
        assert(encode_scalar(s[0] as u32).len() >= 1);
    }
}

} // verus!
