//! Bridges between `&str` / `String` and `Vec<char>`, and small verified
//! helpers on character vectors. The library's parsing and rendering work on
//! `Vec<char>` so that every step is plain indexed code.

use vstd::prelude::*;

verus! {

/// Relies on `str::chars`: it yields exactly the characters of the string,
/// in order, which is the string's view.
#[verifier::external_body]
pub fn chars_of(s: &str) -> (r: Vec<char>)
    ensures
        r@ == s@,
{
    s.chars().collect()
}

/// Relies on `String`'s `FromIterator<char>`: collecting characters builds
/// the string with exactly those characters, in order.
#[verifier::external_body]
pub fn string_from_chars(v: &Vec<char>) -> (r: String)
    ensures
        r@ == v@,
{
    v.iter().collect()
}

/// Relies on `char::from_u32`: it returns the character with the given
/// code point for every value that is not a surrogate and at most
/// `0x10FFFF`, and `None` otherwise.
#[verifier::external_body]
pub fn char_from_u32(n: u32) -> (r: Option<char>)
    ensures
        r is Some <==> (n < 0xD800 || (0xE000 <= n && n <= 0x10FFFF)),
        r is Some ==> r->Some_0 == n as char,
{
    char::from_u32(n)
}

/// Appends every character of `src` to `dest`, in order.
pub fn append_chars(dest: &mut Vec<char>, src: &Vec<char>)
    ensures
        final(dest)@ == old(dest)@ + src@,
{
    let n = src.len();
    let mut k: usize = 0;
    while k < n
        invariant
            k <= n,
            n == src@.len(),
            dest@ == old(dest)@ + src@.subrange(0, k as int),
        decreases n - k,
    {
        dest.push(src[k]);
        proof {
            assert(src@.subrange(0, k + 1) =~= src@.subrange(0, k as int).push(src@[k as int]));
        }
        k = k + 1;
    }
    proof {
        assert(src@.subrange(0, n as int) =~= src@);
    }
}

/// Appends every character of `s` to `dest`, in order.
pub fn append_str(dest: &mut Vec<char>, s: &str)
    ensures
        final(dest)@ == old(dest)@ + s@,
{
    let cs = chars_of(s);
    append_chars(dest, &cs);
}

/// True exactly when the characters of `v` equal those of `s`.
pub fn chars_eq_str(v: &Vec<char>, s: &str) -> (r: bool)
    ensures
        r <==> v@ == s@,
{
    let n = s.unicode_len();
    if v.len() != n {
        proof {
            assert(v@ != s@) by {
                assert(v@.len() != s@.len());
            }
        }
        return false;
    }
    let mut k: usize = 0;
    while k < n
        invariant
            k <= n,
            n == s@.len(),
            v@.len() == n,
            forall|j: int| 0 <= j < k ==> v@[j] == s@[j],
        decreases n - k,
    {
        if v[k] != s.get_char(k) {
            return false;
        }
        k = k + 1;
    }
    proof {
        assert(v@ =~= s@);
    }
    true
}

} // verus!
