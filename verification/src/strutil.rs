use vstd::prelude::*;

verus! {

/// `p` is a prefix of `s`.
pub open spec fn is_prefix_of(p: Seq<char>, s: Seq<char>) -> bool {
    p.len() <= s.len() && s.take(p.len() as int) == p
}

/// The lines of a vector of strings, as sequences of characters.
pub open spec fn lines_view(v: Seq<String>) -> Seq<Seq<char>> {
    v.map_values(|s: String| s@)
}

/// Whether the characters of `s` start with the characters of `p`.
pub fn starts_with_chars(s: &str, p: &str) -> (r: bool)
    ensures
        r == is_prefix_of(p@, s@),
{
    let s_len = s.unicode_len();
    let p_len = p.unicode_len();
    if p_len > s_len {
        assert(!is_prefix_of(p@, s@));
        return false;
    }
    let mut i: usize = 0;
    while i < p_len
        invariant
            0 <= i <= p_len,
            p_len == p@.len(),
            s_len == s@.len(),
            p_len <= s_len,
            forall|j: int| 0 <= j < i ==> s@[j] == p@[j],
        decreases p_len - i,
    {
        if s.get_char(i) != p.get_char(i) {
            assert(s@.take(p@.len() as int)[i as int] != p@[i as int]);
            return false;
        }
        i += 1;
    }
    assert(s@.take(p@.len() as int) =~= p@);
    true
}

/// The characters of `s` after the prefix `p`, if `p` is indeed a prefix.
pub fn strip_prefix_chars(s: &str, p: &str) -> (r: Option<String>)
    ensures
        r is Some <==> is_prefix_of(p@, s@),
        r matches Some(t) ==> t@ == s@.skip(p@.len() as int),
{
    if starts_with_chars(s, p) {
        let s_len = s.unicode_len();
        let p_len = p.unicode_len();
        let rest = s.substring_char(p_len, s_len);
        assert(s@.subrange(p@.len() as int, s@.len() as int) =~= s@.skip(p@.len() as int));
        Some(String::from_str(rest))
    } else {
        None
    }
}

/// `s` cut down to at most `max` characters.
pub open spec fn take_at_most(s: Seq<char>, max: int) -> Seq<char> {
    if s.len() <= max {
        s
    } else {
        s.take(max)
    }
}

/// The first `max` characters of `s`, or all of `s` if it is shorter.
/// The cut falls between characters, never inside one.
pub fn truncate_chars(s: &str, max: usize) -> (r: String)
    ensures
        r@ == take_at_most(s@, max as int),
{
    let len = s.unicode_len();
    let n = if len <= max {
        len
    } else {
        max
    };
    let cut = s.substring_char(0, n);
    assert(s@.subrange(0, n as int) =~= s@.take(n as int));
    String::from_str(cut)
}

} // verus!
