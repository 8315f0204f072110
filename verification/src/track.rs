use vstd::prelude::*;

use crate::strutil::is_prefix_of;
use crate::strutil::lines_view;
use crate::strutil::starts_with_chars;
use crate::strutil::strip_prefix_chars;
use itertools::Itertools;

verus! {

/// Lexicographic order on character sequences, by code point. Rust
/// orders strings the same way: lexicographically by byte, and UTF-8
/// byte order coincides with code point order.
pub open spec fn str_le(a: Seq<char>, b: Seq<char>) -> bool
    decreases a.len(),
{
    if a.len() == 0 {
        true
    } else if b.len() == 0 {
        false
    } else if a[0] != b[0] {
        (a[0] as int) < (b[0] as int)
    } else {
        str_le(a.drop_first(), b.drop_first())
    }
}

pub open spec fn insert_lex(x: Seq<char>, s: Seq<Seq<char>>) -> Seq<Seq<char>>
    decreases s.len(),
{
    if s.len() == 0 {
        seq![x]
    } else if str_le(x, s[0]) {
        seq![x] + s
    } else {
        seq![s[0]] + insert_lex(x, s.drop_first())
    }
}

/// The sorted arrangement of `s` under `str_le`, by insertion.
pub open spec fn sort_lex(s: Seq<Seq<char>>) -> Seq<Seq<char>>
    decreases s.len(),
{
    if s.len() == 0 {
        Seq::empty()
    } else {
        insert_lex(s[0], sort_lex(s.drop_first()))
    }
}

/// A payload line that names the artist or the title of the playing track.
pub open spec fn is_track_line(l: Seq<char>) -> bool {
    is_prefix_of("Artist:"@, l) || is_prefix_of("Title:"@, l)
}

pub open spec fn drop_one_space(s: Seq<char>) -> Seq<char> {
    if s.len() > 0 && s[0] == ' ' {
        s.drop_first()
    } else {
        s
    }
}

/// The display fragment of a line: the text after the `Artist:` or
/// `Title:` prefix, less the single space that separates it. A line
/// without either prefix stands unchanged.
pub open spec fn stripped_line(l: Seq<char>) -> Seq<char> {
    if is_prefix_of("Artist:"@, l) {
        drop_one_space(l.skip("Artist:"@.len() as int))
    } else if is_prefix_of("Title:"@, l) {
        drop_one_space(l.skip("Title:"@.len() as int))
    } else {
        l
    }
}

/// The payload lines that name the artist or the title, in payload order.
pub open spec fn matched_lines(lines: Seq<Seq<char>>) -> Seq<Seq<char>>
    decreases lines.len(),
{
    if lines.len() == 0 {
        Seq::empty()
    } else {
        (if is_track_line(lines[0]) {
            seq![lines[0]]
        } else {
            Seq::empty()
        }) + matched_lines(lines.drop_first())
    }
}

/// The fragments joined with the given separator, first to last.
pub open spec fn join_sep(fs: Seq<Seq<char>>, sep: Seq<char>) -> Seq<char>
    decreases fs.len(),
{
    if fs.len() == 0 {
        Seq::empty()
    } else if fs.len() == 1 {
        fs[0]
    } else {
        fs[0] + sep + join_sep(fs.drop_first(), sep)
    }
}

/// The track summary a response payload yields: the artist and title
/// lines, arranged in lexicographic order, stripped to their fragments
/// and joined with `" - "`.
pub open spec fn summary_spec(payload: Seq<Seq<char>>) -> Seq<char> {
    join_sep(sort_lex(matched_lines(payload)).map_values(|l: Seq<char>| stripped_line(l)), " - "@)
}

proof fn lemma_matched_snoc(s: Seq<Seq<char>>, l: Seq<char>)
    ensures
        matched_lines(s + seq![l]) == matched_lines(s) + (if is_track_line(l) {
            seq![l]
        } else {
            Seq::<Seq<char>>::empty()
        }),
    decreases s.len(),
{
    let t = s + seq![l];
    if s.len() == 0 {
        assert(t.len() == 1);
        assert(t[0] == l);
        assert(t.drop_first() =~= Seq::<Seq<char>>::empty());
        assert(matched_lines(Seq::<Seq<char>>::empty()) == Seq::<Seq<char>>::empty());
        assert(matched_lines(s) == Seq::<Seq<char>>::empty());
        if is_track_line(l) {
            assert(matched_lines(t) =~= matched_lines(s) + seq![l]);
        } else {
            assert(matched_lines(t) =~= matched_lines(s));
        }
    } else {
        assert(t[0] == s[0]);
        assert(t.drop_first() =~= s.drop_first() + seq![l]);
        lemma_matched_snoc(s.drop_first(), l);
        assert(matched_lines(t) == (if is_track_line(s[0]) {
            seq![s[0]]
        } else {
            Seq::<Seq<char>>::empty()
        }) + matched_lines(s.drop_first() + seq![l]));
        assert(matched_lines(s + seq![l]) =~= matched_lines(s) + (if is_track_line(l) {
            seq![l]
        } else {
            Seq::<Seq<char>>::empty()
        }));
    }
}

/// Relies on itertools::Itertools::sorted: it collects the elements and
/// sorts them by `Ord`. Strings order lexicographically, equal strings
/// are indistinguishable, and a sorted arrangement of given elements is
/// unique, so the result is what insertion sort under `str_le` yields.
#[verifier::external_body]
fn sorted_strings(v: &Vec<String>) -> (r: Vec<String>)
    ensures
        lines_view(r@) == sort_lex(lines_view(v@)),
{
    v.iter().cloned().sorted().collect()
}

/// Relies on itertools::Itertools::join: every element shown by
/// `Display` (a string shows as its own characters), with `sep` between
/// each pair of neighbours.
#[verifier::external_body]
fn join_with(v: &Vec<String>, sep: &str) -> (r: String)
    ensures
        r@ == join_sep(lines_view(v@), sep@),
{
    v.iter().join(sep)
}

/// The fragment a single line shows: the text after its `Artist:` or
/// `Title:` prefix, less one separating space.
fn stripped_string(line: &String) -> (r: String)
    ensures
        r@ == stripped_line(line@),
{
    let stripped = match strip_prefix_chars(line.as_str(), "Artist:") {
        Some(rest) => rest,
        None => {
            match strip_prefix_chars(line.as_str(), "Title:") {
                Some(rest) => rest,
                None => {
                    return line.clone();
                },
            }
        },
    };
    let len = stripped.as_str().unicode_len();
    if len > 0 && stripped.as_str().get_char(0) == ' ' {
        let cut = stripped.as_str().substring_char(1, len);
        proof {
            assert(stripped@.subrange(1, stripped@.len() as int) =~= stripped@.drop_first());
        }
        String::from_str(cut)
    } else {
        stripped
    }
}

/// Build the track summary of a response payload.
pub fn track_summary(payload: &Vec<String>) -> (r: String)
    ensures
        r@ == summary_spec(lines_view(payload@)),
{
    let ghost all = lines_view(payload@);
    proof {
        assert(all.len() == payload@.len());
        assert(forall|j: int| 0 <= j < payload@.len() ==> all[j] == #[trigger] payload@[j]@);
    }
    let mut matched: Vec<String> = Vec::new();
    let mut i: usize = 0;
    while i < payload.len()
        invariant
            0 <= i <= payload@.len(),
            all == lines_view(payload@),
            all.len() == payload@.len(),
            forall|j: int| 0 <= j < payload@.len() ==> all[j] == #[trigger] payload@[j]@,
            lines_view(matched@) == matched_lines(all.take(i as int)),
        decreases payload@.len() - i,
    {
        let line = &payload[i];
        let ghost before = matched@;
        if starts_with_chars(line.as_str(), "Artist:") || starts_with_chars(
            line.as_str(),
            "Title:",
        ) {
            matched.push(line.clone());
        }
        proof {
            assert(all.take(i + 1) =~= all.take(i as int) + seq![all[i as int]]);
            lemma_matched_snoc(all.take(i as int), all[i as int]);
            if is_track_line(all[i as int]) {
                assert(matched@ == before.push(payload@[i as int]));
                assert forall|j: int| 0 <= j < matched@.len() implies lines_view(matched@)[j]
                    == (lines_view(before) + seq![all[i as int]])[j] by {
                    assert(lines_view(matched@)[j] == matched@[j]@);
                    if j < before.len() {
                        assert(lines_view(before)[j] == before[j]@);
                    }
                }
                assert(lines_view(matched@) =~= lines_view(before) + seq![all[i as int]]);
                assert(matched_lines(all.take(i + 1)) =~= matched_lines(all.take(i as int))
                    + seq![all[i as int]]);
            } else {
                assert(matched_lines(all.take(i + 1)) =~= matched_lines(all.take(i as int)));
            }
        }
        i += 1;
    }
    proof {
        assert(all.take(payload@.len() as int) =~= all);
    }
    let sorted = sorted_strings(&matched);
    let mut frags: Vec<String> = Vec::new();
    let mut k: usize = 0;
    while k < sorted.len()
        invariant
            0 <= k <= sorted@.len(),
            frags@.len() == k,
            forall|j: int| 0 <= j < k ==> #[trigger] frags@[j]@ == stripped_line(sorted@[j]@),
        decreases sorted@.len() - k,
    {
        let f = stripped_string(&sorted[k]);
        frags.push(f);
        k += 1;
    }
    proof {
        let target = sort_lex(matched_lines(all)).map_values(|l: Seq<char>| stripped_line(l));
        assert(lines_view(sorted@) == sort_lex(matched_lines(all)));
        assert forall|j: int| 0 <= j < frags@.len() implies lines_view(frags@)[j] == target[j] by {
            assert(lines_view(frags@)[j] == frags@[j]@);
            assert(lines_view(sorted@)[j] == sorted@[j]@);
        }
        assert(lines_view(frags@).len() == frags@.len());
        assert(lines_view(sorted@).len() == sorted@.len());
        assert(lines_view(frags@) =~= target);
    }
    join_with(&frags, " - ")
}

} // verus!
