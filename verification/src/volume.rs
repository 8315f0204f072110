use vstd::prelude::*;

use crate::digits::all_digits;
use crate::digits::dec_rep;
use crate::digits::digit_of;
use crate::digits::digits_val;
use crate::digits::is_digit_char;
use crate::digits::lemma_dec_rep_digits;
use crate::digits::lemma_dec_rep_roundtrip;
use crate::digits::lemma_digits_val_snoc;
use crate::strutil::is_prefix_of;
use crate::strutil::strip_prefix_chars;

verus! {

/// The volume a payload line reports: the number after `volume: `, when
/// the whole rest of the line is decimal digits and the value lies in
/// 0..=100. Anything else reports no volume.
pub open spec fn parse_volume_line_spec(l: Seq<char>) -> Option<int> {
    if is_prefix_of("volume: "@, l) {
        let rest = l.skip("volume: "@.len() as int);
        if rest.len() > 0 && all_digits(rest) && digits_val(rest) <= 100 {
            Some(digits_val(rest))
        } else {
            None
        }
    } else {
        None
    }
}

/// The volume a response payload reports: what its first line reports.
pub open spec fn parse_volume_payload_spec(payload: Seq<Seq<char>>) -> Option<int> {
    if payload.len() > 0 {
        parse_volume_line_spec(payload[0])
    } else {
        None
    }
}

/// Read the volume out of one payload line.
pub fn parse_volume_line(line: &str) -> (r: Option<i32>)
    ensures
        r is Some <==> parse_volume_line_spec(line@) is Some,
        r matches Some(v) ==> parse_volume_line_spec(line@) == Some(v as int),
{
    let rest = match strip_prefix_chars(line, "volume: ") {
        Some(rest) => rest,
        None => {
            return None;
        },
    };
    let ghost digits = line@.skip("volume: "@.len() as int);
    let n = rest.as_str().unicode_len();
    if n == 0 {
        return None;
    }
    let mut acc: u32 = 0;
    let mut too_big: bool = false;
    let mut i: usize = 0;
    while i < n
        invariant
            0 <= i <= n,
            n == digits.len(),
            n >= 1,
            rest@ == digits,
            is_prefix_of("volume: "@, line@),
            digits == line@.skip("volume: "@.len() as int),
            forall|j: int| 0 <= j < i ==> is_digit_char(#[trigger] digits[j]),
            !too_big ==> acc as int == digits_val(digits.take(i as int)) && acc <= 100,
            too_big ==> digits_val(digits.take(i as int)) > 100,
        decreases n - i,
    {
        let c = rest.as_str().get_char(i);
        let d = digit_of(c);
        if d == 10 {
            proof {
                assert(!is_digit_char(digits[i as int]));
                assert(!all_digits(digits));
            }
            return None;
        }
        proof {
            assert(digits.take(i + 1) =~= digits.take(i as int) + seq![digits[i as int]]);
            lemma_digits_val_snoc(digits.take(i as int), digits[i as int]);
        }
        if too_big {
            proof {
                let prev = digits_val(digits.take(i as int));
                assert(prev * 10 > 100) by (nonlinear_arith)
                    requires
                        prev > 100,
                ;
            }
        } else {
            let next = acc * 10 + d;
            if next > 100 {
                too_big = true;
            } else {
                acc = next;
            }
        }
        i += 1;
    }
    proof {
        assert(digits.take(n as int) =~= digits);
    }
    if too_big {
        None
    } else {
        Some(acc as i32)
    }
}

/// Read the volume out of a response payload.
pub fn parse_volume_payload(payload: &Vec<String>) -> (r: Option<i32>)
    ensures
        r is Some <==> parse_volume_payload_spec(crate::strutil::lines_view(payload@)) is Some,
        r matches Some(v) ==> parse_volume_payload_spec(crate::strutil::lines_view(payload@))
            == Some(v as int),
{
    if payload.len() > 0 {
        proof {
            assert(crate::strutil::lines_view(payload@)[0] == payload@[0]@);
        }
        parse_volume_line(payload[0].as_str())
    } else {
        None
    }
}

/// The line a compliant server reports its volume with.
pub open spec fn volume_report(v: int) -> Seq<char> {
    "volume: "@ + dec_rep(v)
}

/// A reported volume reads back as exactly the value it renders: the
/// textual round trip through `volume: <n>` loses nothing for any
/// volume in 0..=100.
pub proof fn lemma_volume_roundtrip(v: int)
    requires
        0 <= v <= 100,
    ensures
        parse_volume_payload_spec(seq![volume_report(v)]) == Some(v),
{
    lemma_dec_rep_digits(v);
    lemma_dec_rep_roundtrip(v);
    let l = volume_report(v);
    assert(l.take("volume: "@.len() as int) =~= "volume: "@);
    assert(is_prefix_of("volume: "@, l));
    assert(l.skip("volume: "@.len() as int) =~= dec_rep(v));
    assert(seq![volume_report(v)][0] == l);
}

} // verus!
