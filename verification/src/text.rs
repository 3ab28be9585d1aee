//! Text helpers shared by the parsers: comparison, whitespace and
//! prefixes, each stated over `Seq<char>`.

use vstd::prelude::*;
use vstd::std_specs::iter::IteratorSpec;
use vstd::string::{StrSliceExecFns, StringSliceAdditionalSpecFns};

verus! {

/// Whether two string slices hold the same text.
pub fn str_eq(a: &str, b: &str) -> (same: bool)
    ensures
        same == (a@ == b@),
{
    let x = a.as_bytes();
    let y = b.as_bytes();
    if x.len() != y.len() {
        return false;
    }
    let mut i: usize = 0;
    while i < x.len()
        invariant
            x.len() == y.len(),
            i <= x.len(),
            x@ == a.spec_bytes(),
            y@ == b.spec_bytes(),
            forall|j: int| 0 <= j < i ==> x@[j] == y@[j],
        decreases x.len() - i,
    {
        if x[i] != y[i] {
            return false;
        }
        i += 1;
    }
    proof {
        assert(x@ =~= y@);
        vstd::utf8::encode_utf8_decode_utf8(a@);
        vstd::utf8::encode_utf8_decode_utf8(b@);
    }
    true
}

/// The characters that carry the Unicode property `White_Space`.
pub open spec fn is_whitespace(c: char) -> bool {
    let n = c as u32;
    ||| 0x09 <= n <= 0x0d
    ||| n == 0x20
    ||| n == 0x85
    ||| n == 0xa0
    ||| n == 0x1680
    ||| 0x2000 <= n <= 0x200a
    ||| n == 0x2028
    ||| n == 0x2029
    ||| n == 0x202f
    ||| n == 0x205f
    ||| n == 0x3000
}

/// Whether a character is whitespace.
pub fn char_is_whitespace(c: char) -> (r: bool)
    ensures
        r == is_whitespace(c),
{
    let n: u32 = c as u32;
    (0x09 <= n && n <= 0x0d) || n == 0x20 || n == 0x85 || n == 0xa0 || n == 0x1680 || (0x2000 <= n
        && n <= 0x200a) || n == 0x2028 || n == 0x2029 || n == 0x202f || n == 0x205f || n == 0x3000
}

/// A text is blank when nothing is left of it after trimming.
pub open spec fn is_blank(s: Seq<char>) -> bool {
    forall|i: int| 0 <= i < s.len() ==> is_whitespace(#[trigger] s[i])
}

/// The text without its trailing whitespace.
pub open spec fn trim_end_spec(s: Seq<char>) -> Seq<char>
    decreases s.len(),
{
    if s.len() > 0 && is_whitespace(s.last()) {
        trim_end_spec(s.drop_last())
    } else {
        s
    }
}

/// Trimming cuts the text after its last character that is no whitespace.
pub proof fn lemma_trim_end_cut(s: Seq<char>, end: int)
    requires
        0 <= end <= s.len(),
        forall|i: int| end <= i < s.len() ==> is_whitespace(#[trigger] s[i]),
        end > 0 ==> !is_whitespace(s[end - 1]),
    ensures
        trim_end_spec(s) == s.take(end),
    decreases s.len() - end,
{
    if end == s.len() {
        assert(s.take(end) =~= s);
    } else {
        let shorter = s.drop_last();
        lemma_trim_end_cut(shorter, end);
        assert(shorter.take(end) =~= s.take(end));
    }
}

/// A blank text trims to nothing, and only a blank text does.
pub proof fn lemma_trim_end_blank(s: Seq<char>)
    ensures
        is_blank(s) <==> trim_end_spec(s).len() == 0,
    decreases s.len(),
{
    if s.len() > 0 && is_whitespace(s.last()) {
        lemma_trim_end_blank(s.drop_last());
        if is_blank(s.drop_last()) {
            assert forall|i: int| 0 <= i < s.len() implies is_whitespace(#[trigger] s[i]) by {
                if i < s.len() - 1 {
                    assert(s.drop_last()[i] == s[i]);
                }
            }
        } else {
            let i = choose|i: int| 0 <= i < s.drop_last().len() && !is_whitespace(s.drop_last()[i]);
            assert(s[i] == s.drop_last()[i]);
        }
    } else if s.len() > 0 {
        assert(!is_whitespace(s[s.len() - 1]));
    }
}

/// Whether a text holds nothing but whitespace.
pub fn blank(s: &str) -> (r: bool)
    ensures
        r == is_blank(s@),
{
    broadcast use vstd::string::group_string_axioms;

    let mut it = s.chars();
    let ghost mut seen: int = 0;
    loop
        invariant
            0 <= seen <= s@.len(),
            it.obeys_prophetic_iter_laws(),
            it.remaining() == s@.skip(seen),
            forall|i: int| 0 <= i < seen ==> is_whitespace(#[trigger] s@[i]),
        decreases s@.len() - seen,
    {
        match it.next() {
            None => {
                return true;
            },
            Some(c) => {
                if !char_is_whitespace(c) {
                    assert(s@[seen] == c);
                    return false;
                }
                proof {
                    assert(s@.skip(seen).drop_first() =~= s@.skip(seen + 1));
                    seen = seen + 1;
                }
            },
        }
    }
}

/// The text without its trailing whitespace.
pub fn trim_end(s: &str) -> (r: &str)
    ensures
        r@ == trim_end_spec(s@),
{
    broadcast use vstd::string::group_string_axioms;

    let total = s.unicode_len();
    let mut it = s.chars();
    let mut seen: usize = 0;
    let mut end: usize = 0;
    loop
        invariant
            total == s@.len(),
            0 <= end <= seen <= total,
            it.obeys_prophetic_iter_laws(),
            it.remaining() == s@.skip(seen as int),
            forall|i: int| end <= i < seen ==> is_whitespace(#[trigger] s@[i]),
            end > 0 ==> !is_whitespace(s@[end - 1]),
        ensures
            seen == total,
        decreases total - seen,
    {
        match it.next() {
            None => {
                break ;
            },
            Some(c) => {
                assert(s@[seen as int] == c);
                proof {
                    assert(s@.skip(seen as int).drop_first() =~= s@.skip(seen + 1));
                }
                seen = seen + 1;
                if !char_is_whitespace(c) {
                    end = seen;
                }
            },
        }
    }
    proof {
        lemma_trim_end_cut(s@, end as int);
    }
    s.substring_char(0, end)
}

/// Whether a text begins with another.
pub open spec fn has_prefix(s: Seq<char>, prefix: Seq<char>) -> bool {
    prefix.len() <= s.len() && s.take(prefix.len() as int) == prefix
}

/// The characters of a text, one by one.
pub fn chars_of(s: &str) -> (r: Vec<char>)
    ensures
        r@ == s@,
{
    broadcast use vstd::string::group_string_axioms;

    let mut chars: Vec<char> = Vec::new();
    let mut it = s.chars();
    loop
        invariant
            chars.len() <= s@.len(),
            it.obeys_prophetic_iter_laws(),
            it.remaining() == s@.skip(chars.len() as int),
            chars@ == s@.take(chars.len() as int),
        decreases s@.len() - chars.len(),
    {
        let ghost seen = chars.len() as int;
        match it.next() {
            None => {
                assert(s@.take(seen) =~= s@);
                return chars;
            },
            Some(c) => {
                assert(s@[seen] == c);
                chars.push(c);
                proof {
                    assert(s@.skip(seen).drop_first() =~= s@.skip(seen + 1));
                    assert(s@.take(seen + 1) =~= s@.take(seen).push(c));
                }
            },
        }
    }
}

/// Whether a text begins with another.
pub fn starts_with(s: &Vec<char>, prefix: &Vec<char>) -> (r: bool)
    ensures
        r == has_prefix(s@, prefix@),
{
    if prefix.len() > s.len() {
        return false;
    }
    let mut i: usize = 0;
    while i < prefix.len()
        invariant
            i <= prefix.len() <= s.len(),
            forall|j: int| 0 <= j < i ==> s@[j] == prefix@[j],
        decreases prefix.len() - i,
    {
        if s[i] != prefix[i] {
            assert(s@.take(prefix.len() as int)[i as int] != prefix@[i as int]);
            return false;
        }
        i += 1;
    }
    assert(s@.take(prefix.len() as int) =~= prefix@);
    true
}

} // verus!
