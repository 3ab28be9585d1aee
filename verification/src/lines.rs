//! The lines of a text, cut at its line feeds.

use vstd::prelude::*;
use vstd::std_specs::iter::IteratorSpec;
use vstd::string::{StrSliceExecFns, StringSliceAdditionalSpecFns};
use vstd::utf8::{encode_utf8, is_char_boundary};

verus! {

/// The place of the first line feed in a text, or its length where it
/// holds none.
pub open spec fn first_newline(s: Seq<char>) -> int
    decreases s.len(),
{
    if s.len() == 0 || s[0] == '\n' {
        0
    } else {
        1 + first_newline(s.skip(1))
    }
}

/// A line without the carriage return that stood before its line feed.
pub open spec fn without_return(line: Seq<char>) -> Seq<char> {
    if line.len() > 0 && line.last() == '\r' {
        line.drop_last()
    } else {
        line
    }
}

/// The lines of a text. A line ends at a line feed, which is dropped
/// together with a carriage return just before it; what follows the last
/// line feed is a line of its own unless it is empty.
pub open spec fn text_lines(s: Seq<char>) -> Seq<Seq<char>>
    decreases s.len(),
{
    if s.len() == 0 {
        Seq::empty()
    } else {
        let k = first_newline(s);
        if 0 <= k < s.len() {
            seq![without_return(s.take(k))] + text_lines(s.skip(k + 1))
        } else {
            seq![s]
        }
    }
}

/// The bytes of two texts in a row are the bytes of the first and then
/// those of the second.
pub proof fn lemma_encode_concat(a: Seq<char>, b: Seq<char>)
    ensures
        encode_utf8(a + b) == encode_utf8(a) + encode_utf8(b),
    decreases a.len(),
{
    if a.len() == 0 {
        assert(a + b =~= b);
        assert(encode_utf8(a) + encode_utf8(b) =~= encode_utf8(b));
    } else {
        assert((a + b).drop_first() =~= a.drop_first() + b);
        assert((a + b)[0] == a[0]);
        lemma_encode_concat(a.drop_first(), b);
        assert(encode_utf8(a + b) =~= encode_utf8(a) + encode_utf8(b));
    }
}

/// A text has at least as many bytes as characters.
pub proof fn lemma_encode_len(a: Seq<char>)
    ensures
        a.len() <= encode_utf8(a).len(),
    decreases a.len(),
{
    if a.len() > 0 {
        lemma_encode_len(a.drop_first());
    }
}

/// Where the bytes of a text end within the bytes of a longer one, a
/// character begins.
pub proof fn lemma_boundary_after_prefix(a: Seq<char>, b: Seq<char>)
    ensures
        is_char_boundary(encode_utf8(a + b), encode_utf8(a).len() as int),
    decreases a.len(),
{
    let all = a + b;
    let bytes = encode_utf8(all);
    vstd::utf8::encode_utf8_valid_utf8(all);
    if a.len() > 0 {
        let less = a.drop_first();
        vstd::utf8::encode_utf8_first_scalar(all);
        assert(all[0] == a[0]);
        assert(all.drop_first() =~= less + b);
        assert(vstd::utf8::pop_first_scalar(bytes) =~= encode_utf8(all.drop_first()));
        lemma_boundary_after_prefix(less, b);
        lemma_encode_concat(a, b);
        assert(encode_utf8(a).len() == vstd::utf8::encode_scalar(a[0] as u32).len() + encode_utf8(
            less,
        ).len());
    }
}

/// The place of the first line feed, or nothing where the text holds none.
fn newline_in(s: &str) -> (r: Option<usize>)
    ensures
        match r {
            Some(k) => k < s@.len() && first_newline(s@) == k && s@[k as int] == '\n',
            None => first_newline(s@) == s@.len(),
        },
{
    broadcast use vstd::string::group_string_axioms;

    let bytes = s.as_bytes().len();
    proof {
        lemma_encode_len(s@);
    }
    let mut it = s.chars();
    let mut seen: usize = 0;
    assert(s@.skip(0) =~= s@);
    loop
        invariant
            seen <= s@.len() <= bytes,
            it.obeys_prophetic_iter_laws(),
            it.remaining() == s@.skip(seen as int),
            first_newline(s@) == seen + first_newline(s@.skip(seen as int)),
        decreases s@.len() - seen,
    {
        match it.next() {
            None => {
                return None;
            },
            Some(c) => {
                assert(s@.skip(seen as int)[0] == c);
                assert(s@[seen as int] == c);
                if c == '\n' {
                    return Some(seen);
                }
                proof {
                    assert(s@.skip(seen as int).drop_first() =~= s@.skip(seen + 1));
                    assert(s@.skip(seen as int).skip(1) =~= s@.skip(seen + 1));
                }
                seen = seen + 1;
            },
        }
    }
}

/// What follows the line feed at place `k`, given the text before it.
fn after_newline<'a>(s: &'a str, head: &str, k: usize) -> (after: &'a str)
    requires
        k < s@.len(),
        head@ == s@.take(k as int),
        s@[k as int] == '\n',
    ensures
        after@ == s@.skip(k + 1),
{
    let ghost feed = seq!['\n'];
    let ghost behind = s@.skip(k + 1);
    proof {
        assert(s@ =~= head@ + (feed + behind));
        lemma_encode_concat(head@, feed + behind);
        lemma_boundary_after_prefix(head@, feed + behind);
    }
    let (_, tail) = s.split_at(head.as_bytes().len());
    proof {
        assert(tail.spec_bytes() =~= encode_utf8(feed + behind));
        vstd::utf8::encode_utf8_decode_utf8(tail@);
        vstd::utf8::encode_utf8_decode_utf8(feed + behind);
        lemma_encode_concat(feed, behind);
        lemma_boundary_after_prefix(feed, behind);
        assert(encode_utf8(feed.drop_first()) =~= Seq::<u8>::empty());
        assert(feed[0] as u32 == 10);
        assert(vstd::utf8::encode_scalar(10).len() == 1);
        assert(encode_utf8(feed) == vstd::utf8::encode_scalar(feed[0] as u32) + encode_utf8(
            feed.drop_first(),
        ));
    }
    let (_, after) = tail.split_at(1);
    proof {
        assert(after.spec_bytes() =~= encode_utf8(behind));
        vstd::utf8::encode_utf8_decode_utf8(after@);
        vstd::utf8::encode_utf8_decode_utf8(behind);
    }
    after
}

/// The lines of a text, each as a `String` of its own.
pub fn lines_of(text: &str) -> (r: Vec<String>)
    ensures
        r.deep_view() == text_lines(text@),
{
    let mut lines: Vec<String> = Vec::new();
    let mut rest: &str = text;
    assert(lines.deep_view() + text_lines(rest@) =~= text_lines(text@));
    loop
        invariant
            text_lines(text@) == lines.deep_view() + text_lines(rest@),
        decreases rest@.len(),
    {
        let ghost done = lines.deep_view();
        match newline_in(rest) {
            None => {
                if !rest.is_empty() {
                    lines.push(rest.to_owned());
                    assert(lines.deep_view() =~= done + seq![rest@]);
                } else {
                    assert(done + text_lines(rest@) =~= done);
                }
                return lines;
            },
            Some(k) => {
                let head = rest.substring_char(0, k);
                assert(head@ =~= rest@.take(k as int));
                let after = after_newline(rest, head, k);
                let line = if k > 0 && head.get_char(k - 1) == '\r' {
                    let cut = head.substring_char(0, k - 1);
                    assert(cut@ =~= head@.drop_last());
                    cut
                } else {
                    head
                };
                assert(line@ == without_return(rest@.take(k as int)));
                lines.push(line.to_owned());
                proof {
                    assert(lines.deep_view() =~= done.push(line@));
                    assert(done + (seq![line@] + text_lines(after@)) =~= done.push(line@)
                        + text_lines(after@));
                }
                rest = after;
            },
        }
    }
}

} // verus!
