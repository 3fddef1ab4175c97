//! Text helpers of the operator GUI.
use vstd::prelude::*;
use vstd::string::*;
use crate::text::{
    char_pos, chars_of, find_char, find_sub, find_sub_exec, head, lemma_char_pos,
    lemma_find_from_match, lemma_find_from_range, string_of, tail,
};

verus! {

/// `s` with every `**` removed, scanning from the left (`str::replace("**", "")`).
pub open spec fn without_stars(s: Seq<char>) -> Seq<char>
    decreases s.len(),
{
    if s.len() == 0 {
        s
    } else if s.len() >= 2 && s[0] == '*' && s[1] == '*' {
        without_stars(s.skip(2))
    } else {
        seq![s[0]] + without_stars(s.drop_first())
    }
}

/// `s` with the first Markdown link `[label](target)` replaced by its label,
/// repeated until none is left.
pub open spec fn without_links(s: Seq<char>) -> Seq<char>
    decreases s.len(),
{
    let open = char_pos(s, '[');
    if open < 0 {
        s
    } else {
        let close = find_sub(s.skip(open), "]("@);
        if close < 0 {
            s
        } else {
            let end = char_pos(s.skip(open + close), ')');
            if end < 0 {
                s
            } else {
                proof {
                    lemma_link_shrinks(s);
                }
                without_links(
                    s.take(open) + s.subrange(open + 1, open + close) + s.skip(
                        open + close + end + 1,
                    ),
                )
            }
        }
    }
}

pub proof fn lemma_link_shrinks(s: Seq<char>)
    requires
        char_pos(s, '[') >= 0,
        find_sub(s.skip(char_pos(s, '[')), "]("@) >= 0,
        char_pos(s.skip(char_pos(s, '[') + find_sub(s.skip(char_pos(s, '[')), "]("@)), ')') >= 0,
    ensures
        ({
            let open = char_pos(s, '[');
            let close = find_sub(s.skip(open), "]("@);
            let end = char_pos(s.skip(open + close), ')');
            &&& 1 <= close
            &&& 2 <= end
            &&& open + close + end + 1 <= s.len()
            &&& (s.take(open) + s.subrange(open + 1, open + close) + s.skip(open + close + end + 1)).len()
                < s.len()
        }),
{
    let open = char_pos(s, '[');
    lemma_char_pos(s, '[');
    let r = s.skip(open);
    lemma_find_from_range(r, "]("@, 0);
    lemma_find_from_match(r, "]("@, 0);
    let close = find_sub(r, "]("@);
    reveal_strlit("](");
    assert(r.subrange(close, close + 2) == "]("@);
    assert(r.subrange(close, close + 2)[0] == ']');
    assert(r.subrange(close, close + 2)[1] == '(');
    assert(r[close] == ']');
    assert(r[close + 1] == '(');
    assert(r[0] == '[');
    let r2 = s.skip(open + close);
    lemma_char_pos(r2, ')');
    let end = char_pos(r2, ')');
    assert(r2[0] == r[close]);
    assert(r2[1] == r[close + 1]);
}

/// A line of the wiring guide as plain text: without `**` emphasis, and with
/// Markdown links replaced by their labels.
pub open spec fn plain_text_spec(line: Seq<char>) -> Seq<char> {
    without_links(without_stars(line))
}

/// Strips Markdown emphasis and links from a line of the wiring guide.
pub fn plain_text(line: &str) -> (out: String)
    ensures
        out@ == plain_text_spec(line@),
{
    let chars = chars_of(line);
    let mut text: Vec<char> = Vec::new();
    let mut i: usize = 0;
    assert(chars@.skip(0) =~= chars@);
    while i < chars.len()
        invariant
            i <= chars@.len(),
            text@ + without_stars(chars@.skip(i as int)) == without_stars(chars@),
        decreases chars@.len() - i,
    {
        let ghost rest = chars@.skip(i as int);
        if i + 1 < chars.len() && chars[i] == '*' && chars[i + 1] == '*' {
            assert(rest.skip(2) == chars@.skip(i + 2));
            i = i + 2;
        } else {
            assert(rest.drop_first() == chars@.skip(i + 1));
            assert(seq![rest[0]] + without_stars(rest.drop_first()) == without_stars(rest));
            let ghost before = text@;
            text.push(chars[i]);
            assert(text@ + without_stars(chars@.skip(i + 1)) =~= before + (seq![rest[0]]
                + without_stars(rest.drop_first())));
            i = i + 1;
        }
    }
    assert(chars@.skip(chars@.len() as int) =~= Seq::<char>::empty());
    assert(text@ =~= without_stars(chars@));
    let link = chars_of("](");
    proof {
        reveal_strlit("](");
    }
    loop
        invariant
            link@ == "]("@,
            without_links(text@) == plain_text_spec(line@),
        ensures
            text@ == plain_text_spec(line@),
        decreases text@.len(),
    {
        let open = match find_char(text.as_slice(), '[') {
            None => {
                break;
            },
            Some(o) => o,
        };
        let n = text.len();
        let after_open = tail(text.as_slice(), open);
        let close = match find_sub_exec(after_open.as_slice(), link.as_slice()) {
            None => {
                break;
            },
            Some(c) => c,
        };
        let after_close = tail(text.as_slice(), open + close);
        let end = match find_char(after_close.as_slice(), ')') {
            None => {
                break;
            },
            Some(e) => e,
        };
        proof {
            lemma_link_shrinks(text@);
        }
        let mut next: Vec<char> = head(text.as_slice(), open);
        let label_end: usize = open + close;
        let mut k: usize = open + 1;
        assert(next@ =~= text@.take(open as int) + text@.subrange(open + 1, k as int));
        while k < label_end
            invariant
                label_end == open + close <= text@.len(),
                open + 1 <= k <= label_end,
                next@ == text@.take(open as int) + text@.subrange(open + 1, k as int),
            decreases label_end - k,
        {
            next.push(text[k]);
            k = k + 1;
            assert(next@ =~= text@.take(open as int) + text@.subrange(open + 1, k as int));
        }
        let mut m: usize = open + close + end + 1;
        let ghost mid = next@;
        while m < n
            invariant
                n == text@.len(),
                open + close + end + 1 <= m <= n,
                next@ == mid + text@.subrange(open + close + end + 1, m as int),
            decreases n - m,
        {
            next.push(text[m]);
            m = m + 1;
            assert(next@ =~= mid + text@.subrange(open + close + end + 1, m as int));
        }
        assert(next@ =~= text@.take(open as int) + text@.subrange(open + 1, open + close)
            + text@.skip(open + close + end + 1));
        text = next;
    }
    string_of(text.as_slice())
}

} // verus!
