use vstd::prelude::*;

verus! {

/// The characters that separate tokens on a manifest line: Unicode's
/// `White_Space` property.
pub open spec fn is_space(c: char) -> bool {
    ('\u{9}' <= c && c <= '\u{d}') || c == ' ' || c == '\u{85}' || c == '\u{a0}' || c
        == '\u{1680}' || ('\u{2000}' <= c && c <= '\u{200a}') || c == '\u{2028}' || c
        == '\u{2029}' || c == '\u{202f}' || c == '\u{205f}' || c == '\u{3000}'
}

/// The tokens of a text: its maximal runs of non-space characters, in order.
/// A character that is not a space extends the last token when it follows
/// one that is not a space either, and starts a new token otherwise.
pub open spec fn tokens(s: Seq<char>) -> Seq<Seq<char>>
    decreases s.len(),
{
    if s.len() == 0 {
        Seq::empty()
    } else {
        let prev = tokens(s.drop_last());
        let c = s.last();
        if is_space(c) {
            prev
        } else if s.len() >= 2 && !is_space(s[s.len() - 2]) {
            prev.drop_last().push(prev.last().push(c))
        } else {
            prev.push(seq![c])
        }
    }
}

pub open spec fn string_views(v: Seq<String>) -> Seq<Seq<char>> {
    v.map_values(|t: String| t@)
}

pub fn is_space_char(c: char) -> (r: bool)
    ensures
        r == is_space(c),
{
    ('\u{9}' <= c && c <= '\u{d}') || c == ' ' || c == '\u{85}' || c == '\u{a0}' || c
        == '\u{1680}' || ('\u{2000}' <= c && c <= '\u{200a}') || c == '\u{2028}' || c
        == '\u{2029}' || c == '\u{202f}' || c == '\u{205f}' || c == '\u{3000}'
}

/// Splits a line into its whitespace-separated tokens.
pub fn split_tokens(line: &str) -> (r: Vec<String>)
    ensures
        string_views(r@) == tokens(line@),
{
    let n = line.unicode_len();
    let ghost s = line@;
    let mut out: Vec<String> = Vec::new();
    let mut start: usize = 0;
    let mut inside = false;
    let mut i: usize = 0;
    while i < n
        invariant
            n == s.len(),
            s == line@,
            i <= n,
            start <= i,
            inside ==> start < i && !is_space(s[i - 1])
                && tokens(s.subrange(0, i as int)) == string_views(out@).push(s.subrange(start as int, i as int)),
            !inside ==> (i == 0 || is_space(s[i - 1])) && tokens(s.subrange(0, i as int)) == string_views(out@),
        decreases n - i,
    {
        let c = line.get_char(i);
        let ghost pre = s.subrange(0, i as int);
        let ghost next = s.subrange(0, i as int + 1);
        proof {
            assert(next.drop_last() =~= pre);
            assert(next.last() == c);
            if i >= 1 {
                assert(next[next.len() - 2] == s[i - 1]);
            }
        }
        if is_space_char(c) {
            if inside {
                let t = line.substring_char(start, i);
                let ghost before = out@;
                out.push(String::from_str(t));
                proof {
                    assert(string_views(out@) =~= string_views(before).push(t@));
                }
                inside = false;
            }
        } else {
            if !inside {
                start = i;
                inside = true;
                proof {
                    assert(s.subrange(start as int, i as int + 1) =~= seq![c]);
                }
            } else {
                proof {
                    assert(s.subrange(start as int, i as int + 1) =~= s.subrange(start as int, i as int).push(c));
                }
            }
        }
        i += 1;
    }
    if inside {
        let t = line.substring_char(start, n);
        let ghost before = out@;
        out.push(String::from_str(t));
        proof {
            assert(string_views(out@) =~= string_views(before).push(t@));
        }
    }
    proof {
        assert(s.subrange(0, n as int) =~= s);
    }
    out
}

} // verus!
