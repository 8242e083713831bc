//! Reading the server's log lines, which look like
//! `I[11:01:38.638] clangd version 21.1.0`: a level letter, a bracketed
//! time stamp, then the text.

use vstd::prelude::*;
use vstd::string::StringSliceAdditionalSpecFns;
use vstd::utf8::{decode_utf8, encode_utf8, encode_utf8_decode_utf8, encode_utf8_valid_utf8, is_char_boundary};

verus! {

/// White space as Unicode's `White_Space` property defines it.
pub open spec fn is_ws(c: char) -> bool {
    ||| c == '\t' || c == '\n' || c == '\x0B' || c == '\x0C' || c == '\r' || c == ' '
    ||| c == '\u{85}' || c == '\u{A0}' || c == '\u{1680}'
    ||| ('\u{2000}' <= c && c <= '\u{200A}')
    ||| c == '\u{2028}' || c == '\u{2029}' || c == '\u{202F}' || c == '\u{205F}' || c == '\u{3000}'
}

fn ws(c: char) -> (r: bool)
    ensures
        r == is_ws(c),
{
    c == '\t' || c == '\n' || c == '\x0B' || c == '\x0C' || c == '\r' || c == ' ' || c == '\u{85}'
        || c == '\u{A0}' || c == '\u{1680}' || ('\u{2000}' <= c && c <= '\u{200A}') || c == '\u{2028}'
        || c == '\u{2029}' || c == '\u{202F}' || c == '\u{205F}' || c == '\u{3000}'
}

/// First index at or after `i` that holds no white space.
pub open spec fn skip_ws(s: Seq<char>, i: int) -> int
    decreases s.len() - i,
{
    if 0 <= i < s.len() && is_ws(s[i]) {
        skip_ws(s, i + 1)
    } else {
        i
    }
}

/// End of `s[lo..j]` once trailing white space is cut.
pub open spec fn cut_ws(s: Seq<char>, lo: int, j: int) -> int
    decreases j - lo,
{
    if lo < j && is_ws(s[j - 1]) {
        cut_ws(s, lo, j - 1)
    } else {
        j
    }
}

/// `s` without leading and trailing white space.
pub open spec fn trim_ws(s: Seq<char>) -> Seq<char> {
    let lo = skip_ws(s, 0);
    s.subrange(lo, cut_ws(s, lo, s.len() as int))
}

/// Width in bytes of the level letter and time stamp that open a line.
pub open spec fn stamp_width() -> int {
    15
}

/// The level letter and the trimmed text of a log line, when the line has
/// at least the stamp's width in bytes and the text begins on a character.
pub open spec fn log_line_parts(line: &str) -> Option<(char, Seq<char>)> {
    let b = line.spec_bytes();
    if b.len() >= stamp_width() && is_char_boundary(b, stamp_width()) {
        Some((line@[0], trim_ws(decode_utf8(b.subrange(stamp_width(), b.len() as int)))))
    } else {
        None
    }
}

fn trim<'a>(s: &'a str) -> (r: &'a str)
    ensures
        r@ == trim_ws(s@),
{
    let n = s.unicode_len();
    let mut lo: usize = 0;
    while lo < n && ws(s.get_char(lo))
        invariant
            lo <= n,
            n == s@.len(),
            skip_ws(s@, lo as int) == skip_ws(s@, 0),
        decreases n - lo,
    {
        lo = lo + 1;
    }
    let mut hi: usize = n;
    while lo < hi && ws(s.get_char(hi - 1))
        invariant
            lo <= hi <= n,
            n == s@.len(),
            cut_ws(s@, lo as int, hi as int) == cut_ws(s@, lo as int, n as int),
        decreases hi,
    {
        hi = hi - 1;
    }
    s.substring_char(lo, hi)
}

/// Splits a server log line into its level letter and its text.
pub fn parse_lsp_backend_log_line(line: &str) -> (r: Option<(char, &str)>)
    ensures
        r is None <==> log_line_parts(line) is None,
        r matches Some((c, rest)) ==> log_line_parts(line) == Some((c, rest@)),
{
    proof {
        encode_utf8_valid_utf8(line@);
        assert(line.spec_bytes() == encode_utf8(line@));
    }
    // A boundary at 15 lies within the line, so the line has 15 bytes.
    if !line.is_char_boundary(15) {
        return None;
    }
    proof {
        if line@.len() == 0 {
            assert(line.spec_bytes() == encode_utf8(line@));
            assert(encode_utf8(line@).len() == 0);
        }
    }
    let level = line.get_char(0);
    let (_, tail) = line.split_at(15);
    proof {
        encode_utf8_decode_utf8(tail@);
        assert(tail.spec_bytes() == encode_utf8(tail@));
    }
    Some((level, trim(tail)))
}

/// Splits a clangd log line into its level letter and its text.
pub fn parse_clangd_log_line(line: &str) -> (r: Option<(char, &str)>)
    ensures
        r is None <==> log_line_parts(line) is None,
        r matches Some((c, rest)) ==> log_line_parts(line) == Some((c, rest@)),
{
    parse_lsp_backend_log_line(line)
}

} // verus!
