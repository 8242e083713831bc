//! The `Content-Length` framed codec of the Language Server Protocol.

use vstd::prelude::*;
use vstd::slice::{slice_subrange, slice_to_vec};
use vstd::utf8::{encode_utf8, encode_utf8_valid_utf8, valid_utf8};

verus! {

/// Why a frame could not be read.
#[derive(Debug, Clone, Copy, PartialEq, Eq, Structural)]
pub enum FrameError {
    /// No usable `Content-Length` header before the blank line.
    BadHeader,
    /// The bytes end before the header or the body is complete.
    Truncated,
    /// The body is not one UTF-8 JSON text.
    BadJson,
}

/// One frame read off a byte stream.
pub struct Frame {
    /// The body bytes, exactly as many as `Content-Length` announced.
    pub body: Vec<u8>,
    /// How many bytes of the input the frame took, header included.
    pub consumed: usize,
}

/// Whether `b` is one complete JSON text, as serde_json accepts it.
pub uninterp spec fn is_json_text(b: Seq<u8>) -> bool;

/// Relies on serde_json::from_slice: it succeeds on the bytes of one JSON
/// text (UTF-8 included) and fails on anything else.
#[verifier::external_body]
fn json_text_ok(b: &[u8]) -> (r: bool)
    ensures
        r == is_json_text(b@),
{
    serde_json::from_slice::<serde_json::Value>(b).is_ok()
}

/// Decimal digits of `n`, most significant first, with no leading zero.
pub open spec fn decimal(n: nat) -> Seq<u8>
    decreases n,
{
    if n < 10 {
        seq![(48 + n) as u8]
    } else {
        decimal(n / 10).push((48 + n % 10) as u8)
    }
}

pub open spec fn is_digit(b: u8) -> bool {
    48 <= b <= 57
}

/// The number that a run of decimal digits denotes.
pub open spec fn digits_value(s: Seq<u8>) -> nat
    decreases s.len(),
{
    if s.len() == 0 {
        0
    } else {
        digits_value(s.drop_last()) * 10 + (s.last() - 48) as nat
    }
}

/// The bytes `Content-Length: `.
pub open spec fn length_prefix() -> Seq<u8> {
    seq![67u8, 111, 110, 116, 101, 110, 116, 45, 76, 101, 110, 103, 116, 104, 58, 32]
}

pub open spec fn crlf() -> Seq<u8> {
    seq![13u8, 10]
}

/// The frame that carries `body`: its header, a blank line, then the body.
pub open spec fn frame_of(body: Seq<u8>) -> Seq<u8> {
    length_prefix() + decimal(body.len()) + crlf() + crlf() + body
}

pub proof fn lemma_decimal_digits(n: nat)
    ensures
        decimal(n).len() >= 1,
        forall|i: int| 0 <= i < decimal(n).len() ==> is_digit(#[trigger] decimal(n)[i]),
        digits_value(decimal(n)) == n,
    decreases n,
{
    let d = decimal(n);
    if n >= 10 {
        lemma_decimal_digits(n / 10);
        assert(d.drop_last() =~= decimal(n / 10));
        assert(n == (n / 10) * 10 + n % 10) by (nonlinear_arith);
        assert(d.last() == (48 + n % 10) as u8);
        assert(digits_value(d) == digits_value(d.drop_last()) * 10 + (d.last() - 48) as nat);
    } else {
        assert(d.drop_last() =~= Seq::<u8>::empty());
        assert(digits_value(Seq::<u8>::empty()) == 0);
        assert(digits_value(d) == digits_value(d.drop_last()) * 10 + (d.last() - 48) as nat);
    }
}

fn decimal_bytes(n: usize) -> (r: Vec<u8>)
    ensures
        r@ == decimal(n as nat),
    decreases n,
{
    if n < 10 {
        let mut v: Vec<u8> = Vec::new();
        v.push(48u8 + n as u8);
        assert(v@ =~= decimal(n as nat));
        v
    } else {
        let mut v = decimal_bytes(n / 10);
        v.push(48u8 + (n % 10) as u8);
        v
    }
}

fn push_all(out: &mut Vec<u8>, src: &[u8])
    ensures
        final(out)@ == old(out)@ + src@,
{
    let mut i: usize = 0;
    while i < src.len()
        invariant
            i <= src@.len(),
            out@ == old(out)@ + src@.subrange(0, i as int),
        decreases src@.len() - i,
    {
        out.push(src[i]);
        i = i + 1;
        assert(src@.subrange(0, i as int) =~= src@.subrange(0, i - 1 as int).push(src@[i - 1]));
    }
    assert(src@.subrange(0, src@.len() as int) =~= src@);
}

/// Frames `body` for the wire: `Content-Length: <n>\r\n\r\n` and the body,
/// where `n` is the body's length in bytes.
pub fn encode_frame(body: &[u8]) -> (r: Vec<u8>)
    ensures
        r@ == frame_of(body@),
{
    let mut out: Vec<u8> = Vec::new();
    let prefix: [u8; 16] = [67u8, 111, 110, 116, 101, 110, 116, 45, 76, 101, 110, 103, 116, 104, 58, 32];
    push_all(&mut out, &prefix);
    let digits = decimal_bytes(body.len());
    push_all(&mut out, digits.as_slice());
    let sep: [u8; 4] = [13u8, 10, 13, 10];
    push_all(&mut out, &sep);
    push_all(&mut out, body);
    assert(prefix@ =~= length_prefix());
    assert(sep@ =~= crlf() + crlf());
    assert(out@ =~= frame_of(body@));
    out
}


pub open spec fn ascii_lower(b: u8) -> u8 {
    if 65 <= b <= 90 {
        (b + 32) as u8
    } else {
        b
    }
}

/// The bytes `content-length`.
pub open spec fn length_name() -> Seq<u8> {
    seq![99u8, 111, 110, 116, 101, 110, 116, 45, 108, 101, 110, 103, 116, 104]
}

/// A header name that is `Content-Length` in any letter case.
pub open spec fn is_length_name(name: Seq<u8>) -> bool {
    name.len() == 14 && forall|i: int| 0 <= i < 14 ==> ascii_lower(#[trigger] name[i]) == length_name()[i]
}

/// Index of the first `b` in `s` at or after `from`.
pub open spec fn find_byte(s: Seq<u8>, b: u8, from: int) -> Option<int>
    decreases s.len() - from,
{
    if from < 0 || from >= s.len() {
        None
    } else if s[from] == b {
        Some(from)
    } else {
        find_byte(s, b, from + 1)
    }
}

pub open spec fn is_blank(b: u8) -> bool {
    b == 32 || b == 9
}

/// First index at or after `i` that holds no space or tab.
pub open spec fn skip_blanks(s: Seq<u8>, i: int) -> int
    decreases s.len() - i,
{
    if 0 <= i < s.len() && is_blank(s[i]) {
        skip_blanks(s, i + 1)
    } else {
        i
    }
}

/// End of `s[lo..j]` once trailing spaces and tabs are cut.
pub open spec fn cut_blanks(s: Seq<u8>, lo: int, j: int) -> int
    decreases j - lo,
{
    if lo < j && is_blank(s[j - 1]) {
        cut_blanks(s, lo, j - 1)
    } else {
        j
    }
}

/// `s` without leading and trailing spaces and tabs.
pub open spec fn trim_blanks(s: Seq<u8>) -> Seq<u8> {
    let lo = skip_blanks(s, 0);
    s.subrange(lo, cut_blanks(s, lo, s.len() as int))
}

pub open spec fn all_digits(s: Seq<u8>) -> bool {
    forall|i: int| 0 <= i < s.len() ==> is_digit(#[trigger] s[i])
}

/// What one header line says about the body length.
#[derive(Debug, Clone, Copy, PartialEq, Eq, Structural)]
pub enum HeaderLine {
    /// A `Content-Length` header with this value.
    Length(usize),
    /// A `Content-Length` header whose value is no number that fits.
    BadLength,
    /// Any other header.
    Other,
}

/// Reading of one header line (without its CR LF): the name is what comes
/// before the first colon, the value what follows it, trimmed.
pub open spec fn header_line(line: Seq<u8>) -> HeaderLine {
    match find_byte(line, 58, 0) {
        None => HeaderLine::Other,
        Some(c) => if !is_length_name(line.subrange(0, c)) {
            HeaderLine::Other
        } else {
            let v = trim_blanks(line.subrange(c + 1, line.len() as int));
            if v.len() > 0 && all_digits(v) && digits_value(v) <= usize::MAX {
                HeaderLine::Length(digits_value(v) as usize)
            } else {
                HeaderLine::BadLength
            }
        },
    }
}

/// Reads header lines from `i`, the current line having begun at `start`:
/// either the last announced length (if any) and where the body begins, or
/// the error.
pub open spec fn scan_headers(buf: Seq<u8>, start: int, i: int, found: Option<usize>) -> Result<
    (Option<usize>, int),
    FrameError,
>
    decreases buf.len() - i,
{
    if i < 0 || i + 2 > buf.len() {
        Err(FrameError::Truncated)
    } else if buf[i] == 13 && buf[i + 1] == 10 {
        if i == start {
            Ok((found, i + 2))
        } else {
            match header_line(buf.subrange(start, i)) {
                HeaderLine::BadLength => Err(FrameError::BadHeader),
                HeaderLine::Length(n) => scan_headers(buf, i + 2, i + 2, Some(n)),
                HeaderLine::Other => scan_headers(buf, i + 2, i + 2, found),
            }
        }
    } else {
        scan_headers(buf, start, i + 1, found)
    }
}

/// The header at the start of `buf`: the body length it announces (the
/// last `Content-Length`) and where the body begins, or why there is none.
pub open spec fn header_result(buf: Seq<u8>) -> Result<(usize, int), FrameError> {
    match scan_headers(buf, 0, 0, None) {
        Err(e) => Err(e),
        Ok((None, _)) => Err(FrameError::BadHeader),
        Ok((Some(n), s)) => Ok((n, s)),
    }
}

/// The frame at the start of `buf`: its body and the bytes it takes, or why
/// there is none.
pub open spec fn frame_result(buf: Seq<u8>) -> Result<(Seq<u8>, int), FrameError> {
    match header_result(buf) {
        Err(e) => Err(e),
        Ok((n, s)) => if s + n > buf.len() {
            Err(FrameError::Truncated)
        } else if !is_json_text(buf.subrange(s, s + n)) {
            Err(FrameError::BadJson)
        } else {
            Ok((buf.subrange(s, s + n), s + n))
        },
    }
}

proof fn lemma_digits_step(s: Seq<u8>, i: int)
    requires
        0 <= i < s.len(),
    ensures
        digits_value(s.subrange(0, i + 1)) == digits_value(s.subrange(0, i)) * 10 + (s[i] - 48) as nat,
{
    assert(s.subrange(0, i + 1).drop_last() =~= s.subrange(0, i));
}

/// A longer run of digits never denotes a smaller number.
proof fn lemma_digits_prefix(s: Seq<u8>, j: int)
    requires
        0 <= j <= s.len(),
        all_digits(s),
    ensures
        digits_value(s.subrange(0, j)) <= digits_value(s),
    decreases s.len() - j,
{
    if j < s.len() {
        lemma_digits_step(s, j);
        lemma_digits_prefix(s, j + 1);
    } else {
        assert(s.subrange(0, j) =~= s);
    }
}

fn find_colon(line: &[u8]) -> (r: Option<usize>)
    ensures
        match r {
            Some(k) => find_byte(line@, 58, 0) == Some(k as int) && k < line@.len(),
            None => find_byte(line@, 58, 0) == None::<int>,
        },
{
    let mut j: usize = 0;
    while j < line.len()
        invariant
            j <= line@.len(),
            find_byte(line@, 58, j as int) == find_byte(line@, 58, 0),
        decreases line@.len() - j,
    {
        if line[j] == 58 {
            return Some(j);
        }
        j = j + 1;
    }
    None
}

fn names_length(name: &[u8]) -> (r: bool)
    ensures
        r == is_length_name(name@),
{
    if name.len() != 14 {
        return false;
    }
    let expect: [u8; 14] = [99u8, 111, 110, 116, 101, 110, 116, 45, 108, 101, 110, 103, 116, 104];
    assert(expect@ =~= length_name());
    let mut i: usize = 0;
    while i < 14
        invariant
            i <= 14,
            name@.len() == 14,
            expect@ == length_name(),
            forall|k: int| 0 <= k < i ==> ascii_lower(#[trigger] name@[k]) == length_name()[k],
        decreases 14 - i,
    {
        let b = name[i];
        let lower = if 65 <= b && b <= 90 {
            b + 32
        } else {
            b
        };
        if lower != expect[i] {
            return false;
        }
        i = i + 1;
    }
    true
}

fn trim_range(v: &[u8]) -> (r: (usize, usize))
    ensures
        r.0 as int == skip_blanks(v@, 0),
        r.1 as int == cut_blanks(v@, r.0 as int, v@.len() as int),
        r.0 <= r.1 <= v@.len(),
{
    let mut lo: usize = 0;
    while lo < v.len() && (v[lo] == 32 || v[lo] == 9)
        invariant
            lo <= v@.len(),
            skip_blanks(v@, lo as int) == skip_blanks(v@, 0),
        decreases v@.len() - lo,
    {
        lo = lo + 1;
    }
    let mut hi: usize = v.len();
    while lo < hi && (v[hi - 1] == 32 || v[hi - 1] == 9)
        invariant
            lo <= hi <= v@.len(),
            cut_blanks(v@, lo as int, hi as int) == cut_blanks(v@, lo as int, v@.len() as int),
        decreases hi,
    {
        hi = hi - 1;
    }
    (lo, hi)
}

fn parse_length(v: &[u8]) -> (r: Option<usize>)
    ensures
        match r {
            Some(n) => v@.len() > 0 && all_digits(v@) && digits_value(v@) == n,
            None => !(v@.len() > 0 && all_digits(v@) && digits_value(v@) <= usize::MAX),
        },
{
    if v.len() == 0 {
        return None;
    }
    let mut acc: usize = 0;
    let mut i: usize = 0;
    assert(digits_value(v@.subrange(0, 0)) == 0) by {
        assert(v@.subrange(0, 0) =~= Seq::<u8>::empty());
    }
    while i < v.len()
        invariant
            i <= v@.len(),
            acc == digits_value(v@.subrange(0, i as int)),
            forall|k: int| 0 <= k < i ==> is_digit(#[trigger] v@[k]),
        decreases v@.len() - i,
    {
        let b = v[i];
        if b < 48 || b > 57 {
            return None;
        }
        let d = (b - 48) as usize;
        proof {
            lemma_digits_step(v@, i as int);
        }
        if acc > (usize::MAX - d) / 10 {
            proof {
                assert(acc * 10 + d > usize::MAX) by (nonlinear_arith)
                    requires
                        acc > (usize::MAX - d) / 10,
                        d <= 9,
                ;
                if all_digits(v@) {
                    lemma_digits_prefix(v@, i + 1);
                }
            }
            return None;
        }
        assert(acc * 10 + d <= usize::MAX) by (nonlinear_arith)
            requires
                acc <= (usize::MAX - d) / 10,
                d <= 9,
        ;
        acc = acc * 10 + d;
        i = i + 1;
    }
    assert(v@.subrange(0, v@.len() as int) =~= v@);
    Some(acc)
}

/// Reads one header line, given without its CR LF.
pub fn read_header_line(line: &[u8]) -> (r: HeaderLine)
    ensures
        r == header_line(line@),
{
    match find_colon(line) {
        None => HeaderLine::Other,
        Some(c) => {
            let name = slice_subrange(line, 0, c);
            if !names_length(name) {
                return HeaderLine::Other;
            }
            let rest = slice_subrange(line, c + 1, line.len());
            let (lo, hi) = trim_range(rest);
            let value = slice_subrange(rest, lo, hi);
            assert(value@ =~= trim_blanks(line@.subrange(c + 1, line@.len() as int)));
            match parse_length(value) {
                Some(n) => HeaderLine::Length(n),
                None => HeaderLine::BadLength,
            }
        },
    }
}

/// Reads the header at the start of `buf`: lines up to a blank line, of
/// which the last `Content-Length` gives the body length. Returns that
/// length and where the body begins.
pub fn read_header(buf: &[u8]) -> (r: Result<(usize, usize), FrameError>)
    ensures
        match r {
            Ok((n, s)) => header_result(buf@) == Ok::<(usize, int), FrameError>((n, s as int))
                && s <= buf@.len(),
            Err(e) => header_result(buf@) == Err::<(usize, int), FrameError>(e),
        },
{
    let mut i: usize = 0;
    let mut start: usize = 0;
    let mut found: Option<usize> = None;
    let mut body_start: usize = 0;
    loop
        invariant
            start <= i <= buf@.len(),
            scan_headers(buf@, start as int, i as int, found) == scan_headers(buf@, 0, 0, None),
        ensures
            body_start <= buf@.len(),
            scan_headers(buf@, 0, 0, None) == Ok::<(Option<usize>, int), FrameError>((found, body_start as int)),
        decreases buf@.len() - i,
    {
        if buf.len() - i < 2 {
            return Err(FrameError::Truncated);
        }
        if buf[i] == 13 && buf[i + 1] == 10 {
            if i == start {
                body_start = i + 2;
                break;
            }
            let line = slice_subrange(buf, start, i);
            match read_header_line(line) {
                HeaderLine::BadLength => {
                    return Err(FrameError::BadHeader);
                },
                HeaderLine::Length(n) => {
                    found = Some(n);
                },
                HeaderLine::Other => {},
            }
            i = i + 2;
            start = i;
        } else {
            i = i + 1;
        }
    }
    match found {
        None => Err(FrameError::BadHeader),
        Some(n) => Ok((n, body_start)),
    }
}

/// Reads the frame at the start of `buf`: its header, then as many body
/// bytes as the header announced, which must hold one JSON text.
pub fn read_frame(buf: &[u8]) -> (r: Result<Frame, FrameError>)
    ensures
        match r {
            Ok(f) => frame_result(buf@) == Ok::<(Seq<u8>, int), FrameError>((f.body@, f.consumed as int)),
            Err(e) => frame_result(buf@) == Err::<(Seq<u8>, int), FrameError>(e),
        },
{
    let (n, body_start) = match read_header(buf) {
        Ok(h) => h,
        Err(e) => {
            return Err(e);
        },
    };
    if n > buf.len() - body_start {
        return Err(FrameError::Truncated);
    }
    let body = slice_subrange(buf, body_start, body_start + n);
    if !json_text_ok(body) {
        return Err(FrameError::BadJson);
    }
    Ok(Frame { body: slice_to_vec(body), consumed: body_start + n })
}

/// On the bytes before the first CR, header reading only moves on.
proof fn lemma_scan_skips(buf: Seq<u8>, i: int, e: int)
    requires
        0 <= i <= e,
        e + 2 <= buf.len(),
        forall|k: int| 0 <= k < e ==> #[trigger] buf[k] != 13,
    ensures
        scan_headers(buf, 0, i, None) == scan_headers(buf, 0, e, None),
    decreases e - i,
{
    if i < e {
        lemma_scan_skips(buf, i + 1, e);
    }
}

/// Reading back a frame that `encode_frame` wrote gives its body, whatever
/// follows it on the stream.
pub proof fn lemma_frame_round_trip(body: Seq<u8>, rest: Seq<u8>)
    requires
        body.len() <= usize::MAX,
        is_json_text(body),
    ensures
        frame_result(frame_of(body) + rest) == Ok::<(Seq<u8>, int), FrameError>(
            (body, frame_of(body).len() as int),
        ),
{
    let n: nat = body.len();
    let d = decimal(n);
    lemma_decimal_digits(n);
    let buf = frame_of(body) + rest;
    let e: int = 16 + d.len() as int;
    let line = length_prefix() + d;
    assert(buf.subrange(0, e) =~= line);
    assert forall|k: int| 0 <= k < e implies #[trigger] buf[k] != 13 by {
        if k >= 16int {
            assert(buf[k] == d[k - 16]);
            assert(is_digit(d[k - 16]));
        }
    }
    assert(buf[e] == 13 && buf[e + 1] == 10);
    assert(buf[e + 2] == 13 && buf[e + 3] == 10);
    lemma_scan_skips(buf, 0, e);
    reveal_with_fuel(find_byte, 16);
    assert(find_byte(line, 58, 0) == Some(14int));
    assert(is_length_name(line.subrange(0, 14)));
    let v = line.subrange(15, line.len() as int);
    assert(v =~= seq![32u8] + d);
    assert(skip_blanks(v, 1) == 1);
    assert(skip_blanks(v, 0) == 1);
    assert(cut_blanks(v, 1, v.len() as int) == v.len());
    assert(trim_blanks(v) =~= d);
    assert(header_line(line) == HeaderLine::Length(n as usize));
    assert(scan_headers(buf, e + 2, e + 2, Some(n as usize)) == Ok::<(Option<usize>, int), FrameError>(
        (Some(n as usize), e + 4),
    ));
    assert(scan_headers(buf, 0, e, None) == scan_headers(buf, e + 2, e + 2, Some(n as usize)));
    assert(buf.subrange(e + 4, e + 4 + n as int) =~= body);
}

/// A frame written for a text body announces exactly the body's length in
/// bytes, and its body is valid UTF-8.
pub proof fn lemma_frame_length(text: Seq<char>)
    ensures
        ({
            let body = encode_utf8(text);
            let f = frame_of(body);
            let d = decimal(body.len());
            let w: int = d.len() as int;
            &&& f.subrange(0, 16) == length_prefix()
            &&& f.subrange(16, 16 + w) == d
            &&& all_digits(d) && digits_value(d) == body.len()
            &&& f.subrange(16 + w, 20 + w) == crlf() + crlf()
            &&& f.subrange(20 + w, f.len() as int) == body
            &&& valid_utf8(body)
        }),
{
    let body = encode_utf8(text);
    let f = frame_of(body);
    let d = decimal(body.len());
    let w: int = d.len() as int;
    lemma_decimal_digits(body.len());
    encode_utf8_valid_utf8(text);
    assert(f.subrange(0, 16) =~= length_prefix());
    assert(f.subrange(16, 16 + w) =~= d);
    assert(f.subrange(16 + w, 20 + w) =~= crlf() + crlf());
    assert(f.subrange(20 + w, f.len() as int) =~= body);
}

} // verus!
