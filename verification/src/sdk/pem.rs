//! PEM framing for DER certificates published into a resource status.
use vstd::prelude::*;
use base64::Engine;
use crate::text::{owned, push_char, substring_of, chars_of};

verus! {

/// The line width of a PEM body (RFC 7468).
pub const PEM_LINE_WIDTH: usize = 64;

pub const PEM_BEGIN: &'static str = "-----BEGIN CERTIFICATE-----\n";

pub const PEM_END: &'static str = "-----END CERTIFICATE-----\n";

/// The character of a 6-bit value in the standard base64 alphabet
/// (RFC 4648): `A`–`Z`, `a`–`z`, `0`–`9`, `+`, `/`.
pub open spec fn b64_digit(v: int) -> char {
    if v < 26 {
        ('A' as int + v) as char
    } else if v < 52 {
        ('a' as int + (v - 26)) as char
    } else if v < 62 {
        ('0' as int + (v - 52)) as char
    } else if v == 62 {
        '+'
    } else {
        '/'
    }
}

/// The 6-bit value of a character of the standard base64 alphabet.
pub open spec fn b64_value(c: char) -> int {
    if 'A' <= c && c <= 'Z' {
        c as int - 'A' as int
    } else if 'a' <= c && c <= 'z' {
        c as int - 'a' as int + 26
    } else if '0' <= c && c <= '9' {
        c as int - '0' as int + 52
    } else if c == '+' {
        62
    } else {
        63
    }
}

/// Standard base64 with `=` padding (RFC 4648): each group of three bytes
/// becomes four characters; a last group of one or two bytes is padded to
/// four characters with `=`.
pub open spec fn base64_standard(bytes: Seq<u8>) -> Seq<char>
    decreases bytes.len(),
{
    if bytes.len() == 0 {
        Seq::empty()
    } else if bytes.len() == 1 {
        let a = bytes[0] as int;
        seq![b64_digit(a / 4), b64_digit((a % 4) * 16), '=', '=']
    } else if bytes.len() == 2 {
        let a = bytes[0] as int;
        let b = bytes[1] as int;
        seq![b64_digit(a / 4), b64_digit((a % 4) * 16 + b / 16), b64_digit((b % 16) * 4), '=']
    } else {
        let a = bytes[0] as int;
        let b = bytes[1] as int;
        let c = bytes[2] as int;
        seq![
            b64_digit(a / 4),
            b64_digit((a % 4) * 16 + b / 16),
            b64_digit((b % 16) * 4 + c / 64),
            b64_digit(c % 64),
        ] + base64_standard(bytes.skip(3))
    }
}

/// Decoding standard padded base64, group by group.
pub open spec fn base64_decode(s: Seq<char>) -> Seq<u8>
    decreases s.len(),
{
    if s.len() < 4 {
        Seq::empty()
    } else {
        let v0 = b64_value(s[0]);
        let v1 = b64_value(s[1]);
        let v2 = b64_value(s[2]);
        let v3 = b64_value(s[3]);
        let b0 = (v0 * 4 + v1 / 16) as u8;
        let b1 = ((v1 % 16) * 16 + v2 / 4) as u8;
        let b2 = ((v2 % 4) * 64 + v3) as u8;
        if s[2] == '=' {
            seq![b0]
        } else if s[3] == '=' {
            seq![b0, b1]
        } else {
            seq![b0, b1, b2] + base64_decode(s.skip(4))
        }
    }
}

proof fn lemma_b64_digit(v: int)
    requires
        0 <= v < 64,
    ensures
        b64_value(b64_digit(v)) == v,
        b64_digit(v) != '=',
        b64_digit(v) != '\n',
{
}

proof fn lemma_group_bytes(a: int, b: int, c: int)
    requires
        0 <= a < 256,
        0 <= b < 256,
        0 <= c < 256,
    ensures
        0 <= a / 4 < 64,
        0 <= (a % 4) * 16 + b / 16 < 64,
        0 <= (b % 16) * 4 + c / 64 < 64,
        0 <= c % 64 < 64,
        (a / 4) * 4 + ((a % 4) * 16 + b / 16) / 16 == a,
        (((a % 4) * 16 + b / 16) % 16) * 16 + ((b % 16) * 4 + c / 64) / 4 == b,
        (((b % 16) * 4 + c / 64) % 4) * 64 + c % 64 == c,
{
    assert(0 <= b / 16 < 16);
    assert(0 <= c / 64 < 4);
    assert(((a % 4) * 16 + b / 16) / 16 == a % 4);
    assert(((a % 4) * 16 + b / 16) % 16 == b / 16);
    assert(((b % 16) * 4 + c / 64) / 4 == b % 16);
    assert(((b % 16) * 4 + c / 64) % 4 == c / 64);
}

/// Decoding what was encoded gives the bytes back.
pub proof fn lemma_base64_round_trip(bytes: Seq<u8>)
    ensures
        base64_decode(base64_standard(bytes)) == bytes,
        forall|i: int| 0 <= i < base64_standard(bytes).len() ==> #[trigger] base64_standard(bytes)[i] != '\n',
    decreases bytes.len(),
{
    let s = base64_standard(bytes);
    if bytes.len() == 0 {
    } else if bytes.len() <= 2 {
        let a = bytes[0] as int;
        let b: int = if bytes.len() == 2 { bytes[1] as int } else { 0 };
        lemma_group_bytes(a, b, 0);
        lemma_b64_digit(a / 4);
        lemma_b64_digit((a % 4) * 16 + b / 16);
        lemma_b64_digit((b % 16) * 4);
        if bytes.len() == 1 {
            assert(base64_decode(s) =~= bytes);
        } else {
            assert(base64_decode(s) =~= bytes);
        }
    } else {
        let a = bytes[0] as int;
        let b = bytes[1] as int;
        let c = bytes[2] as int;
        lemma_group_bytes(a, b, c);
        lemma_b64_digit(a / 4);
        lemma_b64_digit((a % 4) * 16 + b / 16);
        lemma_b64_digit((b % 16) * 4 + c / 64);
        lemma_b64_digit(c % 64);
        let rest = bytes.skip(3);
        lemma_base64_round_trip(rest);
        assert(s.skip(4) =~= base64_standard(rest));
        assert(seq![bytes[0], bytes[1], bytes[2]] + rest =~= bytes);
        assert forall|i: int| 0 <= i < s.len() implies #[trigger] s[i] != '\n' by {
            if i >= 4 {
                assert(s[i] == base64_standard(rest)[i - 4]);
            }
        }
    }
}

/// `STANDARD.encode(bytes)` of the base64 crate.
///
/// Trusted: the `STANDARD` engine encodes with the RFC 4648 alphabet and
/// `=` padding, which [`base64_standard`] spells out, so its length is four
/// characters per started group of three bytes, as the crate's
/// `encoded_len` computes. The encode call panics when that length does not
/// fit in `usize`, which the `requires` rules out.
#[verifier::external_body]
pub(crate) fn encode_base64(bytes: &[u8]) -> (r: String)
    requires
        4 * ((bytes@.len() + 2) / 3) <= usize::MAX,
    ensures
        r@ == base64_standard(bytes@),
        r@.len() == 4 * ((bytes@.len() + 2) / 3),
{
    base64::engine::general_purpose::STANDARD.encode(bytes)
}

/// `s` with its newlines taken out.
pub open spec fn without_newlines(s: Seq<char>) -> Seq<char>
    decreases s.len(),
{
    if s.len() == 0 {
        Seq::empty()
    } else if s.last() == '\n' {
        without_newlines(s.drop_last())
    } else {
        without_newlines(s.drop_last()).push(s.last())
    }
}

proof fn lemma_without_newlines_concat(x: Seq<char>, y: Seq<char>)
    ensures
        without_newlines(x + y) == without_newlines(x) + without_newlines(y),
    decreases y.len(),
{
    if y.len() == 0 {
        assert(x + y =~= x);
        assert(without_newlines(x) + without_newlines(y) =~= without_newlines(x));
    } else {
        lemma_without_newlines_concat(x, y.drop_last());
        assert((x + y).drop_last() =~= x + y.drop_last());
        assert((x + y).last() == y.last());
        assert(without_newlines(x + y) =~= without_newlines(x) + without_newlines(y));
    }
}

proof fn lemma_without_newlines_plain(s: Seq<char>)
    requires
        forall|i: int| 0 <= i < s.len() ==> #[trigger] s[i] != '\n',
    ensures
        without_newlines(s) == s,
    decreases s.len(),
{
    if s.len() > 0 {
        let s1 = s.drop_last();
        assert forall|i: int| 0 <= i < s1.len() implies #[trigger] s1[i] != '\n' by {
            assert(s1[i] == s[i]);
        }
        lemma_without_newlines_plain(s1);
        assert(s[s.len() - 1] != '\n');
        assert(s1.push(s.last()) =~= s);
    }
}

proof fn lemma_unwrap_lines(b: Seq<char>)
    requires
        forall|i: int| 0 <= i < b.len() ==> #[trigger] b[i] != '\n',
    ensures
        without_newlines(wrap_lines(b)) == b,
    decreases b.len(),
{
    if b.len() == 0 {
    } else if b.len() <= PEM_LINE_WIDTH {
        lemma_without_newlines_plain(b);
        assert(b.push('\n').drop_last() =~= b);
    } else {
        let head = b.take(PEM_LINE_WIDTH as int);
        let tail = b.skip(PEM_LINE_WIDTH as int);
        assert forall|i: int| 0 <= i < head.len() implies #[trigger] head[i] != '\n' by {
            assert(head[i] == b[i]);
        }
        assert forall|i: int| 0 <= i < tail.len() implies #[trigger] tail[i] != '\n' by {
            assert(tail[i] == b[i + PEM_LINE_WIDTH]);
        }
        lemma_unwrap_lines(tail);
        lemma_without_newlines_plain(head);
        lemma_without_newlines_concat(head.push('\n'), wrap_lines(tail));
        assert(head.push('\n').drop_last() =~= head);
        assert(head + tail =~= b);
    }
}

/// `b` cut into lines of `PEM_LINE_WIDTH` characters, the last one possibly
/// shorter, each ended by a newline; nothing for an empty `b`.
pub open spec fn wrap_lines(b: Seq<char>) -> Seq<char>
    decreases b.len(),
{
    if b.len() == 0 {
        Seq::empty()
    } else if b.len() <= PEM_LINE_WIDTH {
        b.push('\n')
    } else {
        b.take(PEM_LINE_WIDTH as int).push('\n') + wrap_lines(b.skip(PEM_LINE_WIDTH as int))
    }
}

/// The PEM text of a base64 body.
pub open spec fn pem_text(body: Seq<char>) -> Seq<char> {
    PEM_BEGIN@ + wrap_lines(body) + PEM_END@
}

/// Encode a DER certificate as PEM: the certificate markers around its
/// base64, cut into lines of 64 characters.
pub fn der_to_pem(der: &[u8]) -> (r: String)
    requires
        4 * ((der@.len() + 2) / 3) <= usize::MAX,
    ensures
        r@ == pem_text(base64_standard(der@)),
{
    let b64 = encode_base64(der);
    let b = chars_of(b64.as_str());
    let ghost body = b@;
    let mut out = owned(PEM_BEGIN);
    let mut i: usize = 0;
    proof {
        assert(body.skip(0) =~= body);
    }
    while i < b.len()
        invariant
            i <= b.len(),
            body == b@,
            out@ + wrap_lines(body.skip(i as int)) == PEM_BEGIN@ + wrap_lines(body),
        decreases b.len() - i,
    {
        let end = if b.len() - i <= PEM_LINE_WIDTH {
            b.len()
        } else {
            i + PEM_LINE_WIDTH
        };
        let line = substring_of(&b, i, end);
        let ghost before = out@;
        out.append(line.as_str());
        push_char(&mut out, '\n');
        proof {
            let rest = body.skip(i as int);
            assert(line@ == body.subrange(i as int, end as int));
            if b.len() - i <= PEM_LINE_WIDTH {
                assert(rest =~= body.subrange(i as int, end as int));
                assert(body.skip(end as int) =~= Seq::<char>::empty());
                assert(wrap_lines(rest) == rest.push('\n'));
                assert(out@ =~= before + rest.push('\n'));
            } else {
                assert(rest.take(PEM_LINE_WIDTH as int) =~= body.subrange(i as int, end as int));
                assert(rest.skip(PEM_LINE_WIDTH as int) =~= body.skip(end as int));
                assert(out@ =~= before + rest.take(PEM_LINE_WIDTH as int).push('\n'));
            }
            assert(out@ + wrap_lines(body.skip(end as int)) =~= before + wrap_lines(rest));
        }
        i = end;
    }
    proof {
        assert(body.skip(b.len() as int) =~= Seq::<char>::empty());
        assert(out@ + wrap_lines(body.skip(i as int)) =~= out@);
    }
    out.append(PEM_END);
    out
}

/// The base64 body of a certificate's PEM text, its line breaks taken out,
/// decodes back to the certificate's DER bytes.
pub proof fn lemma_pem_round_trip(der: Seq<u8>)
    ensures
        base64_decode(without_newlines(wrap_lines(base64_standard(der)))) == der,
{
    lemma_base64_round_trip(der);
    lemma_unwrap_lines(base64_standard(der));
}

/// The body lines of `b`: pieces of `PEM_LINE_WIDTH` characters, the last
/// one possibly shorter; none for an empty `b`.
pub open spec fn body_lines(b: Seq<char>) -> Seq<Seq<char>>
    decreases b.len(),
{
    if b.len() == 0 {
        Seq::empty()
    } else if b.len() <= PEM_LINE_WIDTH {
        seq![b]
    } else {
        seq![b.take(PEM_LINE_WIDTH as int)] + body_lines(b.skip(PEM_LINE_WIDTH as int))
    }
}

/// Each line followed by a newline.
pub open spec fn lines_text(ls: Seq<Seq<char>>) -> Seq<char>
    decreases ls.len(),
{
    if ls.len() == 0 {
        Seq::empty()
    } else {
        ls[0].push('\n') + lines_text(ls.drop_first())
    }
}

/// Somewhere in `s` a newline directly follows another: an empty line.
pub open spec fn has_empty_line(s: Seq<char>) -> bool {
    exists|i: int| 0 <= i && i + 1 < s.len() && #[trigger] s[i] == '\n' && s[i + 1] == '\n'
}

pub open spec fn no_newline(s: Seq<char>) -> bool {
    forall|i: int| 0 <= i < s.len() ==> #[trigger] s[i] != '\n'
}

proof fn lemma_no_empty_line_concat(x: Seq<char>, y: Seq<char>)
    requires
        !has_empty_line(x),
        !has_empty_line(y),
        x.len() > 0 && y.len() > 0 ==> !(x.last() == '\n' && y[0] == '\n'),
    ensures
        !has_empty_line(x + y),
{
    let w = x + y;
    if has_empty_line(w) {
        let i = choose|i: int| 0 <= i && i + 1 < w.len() && #[trigger] w[i] == '\n' && w[i + 1] == '\n';
        if i + 1 < x.len() {
            assert(x[i] == '\n' && x[i + 1] == '\n');
        } else if i >= x.len() {
            assert(y[i - x.len()] == '\n' && y[i - x.len() + 1] == '\n');
        } else {
            assert(x.last() == w[i]);
            assert(y[0] == w[i + 1]);
        }
    }
}

/// The body cut into lines: the text is the lines each followed by a
/// newline, every line but the last holds `PEM_LINE_WIDTH` characters and
/// the last between one and `PEM_LINE_WIDTH`, and with a body free of
/// newlines no line is empty.
proof fn lemma_wrap_shape(b: Seq<char>)
    requires
        no_newline(b),
    ensures
        wrap_lines(b) == lines_text(body_lines(b)),
        forall|i: int|
            0 <= i < body_lines(b).len() - 1 ==> (#[trigger] body_lines(b)[i]).len() == PEM_LINE_WIDTH,
        body_lines(b).len() > 0 ==> 1 <= body_lines(b).last().len() <= PEM_LINE_WIDTH,
        body_lines(b).len() > 0 <==> b.len() > 0,
        !has_empty_line(wrap_lines(b)),
        wrap_lines(b).len() > 0 ==> wrap_lines(b)[0] != '\n' && wrap_lines(b).last() == '\n',
    decreases b.len(),
{
    if b.len() == 0 {
        assert(lines_text(body_lines(b)) =~= Seq::<char>::empty());
    } else if b.len() <= PEM_LINE_WIDTH {
        let ls = body_lines(b);
        assert(ls.drop_first() =~= Seq::<Seq<char>>::empty());
        assert(ls[0] == b);
        assert(lines_text(ls.drop_first()) == Seq::<char>::empty());
        assert(lines_text(ls) =~= b.push('\n'));
        assert(!has_empty_line(b.push('\n'))) by {
            let w = b.push('\n');
            if has_empty_line(w) {
                let i = choose|i: int| 0 <= i && i + 1 < w.len() && #[trigger] w[i] == '\n' && w[i + 1] == '\n';
                assert(w[i] == b[i]);
            }
        }
        assert(b.push('\n')[0] == b[0]);
    } else {
        let head = b.take(PEM_LINE_WIDTH as int);
        let tail = b.skip(PEM_LINE_WIDTH as int);
        assert forall|i: int| 0 <= i < tail.len() implies #[trigger] tail[i] != '\n' by {
            assert(tail[i] == b[i + PEM_LINE_WIDTH]);
        }
        lemma_wrap_shape(tail);
        let ls = body_lines(b);
        let lt = body_lines(tail);
        assert(ls.drop_first() =~= lt);
        assert(ls[0] == head);
        assert forall|i: int| 0 <= i < ls.len() - 1 implies (#[trigger] ls[i]).len() == PEM_LINE_WIDTH by {
            if i > 0 {
                assert(ls[i] == lt[i - 1]);
            }
        }
        assert(ls.last() == lt.last());
        let hl = head.push('\n');
        assert(!has_empty_line(hl)) by {
            if has_empty_line(hl) {
                let i = choose|i: int| 0 <= i && i + 1 < hl.len() && #[trigger] hl[i] == '\n' && hl[i + 1] == '\n';
                assert(hl[i] == b[i]);
            }
        }
        assert(wrap_lines(tail)[0] == tail[0]) by {
            let tl = body_lines(tail);
            assert(tl.len() > 0);
        }
        lemma_no_empty_line_concat(hl, wrap_lines(tail));
        assert(hl[0] == b[0]);
        assert((hl + wrap_lines(tail)).last() == wrap_lines(tail).last());
    }
}

/// A certificate's PEM text opens with the begin marker and closes with the
/// end marker; its body lines hold `PEM_LINE_WIDTH` characters each but the
/// last, which holds between one and `PEM_LINE_WIDTH`; no line is empty;
/// and the body lines, joined, decode back to the DER bytes.
pub proof fn lemma_pem_shape(der: Seq<u8>)
    ensures
        pem_text(base64_standard(der)) == PEM_BEGIN@ + lines_text(body_lines(base64_standard(der)))
            + PEM_END@,
        forall|i: int|
            0 <= i < body_lines(base64_standard(der)).len() - 1 ==> (#[trigger] body_lines(
                base64_standard(der),
            )[i]).len() == PEM_LINE_WIDTH,
        body_lines(base64_standard(der)).len() > 0 ==> 1 <= body_lines(base64_standard(der)).last().len()
            <= PEM_LINE_WIDTH,
        !has_empty_line(pem_text(base64_standard(der))),
        base64_decode(without_newlines(wrap_lines(base64_standard(der)))) == der,
{
    let b = base64_standard(der);
    lemma_base64_round_trip(der);
    lemma_unwrap_lines(b);
    lemma_wrap_shape(b);
    reveal_strlit("-----BEGIN CERTIFICATE-----\n");
    reveal_strlit("-----END CERTIFICATE-----\n");
    let begin = PEM_BEGIN@;
    let end = PEM_END@;
    assert(!has_empty_line(begin)) by {
        if has_empty_line(begin) {
            let i = choose|i: int| 0 <= i && i + 1 < begin.len() && #[trigger] begin[i] == '\n' && begin[i + 1] == '\n';
        }
    }
    assert(!has_empty_line(end)) by {
        if has_empty_line(end) {
            let i = choose|i: int| 0 <= i && i + 1 < end.len() && #[trigger] end[i] == '\n' && end[i + 1] == '\n';
        }
    }
    let w = wrap_lines(b);
    lemma_no_empty_line_concat(begin, w);
    if w.len() > 0 {
        assert((begin + w).last() == w.last());
    } else {
        assert(begin + w =~= begin);
    }
    lemma_no_empty_line_concat(begin + w, end);
}

} // verus!
