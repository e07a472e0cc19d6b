//! SMTP reply values and their wire rendering (RFC 5321 section 4.2).
//!
//! A reply is a three-digit code, an optional enhanced status code
//! (RFC 2034), and a message of one or more lines.  Rendering emits
//! `CCC-text\r\n` for every line but the last and `CCC text\r\n` for the
//! last; the enhanced status code, when present, follows the numeric code
//! on every line.

use vstd::prelude::*;
use vstd::string::StringSliceAdditionalSpecFns;

verus! {

/// Carriage return octet.
pub const CR: u8 = 13;
/// Line feed octet.
pub const LF: u8 = 10;
/// Space octet.
pub const SP: u8 = 32;
/// Hyphen octet, the continuation separator of multi-line replies.
pub const DASH: u8 = 45;
/// Full stop octet.
pub const DOT: u8 = 46;

/// An RFC 2034 enhanced status code `class.subject.detail`.
#[derive(Clone, Copy, PartialEq, Eq, Structural, Debug)]
pub struct EnhancedCode {
    pub class: u8,
    pub subject: u16,
    pub detail: u16,
}

pub open spec fn valid_ecode(e: EnhancedCode) -> bool {
    &&& 2 <= e.class <= 5
    &&& e.subject <= 999
    &&& e.detail <= 999
}

pub open spec fn valid_ecode_opt(e: Option<EnhancedCode>) -> bool {
    match e {
        Option::Some(c) => valid_ecode(c),
        Option::None => true,
    }
}

/// One SMTP reply: numeric code, optional enhanced status code, and the
/// message split into its lines (no line contains CR or LF).
pub struct Reply {
    pub code: u16,
    pub ecode: Option<EnhancedCode>,
    pub lines: Vec<Vec<u8>>,
}

impl Reply {
    /// The message lines as mathematical sequences.
    pub open spec fn lines_view(&self) -> Seq<Seq<u8>> {
        self.lines.deep_view()
    }

    /// A reply the renderer accepts: a three-digit code, a valid enhanced
    /// status code, and at least one message line, none holding CR or LF.
    pub open spec fn valid(&self) -> bool {
        &&& 200 <= self.code <= 599
        &&& valid_ecode_opt(self.ecode)
        &&& self.lines_view().len() >= 1
        &&& forall|i: int|
            0 <= i < self.lines_view().len() ==> no_crlf_bytes(#[trigger] self.lines_view()[i])
    }
}

/// True when the sequence holds neither CR nor LF.
pub open spec fn no_crlf_bytes(s: Seq<u8>) -> bool {
    forall|i: int| 0 <= i < s.len() ==> s[i] != CR && s[i] != LF
}

/// Splitting a message on LF octets: the lines of `t`, processed left to
/// right; an empty message is one empty line.
pub open spec fn split_nl(t: Seq<u8>) -> Seq<Seq<u8>>
    decreases t.len(),
{
    if t.len() == 0 {
        seq![Seq::<u8>::empty()]
    } else {
        let rest = split_nl(t.drop_last());
        if t.last() == LF {
            rest + seq![Seq::<u8>::empty()]
        } else {
            rest.update(rest.len() - 1, rest.last().push(t.last()))
        }
    }
}

/// The message lines of a reply text: one trailing LF is dropped, then the
/// text is split on LF.
pub open spec fn split_msg(t: Seq<u8>) -> Seq<Seq<u8>> {
    if t.len() > 0 && t.last() == LF {
        split_nl(t.drop_last())
    } else {
        split_nl(t)
    }
}

pub proof fn lemma_split_nl_len(t: Seq<u8>)
    ensures
        split_nl(t).len() >= 1,
    decreases t.len(),
{
    if t.len() > 0 {
        lemma_split_nl_len(t.drop_last());
    }
}

/// Build the byte vector of an ASCII-or-UTF-8 message string.
pub fn bytes_of(s: &str) -> (v: Vec<u8>)
    ensures
        v@ == s.spec_bytes(),
{
    let b = s.as_bytes();
    let mut v: Vec<u8> = Vec::new();
    let mut i: usize = 0;
    while i < b.len()
        invariant
            i <= b@.len(),
            b@ == s.spec_bytes(),
            v@ == b@.take(i as int),
        decreases b@.len() - i,
    {
        v.push(b[i]);
        i = i + 1;
        assert(v@ =~= b@.take(i as int));
    }
    assert(v@ =~= b@);
    v
}

/// Split a message text into its lines, as `split_msg` describes.
fn split_message(t: &Vec<u8>) -> (lines: Vec<Vec<u8>>)
    ensures
        lines.deep_view() == split_msg(t@),
        lines.deep_view().len() >= 1,
{
    let end: usize = if t.len() > 0 && t[t.len() - 1] == LF {
        t.len() - 1
    } else {
        t.len()
    };
    let mut lines: Vec<Vec<u8>> = Vec::new();
    let mut cur: Vec<u8> = Vec::new();
    let mut i: usize = 0;
    while i < end
        invariant
            i <= end <= t@.len(),
            lines.deep_view() + seq![cur@] == split_nl(t@.take(i as int)),
        decreases end - i,
    {
        let c = t[i];
        if c == LF {
            lines.push(cur);
            cur = Vec::new();
        } else {
            cur.push(c);
        }
        i = i + 1;
        proof {
            assert(t@.take(i as int).drop_last() =~= t@.take(i - 1));
            let rest = split_nl(t@.take(i - 1));
            lemma_split_nl_len(t@.take(i - 1));
            if c == LF {
                assert(lines.deep_view() + seq![cur@] =~~= rest + seq![Seq::<u8>::empty()]);
            } else {
                assert(lines.deep_view() + seq![cur@] =~~= rest.update(
                    rest.len() - 1,
                    rest.last().push(c),
                ));
            }
        }
    }
    lines.push(cur);
    proof {
        assert(t@.take(end as int) =~= if t@.len() > 0 && t@.last() == LF {
            t@.drop_last()
        } else {
            t@
        });
        assert(lines.deep_view() =~~= split_nl(t@.take(end as int)));
        lemma_split_nl_len(t@.take(end as int));
    }
    lines
}

impl Reply {
    /// Build a reply from a code, an optional enhanced status code, and a
    /// message whose embedded LF octets separate lines.
    pub fn new(code: u16, ecode: Option<EnhancedCode>, text: &str) -> (r: Reply)
        ensures
            r.code == code,
            r.ecode == ecode,
            r.lines_view() == split_msg(text.spec_bytes()),
            r.lines_view().len() >= 1,
    {
        let bytes = bytes_of(text);
        let lines = split_message(&bytes);
        Reply { code, ecode, lines }
    }

    /// Build a reply directly from its message lines.
    pub fn from_lines(code: u16, ecode: Option<EnhancedCode>, lines: Vec<Vec<u8>>) -> (r: Reply)
        requires
            lines.deep_view().len() >= 1,
        ensures
            r.code == code,
            r.ecode == ecode,
            r.lines_view() == lines.deep_view(),
    {
        Reply { code, ecode, lines }
    }
}

/// The ASCII digit for `n`.
pub open spec fn digit_of(n: int) -> u8 {
    (48 + n) as u8
}

pub open spec fn is_digit(b: u8) -> bool {
    48 <= b <= 57
}

pub open spec fn dval(b: u8) -> int {
    b - 48
}

/// The three digits of a reply code.
pub open spec fn code_digits(c: u16) -> Seq<u8> {
    seq![digit_of(c as int / 100), digit_of((c as int / 10) % 10), digit_of(c as int % 10)]
}

/// The decimal digits of `n < 1000`, without leading zeros.
pub open spec fn dec_digits(n: int) -> Seq<u8> {
    if n >= 100 {
        seq![digit_of(n / 100), digit_of((n / 10) % 10), digit_of(n % 10)]
    } else if n >= 10 {
        seq![digit_of(n / 10), digit_of(n % 10)]
    } else {
        seq![digit_of(n)]
    }
}

/// The rendering of an enhanced status code, followed by a space; empty
/// when absent.
pub open spec fn ecode_bytes(e: Option<EnhancedCode>) -> Seq<u8> {
    match e {
        Option::Some(c) => seq![digit_of(c.class as int), DOT] + dec_digits(c.subject as int)
            + seq![DOT] + dec_digits(c.detail as int) + seq![SP],
        Option::None => Seq::<u8>::empty(),
    }
}

/// One wire line of a rendered reply.
pub open spec fn line_bytes(code: u16, e: Option<EnhancedCode>, line: Seq<u8>, last: bool) -> Seq<
    u8,
> {
    code_digits(code) + seq![if last { SP } else { DASH }] + ecode_bytes(e) + line + seq![CR, LF]
}

/// The rendering of message lines `i..` of a reply.
pub open spec fn render_from(
    code: u16,
    e: Option<EnhancedCode>,
    lines: Seq<Seq<u8>>,
    i: int,
) -> Seq<u8>
    decreases lines.len() - i,
{
    if i < 0 || i >= lines.len() {
        Seq::<u8>::empty()
    } else {
        line_bytes(code, e, lines[i], i == lines.len() - 1) + render_from(code, e, lines, i + 1)
    }
}

/// The full wire rendering of a reply.
pub open spec fn render_reply(r: Reply) -> Seq<u8> {
    render_from(r.code, r.ecode, r.lines_view(), 0)
}

/// Append the three digits of a reply code.
fn push_code(out: &mut Vec<u8>, code: u16)
    requires
        100 <= code <= 999,
    ensures
        final(out)@ == old(out)@ + code_digits(code),
{
    out.push((code / 100) as u8 + 48);
    out.push(((code / 10) % 10) as u8 + 48);
    out.push((code % 10) as u8 + 48);
    assert(final(out)@ =~= old(out)@ + code_digits(code));
}

/// Append the decimal digits of `n < 1000`, without leading zeros.
fn push_dec(out: &mut Vec<u8>, n: u16)
    requires
        n <= 999,
    ensures
        final(out)@ == old(out)@ + dec_digits(n as int),
{
    if n >= 100 {
        out.push((n / 100) as u8 + 48);
        out.push(((n / 10) % 10) as u8 + 48);
        out.push((n % 10) as u8 + 48);
    } else if n >= 10 {
        out.push((n / 10) as u8 + 48);
        out.push((n % 10) as u8 + 48);
    } else {
        out.push(n as u8 + 48);
    }
    assert(final(out)@ =~= old(out)@ + dec_digits(n as int));
}

/// Copy a byte vector.
pub fn clone_bytes(v: &Vec<u8>) -> (r: Vec<u8>)
    ensures
        r@ == v@,
{
    let mut r: Vec<u8> = Vec::new();
    let mut k: usize = 0;
    while k < v.len()
        invariant
            k <= v@.len(),
            r@ == v@.take(k as int),
        decreases v@.len() - k,
    {
        r.push(v[k]);
        k = k + 1;
        assert(r@ =~= v@.take(k as int));
    }
    assert(r@ =~= v@);
    r
}

/// Append the bytes of `src`.
pub fn push_bytes(out: &mut Vec<u8>, src: &Vec<u8>)
    ensures
        final(out)@ == old(out)@ + src@,
{
    let mut i: usize = 0;
    while i < src.len()
        invariant
            i <= src@.len(),
            out@ == old(out)@ + src@.take(i as int),
        decreases src@.len() - i,
    {
        out.push(src[i]);
        i = i + 1;
        assert(out@ =~= old(out)@ + src@.take(i as int));
    }
    assert(final(out)@ =~= old(out)@ + src@);
}

/// Render a reply to its wire bytes.
#[verifier::rlimit(60)]
pub fn render(r: &Reply) -> (out: Vec<u8>)
    requires
        100 <= r.code <= 999,
        valid_ecode_opt(r.ecode),
    ensures
        out@ == render_reply(*r),
{
    let ghost lines = r.lines_view();
    let mut out: Vec<u8> = Vec::new();
    let mut i: usize = 0;
    while i < r.lines.len()
        invariant
            i <= r.lines@.len(),
            lines == r.lines_view(),
            100 <= r.code <= 999,
            valid_ecode_opt(r.ecode),
            out@ + render_from(r.code, r.ecode, lines, i as int) == render_from(
                r.code,
                r.ecode,
                lines,
                0,
            ),
        decreases r.lines@.len() - i,
    {
        let last = i == r.lines.len() - 1;
        let ghost before = out@;
        push_code(&mut out, r.code);
        out.push(if last { SP } else { DASH });
        match &r.ecode {
            Option::Some(c) => {
                out.push(c.class + 48);
                out.push(DOT);
                push_dec(&mut out, c.subject);
                out.push(DOT);
                push_dec(&mut out, c.detail);
                out.push(SP);
            },
            Option::None => {},
        }
        push_bytes(&mut out, &r.lines[i]);
        out.push(CR);
        out.push(LF);
        proof {
            assert(r.lines@[i as int]@ == lines[i as int]);
            assert(out@ =~= before + line_bytes(r.code, r.ecode, lines[i as int], last));
            assert(before + render_from(r.code, r.ecode, lines, i as int) =~= before + line_bytes(
                r.code,
                r.ecode,
                lines[i as int],
                last,
            ) + render_from(r.code, r.ecode, lines, i + 1));
        }
        i = i + 1;
    }
    out
}

/// The number of consecutive ASCII digits in `s` starting at `i`.
pub open spec fn run_len(s: Seq<u8>, i: int) -> int
    decreases s.len() - i,
{
    if 0 <= i < s.len() && is_digit(s[i]) {
        1 + run_len(s, i + 1)
    } else {
        0
    }
}

/// The value of the `l` digits of `s` starting at `i`.
pub open spec fn value_of(s: Seq<u8>, i: int, l: int) -> int
    decreases l,
{
    if l <= 0 {
        0
    } else {
        value_of(s, i, l - 1) * 10 + dval(s[i + l - 1])
    }
}

/// Parsing an enhanced status code starting at position `b` of a reply
/// line: `digit '.' digits '.' digits ' '`, with one to three digits per
/// numeric part.
pub open spec fn parse_ecode_at(s: Seq<u8>, b: int) -> Option<EnhancedCode> {
    if b + 1 >= s.len() || !is_digit(s[b]) || s[b + 1] != DOT {
        Option::None
    } else {
        let l2 = run_len(s, b + 2);
        if l2 < 1 || l2 > 3 || b + 2 + l2 >= s.len() || s[b + 2 + l2] != DOT {
            Option::None
        } else {
            let l3 = run_len(s, b + 3 + l2);
            if l3 < 1 || l3 > 3 || b + 3 + l2 + l3 >= s.len() || s[b + 3 + l2 + l3] != SP {
                Option::None
            } else {
                Option::Some(
                    (EnhancedCode {
                        class: dval(s[b]) as u8,
                        subject: value_of(s, b + 2, l2) as u16,
                        detail: value_of(s, b + 3 + l2, l3) as u16,
                    }),
                )
            }
        }
    }
}

/// Parsing the first wire line of a reply: the three-digit code, the
/// separator, and the optional enhanced status code.
pub open spec fn parse_code_spec(s: Seq<u8>) -> Option<(u16, Option<EnhancedCode>)> {
    if s.len() >= 4 && is_digit(s[0]) && is_digit(s[1]) && is_digit(s[2]) && (s[3] == SP || s[3]
        == DASH) {
        Option::Some(
            (((100 * dval(s[0]) + 10 * dval(s[1]) + dval(s[2])) as u16, parse_ecode_at(s, 4))),
        )
    } else {
        Option::None
    }
}

/// Count the consecutive ASCII digits in `s` starting at `i`.
fn digit_run(s: &Vec<u8>, i: usize) -> (l: usize)
    requires
        i <= s@.len(),
    ensures
        l == run_len(s@, i as int),
        i + l <= s@.len(),
{
    let mut j: usize = i;
    while j < s.len() && s[j] >= 48 && s[j] <= 57
        invariant
            i <= j <= s@.len(),
            run_len(s@, i as int) == j - i + run_len(s@, j as int),
        decreases s@.len() - j,
    {
        j = j + 1;
    }
    j - i
}

/// Read the value of the `l` digits of `s` starting at `i`.
fn digits_value(s: &Vec<u8>, i: usize, l: usize) -> (v: u16)
    requires
        i + l <= s@.len(),
        1 <= l <= 3,
        forall|k: int| i <= k < i + l ==> is_digit(#[trigger] s@[k]),
    ensures
        v == value_of(s@, i as int, l as int),
        v <= 999,
{
    let n = s.len();
    let mut acc: u16 = 0;
    let mut k: usize = 0;
    while k < l
        invariant
            k <= l <= 3,
            i + l <= n == s@.len(),
            forall|m: int| i <= m < i + l ==> is_digit(#[trigger] s@[m]),
            acc == value_of(s@, i as int, k as int),
            acc <= (if k == 0 {
                0int
            } else if k == 1 {
                9int
            } else if k == 2 {
                99int
            } else {
                999int
            }),
        decreases l - k,
    {
        assert(is_digit(s@[i + k]));
        acc = acc * 10 + (s[i + k] - 48) as u16;
        k = k + 1;
    }
    acc
}

/// Parse the first wire line of a rendered reply, recovering the numeric
/// code and the enhanced status code when one is present.
pub fn parse_reply_code(s: &Vec<u8>) -> (r: Option<(u16, Option<EnhancedCode>)>)
    ensures
        r == parse_code_spec(s@),
{
    if s.len() < 4 {
        return Option::None;
    }
    let d0 = s[0];
    let d1 = s[1];
    let d2 = s[2];
    let sep = s[3];
    if !(48 <= d0 && d0 <= 57 && 48 <= d1 && d1 <= 57 && 48 <= d2 && d2 <= 57) {
        return Option::None;
    }
    if sep != SP && sep != DASH {
        return Option::None;
    }
    let code: u16 = 100 * (d0 - 48) as u16 + 10 * (d1 - 48) as u16 + (d2 - 48) as u16;
    Option::Some((code, parse_ecode(s, 4)))
}

/// Parse an enhanced status code starting at position `b`.
fn parse_ecode(s: &Vec<u8>, b: usize) -> (r: Option<EnhancedCode>)
    requires
        b <= s@.len(),
    ensures
        r == parse_ecode_at(s@, b as int),
{
    let n = s.len();
    if b >= n || b + 1 >= n || !(48 <= s[b] && s[b] <= 57) || s[b + 1] != DOT {
        return Option::None;
    }
    let l2 = digit_run(s, b + 2);
    if l2 < 1 || l2 > 3 || b + 2 + l2 >= s.len() || s[b + 2 + l2] != DOT {
        return Option::None;
    }
    proof {
        lemma_run_digits(s@, (b + 2) as int, l2 as int);
    }
    let subject = digits_value(s, b + 2, l2);
    let l3 = digit_run(s, b + 3 + l2);
    if l3 < 1 || l3 > 3 || b + 3 + l2 + l3 >= s.len() || s[b + 3 + l2 + l3] != SP {
        return Option::None;
    }
    proof {
        lemma_run_digits(s@, (b + 3 + l2) as int, l3 as int);
    }
    let detail = digits_value(s, b + 3 + l2, l3);
    Option::Some(EnhancedCode { class: s[b] - 48, subject, detail })
}

/// A run of `l` digits followed by a non-digit has run length exactly `l`.
proof fn lemma_run_len_exact(s: Seq<u8>, i: int, l: int)
    requires
        0 <= i,
        0 <= l,
        i + l < s.len(),
        forall|k: int| i <= k < i + l ==> is_digit(#[trigger] s[k]),
        !is_digit(s[i + l]),
    ensures
        run_len(s, i) == l,
    decreases l,
{
    if l > 0 {
        lemma_run_len_exact(s, i + 1, l - 1);
    }
}

/// The decimal rendering of `n` is one to three digit octets.
proof fn lemma_dec_digits_props(n: int)
    requires
        0 <= n <= 999,
    ensures
        1 <= dec_digits(n).len() <= 3,
        forall|k: int| 0 <= k < dec_digits(n).len() ==> is_digit(#[trigger] dec_digits(n)[k]),
{
}

/// Reading back the digits of the decimal rendering of `n`, embedded in
/// `s` at position `i`, yields `n`.
proof fn lemma_value_of_dec(s: Seq<u8>, i: int, n: int)
    requires
        0 <= n <= 999,
        0 <= i,
        i + dec_digits(n).len() <= s.len(),
        forall|k: int| 0 <= k < dec_digits(n).len() ==> s[i + k] == dec_digits(n)[k],
    ensures
        value_of(s, i, dec_digits(n).len() as int) == n,
{
    reveal_with_fuel(value_of, 4);
    let d = dec_digits(n);
    if n >= 100 {
        assert(s[i] == digit_of(n / 100) && s[i + 1] == digit_of((n / 10) % 10) && s[i + 2]
            == digit_of(n % 10));
        assert(value_of(s, i, 1) == dval(s[i]));
        assert(value_of(s, i, 2) == dval(s[i]) * 10 + dval(s[i + 1]));
        assert(value_of(s, i, 3) == (dval(s[i]) * 10 + dval(s[i + 1])) * 10 + dval(s[i + 2]));
        assert(d.len() == 3);
        assert(dval(s[i]) == n / 100 && dval(s[i + 1]) == (n / 10) % 10 && dval(s[i + 2]) == n
            % 10);
        assert((n / 100) * 100 + ((n / 10) % 10) * 10 + n % 10 == n);
        assert(value_of(s, i, 3) == n);
    } else if n >= 10 {
        assert(s[i] == digit_of(n / 10) && s[i + 1] == digit_of(n % 10));
        assert(value_of(s, i, 2) == dval(s[i]) * 10 + dval(s[i + 1]));
        assert(d.len() == 2);
        assert(dval(s[i]) == n / 10 && dval(s[i + 1]) == n % 10);
        assert((n / 10) * 10 + n % 10 == n);
        assert(value_of(s, i, 2) == n);
    } else {
        assert(value_of(s, i, 1) == dval(s[i]));
        assert(d.len() == 1);
        assert(s[i + 0] == d[0]);
        assert(dval(s[i]) == n);
    }
}

/// Rendering a reply and then parsing the first wire line of the result
/// recovers the numeric code and the enhanced status code.  When no
/// enhanced status code is present, the first message line must not begin
/// with a digit, lest its text be read as one.
pub proof fn lemma_render_parse(r: Reply)
    requires
        r.valid(),
        r.ecode matches Option::None ==> (r.lines_view()[0].len() == 0 || !is_digit(
            r.lines_view()[0][0],
        )),
    ensures
        parse_code_spec(render_reply(r)) == Option::Some((r.code, r.ecode)),
{
    let lines = r.lines_view();
    let l0 = lines[0];
    let last = lines.len() == 1;
    let c = r.code as int;
    let cd = code_digits(r.code);
    let sepb = seq![if last { SP } else { DASH }];
    let eb = ecode_bytes(r.ecode);
    let rest = render_from(r.code, r.ecode, lines, 1);
    let s = render_reply(r);
    assert(s == line_bytes(r.code, r.ecode, l0, last) + rest);
    assert(s =~= cd + sepb + eb + l0 + seq![CR, LF] + rest);
    assert(s[0] == digit_of(c / 100) && s[1] == digit_of((c / 10) % 10) && s[2] == digit_of(
        c % 10,
    ));
    assert(is_digit(s[0]) && is_digit(s[1]) && is_digit(s[2]));
    assert(s[3] == SP || s[3] == DASH);
    assert(100 * dval(s[0]) + 10 * dval(s[1]) + dval(s[2]) == c) by {
        assert((c / 100) * 100 + ((c / 10) % 10) * 10 + c % 10 == c);
    }
    match r.ecode {
        Option::None => {
            assert(eb.len() == 0);
            if l0.len() == 0 {
                assert(s[4] == CR);
            } else {
                assert(s[4] == l0[0]);
            }
            assert(!is_digit(s[4]));
            assert(parse_ecode_at(s, 4) matches Option::None);
        },
        Option::Some(ec) => {
            let ds = dec_digits(ec.subject as int);
            let dd = dec_digits(ec.detail as int);
            let l2 = ds.len() as int;
            let l3 = dd.len() as int;
            lemma_dec_digits_props(ec.subject as int);
            lemma_dec_digits_props(ec.detail as int);
            assert(eb =~= seq![digit_of(ec.class as int), DOT] + ds + seq![DOT] + dd + seq![SP]);
            assert(s[4] == digit_of(ec.class as int));
            assert(s[5] == DOT);
            assert(forall|k: int| 0 <= k < l2 ==> s[6 + k] == #[trigger] ds[k]);
            assert(s[6 + l2] == DOT);
            assert(forall|k: int| 0 <= k < l3 ==> s[7 + l2 + k] == #[trigger] dd[k]);
            assert(s[7 + l2 + l3] == SP);
            assert(forall|k: int| 6 <= k < 6 + l2 ==> is_digit(#[trigger] s[k]));
            lemma_run_len_exact(s, 6, l2);
            assert(forall|k: int| 7 + l2 <= k < 7 + l2 + l3 ==> is_digit(#[trigger] s[k]));
            lemma_run_len_exact(s, 7 + l2, l3);
            lemma_value_of_dec(s, 6, ec.subject as int);
            lemma_value_of_dec(s, 7 + l2, ec.detail as int);
            assert(parse_ecode_at(s, 4) == Option::Some(ec));
        },
    }
}

/// The bytes inside a digit run are digits.
proof fn lemma_run_digits(s: Seq<u8>, i: int, l: int)
    requires
        0 <= i,
        i + l <= s.len(),
        l <= run_len(s, i),
    ensures
        forall|k: int| i <= k < i + l ==> is_digit(#[trigger] s[k]),
    decreases l,
{
    if l > 0 {
        lemma_run_digits(s, i + 1, l - 1);
    }
}

} // verus!
