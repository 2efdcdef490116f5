use vstd::prelude::*;

verus! {

/// How messages are delimited on a stream. A deployment picks one style and
/// writes in the style it reads.
#[derive(Debug, Clone, Copy, PartialEq, Eq, Structural)]
pub enum Framing {
    /// One message per line.
    Newline,
    /// `Content-Length: N`, a blank line, then exactly N bytes of body.
    Header,
}

/// What the reader does after one header line.
#[derive(Debug, PartialEq, Eq)]
pub enum HeaderStep {
    /// Read another header line; the length announced so far, if any.
    More(Option<usize>),
    /// The headers are over: read exactly this many bytes of body.
    Body(usize),
    /// The header block cannot be read.
    Malformed,
}

pub open spec fn is_digit(b: u8) -> bool {
    48 <= b <= 57
}

pub open spec fn all_digits(s: Seq<u8>) -> bool {
    forall|i: int| 0 <= i < s.len() ==> is_digit(#[trigger] s[i])
}

/// The number that the decimal digits `s` write.
pub open spec fn decimal_value(s: Seq<u8>) -> nat
    decreases s.len(),
{
    if s.len() == 0 {
        0
    } else {
        decimal_value(s.drop_last()) * 10 + (s.last() - 48) as nat
    }
}

/// The shortest decimal writing of `n`.
pub open spec fn decimal(n: nat) -> Seq<u8>
    decreases n,
{
    if n < 10 {
        seq![(48 + n) as u8]
    } else {
        decimal(n / 10).push((48 + n % 10) as u8)
    }
}

/// `Content-Length: ` as bytes.
pub open spec fn length_prefix() -> Seq<u8> {
    seq![67u8, 111, 110, 116, 101, 110, 116, 45, 76, 101, 110, 103, 116, 104, 58, 32]
}

pub open spec fn crlf() -> Seq<u8> {
    seq![13u8, 10]
}

/// A line without its `\n` or `\r\n` ending.
pub open spec fn line_content(line: Seq<u8>) -> Seq<u8> {
    if line.len() >= 2 && line[line.len() - 2] == 13 && line[line.len() - 1] == 10 {
        line.subrange(0, line.len() - 2)
    } else if line.len() >= 1 && line[line.len() - 1] == 10 {
        line.drop_last()
    } else {
        line
    }
}

/// The length that a header line announces, if it is a `Content-Length`
/// line with a non-empty run of digits.
pub open spec fn announced_length(line: Seq<u8>) -> Option<nat> {
    let c = line_content(line);
    let p = length_prefix().len();
    if c.len() > p && c.subrange(0, p as int) == length_prefix() && all_digits(c.subrange(p as int, c.len() as int)) {
        Some(decimal_value(c.subrange(p as int, c.len() as int)))
    } else {
        None
    }
}

/// The step after reading `line` with the length `seen` announced so far.
pub open spec fn header_step_spec(seen: Option<usize>, line: Seq<u8>) -> HeaderStep {
    if line_content(line).len() == 0 {
        match seen {
            Some(n) => HeaderStep::Body(n),
            None => HeaderStep::Malformed,
        }
    } else if line_content(line).len() > length_prefix().len()
        && line_content(line).subrange(0, length_prefix().len() as int) == length_prefix() {
        match announced_length(line) {
            Some(n) => if n <= usize::MAX {
                HeaderStep::More(Some(n as usize))
            } else {
                HeaderStep::Malformed
            },
            None => HeaderStep::Malformed,
        }
    } else {
        HeaderStep::More(seen)
    }
}

/// The bytes written for `body` in the given style.
pub open spec fn framed(body: Seq<u8>, style: Framing) -> Seq<u8> {
    match style {
        Framing::Newline => body.push(10),
        Framing::Header => length_prefix() + decimal(body.len()) + crlf() + crlf() + body,
    }
}

fn length_prefix_bytes() -> (r: Vec<u8>)
    ensures
        r@ == length_prefix(),
{
    let r = vec![67u8, 111, 110, 116, 101, 110, 116, 45, 76, 101, 110, 103, 116, 104, 58, 32];
    assert(r@ =~= length_prefix());
    r
}

/// The end of the content of `line`, before its line ending.
fn content_end(line: &Vec<u8>) -> (r: usize)
    ensures
        r <= line@.len(),
        line@.subrange(0, r as int) == line_content(line@),
{
    let n = line.len();
    if n >= 2 && line[n - 2] == 13 && line[n - 1] == 10 {
        n - 2
    } else if n >= 1 && line[n - 1] == 10 {
        assert(line@.subrange(0, n - 1) =~= line@.drop_last());
        n - 1
    } else {
        assert(line@.subrange(0, n as int) =~= line@);
        n
    }
}

proof fn lemma_decimal_value_push(s: Seq<u8>, d: u8)
    ensures
        decimal_value(s.push(d)) == decimal_value(s) * 10 + (d - 48) as nat,
{
    assert(s.push(d).drop_last() =~= s);
}

/// The value of the digits `line[from..to]`, or `None` when it does not fit
/// in `usize`.
fn parse_decimal(line: &Vec<u8>, from: usize, to: usize) -> (r: Option<usize>)
    requires
        from <= to <= line@.len(),
        all_digits(line@.subrange(from as int, to as int)),
    ensures
        r matches Some(n) ==> n == decimal_value(line@.subrange(from as int, to as int)),
        r is None ==> decimal_value(line@.subrange(from as int, to as int)) > usize::MAX,
{
    let mut acc: usize = 0;
    let mut i: usize = from;
    assert(line@.subrange(from as int, from as int) =~= Seq::<u8>::empty());
    while i < to
        invariant
            from <= i <= to <= line@.len(),
            all_digits(line@.subrange(from as int, to as int)),
            acc == decimal_value(line@.subrange(from as int, i as int)),
        decreases to - i,
    {
        let ghost before = line@.subrange(from as int, i as int);
        assert(line@.subrange(from as int, i + 1) =~= before.push(line@[i as int]));
        assert(is_digit(line@.subrange(from as int, to as int)[i - from]));
        let d = line[i] - 48;
        proof {
            lemma_decimal_value_push(before, line@[i as int]);
        }
        if acc > (usize::MAX - d as usize) / 10 {
            proof {
                lemma_decimal_rest_grows(line@, from as int, i as int + 1, to as int);
            }
            return None;
        }
        acc = acc * 10 + d as usize;
        i = i + 1;
    }
    Some(acc)
}

proof fn lemma_decimal_rest_grows(s: Seq<u8>, from: int, mid: int, to: int)
    requires
        0 <= from <= mid <= to <= s.len(),
    ensures
        decimal_value(s.subrange(from, to)) >= decimal_value(s.subrange(from, mid)),
    decreases to - mid,
{
    if mid < to {
        lemma_decimal_rest_grows(s, from, mid, to - 1);
        assert(s.subrange(from, to).drop_last() =~= s.subrange(from, to - 1));
    }
}

/// Reads one header line (as received, with its line ending) given the
/// length announced so far.
pub fn header_step(seen: Option<usize>, line: &Vec<u8>) -> (r: HeaderStep)
    ensures
        r == header_step_spec(seen, line@),
{
    let end = content_end(line);
    if end == 0 {
        return match seen {
            Some(n) => HeaderStep::Body(n),
            None => HeaderStep::Malformed,
        };
    }
    let prefix = length_prefix_bytes();
    let p = prefix.len();
    if end <= p {
        return HeaderStep::More(seen);
    }
    let mut i: usize = 0;
    while i < p
        invariant
            p == prefix@.len() == length_prefix().len(),
            prefix@ == length_prefix(),
            end <= line@.len(),
            p < end,
            i <= p,
            line@.subrange(0, end as int) == line_content(line@),
            forall|j: int| 0 <= j < i ==> line@[j] == prefix@[j],
        decreases p - i,
    {
        if line[i] != prefix[i] {
            assert(line@.subrange(0, end as int).subrange(0, p as int)[i as int] != length_prefix()[i as int]);
            return HeaderStep::More(seen);
        }
        i = i + 1;
    }
    assert(line_content(line@).subrange(0, p as int) =~= length_prefix());
    let mut k: usize = p;
    while k < end
        invariant
            p <= k <= end <= line@.len(),
            p == length_prefix().len(),
            line@.subrange(0, end as int) == line_content(line@),
            line_content(line@).subrange(0, p as int) == length_prefix(),
            all_digits(line@.subrange(p as int, k as int)),
        decreases end - k,
    {
        if line[k] < 48 || line[k] > 57 {
            assert(line_content(line@).subrange(p as int, end as int)[k - p] == line@[k as int]);
            return HeaderStep::Malformed;
        }
        assert(line@.subrange(p as int, k + 1) =~= line@.subrange(p as int, k as int).push(line@[k as int]));
        k = k + 1;
    }
    assert(line_content(line@).subrange(p as int, end as int) =~= line@.subrange(p as int, end as int));
    match parse_decimal(line, p, end) {
        Some(n) => HeaderStep::More(Some(n)),
        None => HeaderStep::Malformed,
    }
}

/// The body that a line carries in newline framing: the line without its
/// ending.
pub fn line_body(line: &Vec<u8>) -> (r: Vec<u8>)
    ensures
        r@ == line_content(line@),
{
    let end = content_end(line);
    let mut r: Vec<u8> = Vec::new();
    let mut i: usize = 0;
    while i < end
        invariant
            end <= line@.len(),
            i <= end,
            r@ == line@.subrange(0, i as int),
        decreases end - i,
    {
        r.push(line[i]);
        assert(r@ =~= line@.subrange(0, i + 1));
        i = i + 1;
    }
    r
}

/// The decimal digits of `n`.
pub fn decimal_bytes(n: usize) -> (r: Vec<u8>)
    ensures
        r@ == decimal(n as nat),
    decreases n,
{
    if n < 10 {
        let r = vec![(48 + n) as u8];
        assert(r@ =~= decimal(n as nat));
        r
    } else {
        let mut r = decimal_bytes(n / 10);
        r.push((48 + n % 10) as u8);
        r
    }
}

/// Writes `body` in the given style, ready to be sent.
pub fn frame_message(body: &Vec<u8>, style: Framing) -> (r: Vec<u8>)
    ensures
        r@ == framed(body@, style),
{
    let mut r: Vec<u8> = match style {
        Framing::Newline => Vec::new(),
        Framing::Header => {
            let mut h = length_prefix_bytes();
            let mut digits = decimal_bytes(body.len());
            h.append(&mut digits);
            h.push(13);
            h.push(10);
            h.push(13);
            h.push(10);
            h
        },
    };
    let ghost head = r@;
    let mut i: usize = 0;
    while i < body.len()
        invariant
            i <= body@.len(),
            r@ == head + body@.subrange(0, i as int),
        decreases body@.len() - i,
    {
        r.push(body[i]);
        assert(r@ =~= head + body@.subrange(0, i + 1));
        i = i + 1;
    }
    assert(body@.subrange(0, body@.len() as int) =~= body@);
    if style == Framing::Newline {
        r.push(10);
    }
    proof {
        if style == Framing::Header {
            assert(head =~= length_prefix() + decimal(body@.len()) + crlf() + crlf());
        }
        assert(r@ =~= framed(body@, style));
    }
    r
}

} // verus!
