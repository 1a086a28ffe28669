//! The preview tool: the first lines or the first bytes of each source.
use crate::text::{char_vec, sources, sources_spec};
use crate::wcr::newline_count;
use vstd::prelude::*;
use vstd::utf8::{valid_utf8, decode_utf8};

verus! {

/// Whether `c` is an ASCII decimal digit.
pub open spec fn is_digit(c: char) -> bool {
    '0' <= c && c <= '9'
}

/// The value of a string of decimal digits.
pub open spec fn digits_value(s: Seq<char>) -> nat
    decreases s.len(),
{
    if s.len() == 0 {
        0
    } else {
        (digits_value(s.drop_last()) * 10 + ((s.last() as u32) as int - 48)) as nat
    }
}

/// `s` without one leading `+`, if it has one.
pub open spec fn unsigned_digits(s: Seq<char>) -> Seq<char> {
    if s.len() > 0 && s[0] == '+' {
        s.drop_first()
    } else {
        s
    }
}

/// What parsing `s` as a `usize` gives: an optional `+`, then one or more
/// decimal digits whose value fits in a `usize`.
pub open spec fn parse_usize_spec(s: Seq<char>) -> Option<usize> {
    let d = unsigned_digits(s);
    if d.len() > 0 && (forall|i: int| 0 <= i < d.len() ==> is_digit(#[trigger] d[i]))
        && digits_value(d) <= usize::MAX {
        Some(digits_value(d) as usize)
    } else {
        None
    }
}

/// The value of a digit string never falls below that of its prefixes.
proof fn lemma_digits_value_prefix(d: Seq<char>, k: int)
    requires
        0 <= k <= d.len(),
        forall|i: int| 0 <= i < d.len() ==> is_digit(#[trigger] d[i]),
    ensures
        digits_value(d.take(k)) <= digits_value(d),
    decreases d.len(),
{
    if k < d.len() {
        assert(d.drop_last().take(k) =~= d.take(k));
        assert(is_digit(d[d.len() - 1]));
        lemma_digits_value_prefix(d.drop_last(), k);
    } else {
        assert(d.take(k) =~= d);
    }
}

/// Reads `s` as a `usize`: an optional `+`, then one or more decimal digits
/// whose value fits.
fn parse_usize(s: &str) -> (r: Option<usize>)
    ensures
        r == parse_usize_spec(s@),
{
    let v = char_vec(s);
    let start: usize = if v.len() > 0 && v[0] == '+' { 1 } else { 0 };
    let ghost d = unsigned_digits(s@);
    assert(d =~= v@.subrange(start as int, v@.len() as int));
    if start == v.len() {
        return None;
    }
    let mut acc: usize = 0;
    let mut i: usize = start;
    while i < v.len()
        invariant
            v@ == s@,
            d == unsigned_digits(s@),
            d == v@.subrange(start as int, v@.len() as int),
            start <= i <= v@.len(),
            forall|j: int| 0 <= j < i - start ==> is_digit(#[trigger] d[j]),
            acc == digits_value(d.take(i - start)),
        decreases v@.len() - i,
    {
        let c = v[i];
        assert(d[i - start] == c);
        if !('0' <= c && c <= '9') {
            assert(!is_digit(d[i - start]));
            return None;
        }
        let digit = (c as u32 - 48) as usize;
        assert(is_digit(d[i - start]));
        assert(d.take(i + 1 - start).drop_last() =~= d.take(i - start));
        assert(d.take(i + 1 - start).last() == c);
        assert(digits_value(d.take(i + 1 - start)) == acc * 10 + digit);
        match acc.checked_mul(10) {
            Some(m) => match m.checked_add(digit) {
                Some(n) => {
                    acc = n;
                },
                None => {
                    proof {
                        lemma_no_fit(d, i + 1 - start);
                    }
                    return None;
                },
            },
            None => {
                proof {
                    lemma_no_fit(d, i + 1 - start);
                }
                return None;
            },
        }
        i = i + 1;
    }
    assert(d.take(i - start) =~= d);
    Some(acc)
}

/// A digit string whose prefix of length `k` is a digit string worth more
/// than `usize::MAX` does not parse.
proof fn lemma_no_fit(d: Seq<char>, k: int)
    requires
        0 < k <= d.len(),
        forall|j: int| 0 <= j < k ==> is_digit(#[trigger] d[j]),
        digits_value(d.take(k)) > usize::MAX,
    ensures
        !(d.len() > 0 && (forall|i: int| 0 <= i < d.len() ==> is_digit(#[trigger] d[i]))
            && digits_value(d) <= usize::MAX),
{
    if forall|i: int| 0 <= i < d.len() ==> is_digit(#[trigger] d[i]) {
        lemma_digits_value_prefix(d, k);
    }
}

/// Reads `val` as a positive integer. Fails with `val` itself when it is not
/// a `usize` or is zero.
pub fn parse_positive_int(val: &str) -> (r: Result<usize, String>)
    ensures
        r is Ok <==> positive_spec(val@) is Some,
        r matches Ok(n) ==> positive_spec(val@) == Some(n),
        r matches Err(e) ==> e@ == val@,
{
    match parse_usize(val) {
        Some(n) => {
            if n > 0 {
                Ok(n)
            } else {
                Err(val.to_owned())
            }
        },
        None => Err(val.to_owned()),
    }
}

/// `s` read as a positive integer, if it is one.
pub open spec fn positive_spec(s: Seq<char>) -> Option<usize> {
    let p = parse_usize_spec(s);
    if p is Some && p->0 > 0 {
        p
    } else {
        None
    }
}

/// The text of an optional string argument.
pub open spec fn opt_view(o: Option<&str>) -> Option<Seq<char>> {
    match o {
        Some(v) => Some(v@),
        None => None,
    }
}

/// The limits that the given line and byte arguments select, as (line
/// limit, byte limit), or the message that refuses them: a value that is not
/// a positive integer gives `illegal line count -- <value>` or
/// `illegal byte count -- <value>`, the line limit checked first; both
/// limits together are refused. Without a line limit it is 10.
pub open spec fn config_spec(lines: Option<Seq<char>>, bytes: Option<Seq<char>>) -> Result<
    (usize, Option<usize>),
    Seq<char>,
> {
    if lines is Some && positive_spec(lines->0) is None {
        Err("illegal line count -- "@ + lines->0)
    } else if bytes is Some && positive_spec(bytes->0) is None {
        Err("illegal byte count -- "@ + bytes->0)
    } else if lines is Some && bytes is Some {
        Err("the line and byte limits cannot be used together"@)
    } else {
        Ok(
            (
                if lines is Some {
                    positive_spec(lines->0)->0
                } else {
                    DEFAULT_LINES
                },
                if bytes is Some {
                    Some(positive_spec(bytes->0)->0)
                } else {
                    None
                },
            ),
        )
    }
}

/// The settings of one run of the preview tool.
#[derive(Debug)]
pub struct Config {
    files: Vec<String>,
    lines: usize,
    bytes: Option<usize>,
}

/// The line limit that applies when none is given.
pub const DEFAULT_LINES: usize = 10;

impl Config {
    /// The input names, in order.
    pub closed spec fn files_spec(&self) -> Seq<Seq<char>> {
        self.files@.map_values(|f: String| f@)
    }

    /// The line limit.
    pub closed spec fn lines_spec(&self) -> usize {
        self.lines
    }

    /// The byte limit, which governs when present.
    pub closed spec fn bytes_spec(&self) -> Option<usize> {
        self.bytes
    }

    /// Builds the settings from the input names and the given line and byte
    /// limits, as `config_spec` says. Without names standard input is read.
    pub fn new(files: Vec<String>, lines: Option<&str>, bytes: Option<&str>) -> (r: Result<
        Config,
        String,
    >)
        ensures
            r is Err <==> config_spec(opt_view(lines), opt_view(bytes)) is Err,
            r matches Err(e) ==> config_spec(opt_view(lines), opt_view(bytes)) == Err::<
                (usize, Option<usize>),
                Seq<char>,
            >(e@),
            r matches Ok(c) ==> c.files_spec() == sources_spec(files@) && config_spec(
                opt_view(lines),
                opt_view(bytes),
            ) == Ok::<(usize, Option<usize>), Seq<char>>((c.lines_spec(), c.bytes_spec())),
    {
        let n = match lines {
            Some(v) => match parse_positive_int(v) {
                Ok(n) => n,
                Err(e) => {
                    let mut m = "illegal line count -- ".to_owned();
                    m.append(e.as_str());
                    return Err(m);
                },
            },
            None => DEFAULT_LINES,
        };
        let b = match bytes {
            Some(v) => match parse_positive_int(v) {
                Ok(b) => Some(b),
                Err(e) => {
                    let mut m = "illegal byte count -- ".to_owned();
                    m.append(e.as_str());
                    return Err(m);
                },
            },
            None => None,
        };
        if lines.is_some() && bytes.is_some() {
            return Err("the line and byte limits cannot be used together".to_owned());
        }
        Ok(Config { files: sources(files), lines: n, bytes: b })
    }

    /// The input names, in order.
    pub fn files(&self) -> (r: &Vec<String>)
        ensures
            r@.map_values(|f: String| f@) == self.files_spec(),
    {
        &self.files
    }

    /// The line limit.
    pub fn lines(&self) -> (r: usize)
        ensures
            r == self.lines_spec(),
    {
        self.lines
    }

    /// The byte limit, if one was given.
    pub fn bytes(&self) -> (r: Option<usize>)
        ensures
            r == self.bytes_spec(),
    {
        self.bytes
    }
}

/// The first lines of `text`, each with its line feed: the shortest prefix
/// that holds `limit` line feeds, or all of `text` when it holds fewer. A
/// final line without a line feed counts as a line.
pub fn head_lines(text: &[u8], limit: usize) -> (r: Vec<u8>)
    ensures
        r@.len() <= text@.len(),
        r@ == text@.take(r@.len() as int),
        newline_count(r@) <= limit,
        r@.len() < text@.len() ==> newline_count(r@) == limit,
        r@.len() < text@.len() && limit > 0 ==> r@.len() > 0 && r@.last() == 10,
        r@.len() > 0 ==> newline_count(r@.drop_last()) < limit,
        limit == 0 ==> r@.len() == 0,
{
    let n = text.len();
    let mut r: Vec<u8> = Vec::new();
    let mut seen: usize = 0;
    let mut i: usize = 0;
    while i < n && seen < limit
        invariant
            n == text@.len(),
            i <= n,
            r@ == text@.take(i as int),
            seen == newline_count(r@),
            seen <= limit,
            seen == limit && limit > 0 ==> i > 0 && text@[i - 1] == 10,
            limit == 0 ==> i == 0,
            i > 0 ==> newline_count(text@.take(i - 1)) < limit,
        decreases n - i,
    {
        let c = text[i];
        r.push(c);
        assert(r@.drop_last() =~= text@.take(i as int));
        assert(r@ =~= text@.take(i + 1));
        assert(text@.take(i + 1 - 1) =~= text@.take(i as int));
        if c == 10u8 {
            seen = seen + 1;
        }
        i = i + 1;
    }
    r
}

/// A name for what `String::from_utf8_lossy` makes of a byte sequence.
pub uninterp spec fn lossy_of(b: Seq<u8>) -> Seq<char>;

/// Relies on `String::from_utf8_lossy`: its result depends on the bytes
/// alone, and valid UTF-8 is decoded as it stands.
#[verifier::external_body]
fn decode_lossy(b: &[u8]) -> (r: String)
    ensures
        r@ == lossy_of(b@),
        valid_utf8(b@) ==> r@ == decode_utf8(b@),
{
    String::from_utf8_lossy(b).into_owned()
}

/// The first `limit` bytes of `text` (all of it when shorter), decoded as
/// text with invalid sequences replaced.
pub fn head_bytes(text: &[u8], limit: usize) -> (r: String)
    ensures
        r@ == lossy_of(text@.take(if limit < text@.len() { limit as int } else { text@.len() as int })),
{
    let k = if limit < text.len() { limit } else { text.len() };
    let mut v: Vec<u8> = Vec::new();
    let mut i: usize = 0;
    while i < k
        invariant
            k <= text@.len(),
            i <= k,
            v@ == text@.take(i as int),
        decreases k - i,
    {
        v.push(text[i]);
        assert(v@ =~= text@.take(i + 1));
        i = i + 1;
    }
    decode_lossy(v.as_slice())
}

/// The header shown before source number `index` (from 0) when the run names
/// `count` sources: none for a single source; otherwise `==> name <==`,
/// preceded by a blank line for every source but the first.
pub open spec fn header_spec(name: Seq<char>, index: nat, count: nat) -> Option<Seq<char>> {
    if count <= 1 {
        None
    } else {
        Some(
            (if index > 0 {
                seq!['\n']
            } else {
                Seq::empty()
            }) + "==> "@ + name + " <=="@,
        )
    }
}

/// Renders the header of source number `index` of `count`.
pub fn header(name: &str, index: usize, count: usize) -> (r: Option<String>)
    ensures
        r is Some <==> header_spec(name@, index as nat, count as nat) is Some,
        r matches Some(h) ==> h@ == header_spec(name@, index as nat, count as nat)->0,
{
    if count <= 1 {
        return None;
    }
    let mut h = String::new();
    if index > 0 {
        proof {
            reveal_strlit("\n");
        }
        h.append("\n");
    }
    h.append("==> ");
    h.append(name);
    h.append(" <==");
    assert(h@ =~= header_spec(name@, index as nat, count as nat)->0);
    Some(h)
}

} // verus!
