//! The counting tool: line, word, byte and character tallies of a source,
//! and the report lines printed for them.
use crate::text::{right_aligned, right_aligned_spec, sources, sources_spec, is_stdin_name, stdin_name};
use vstd::prelude::*;
use vstd::utf8::{valid_utf8, decode_utf8, is_continuation_byte};

verus! {

/// Whether `b` is ASCII whitespace as `u8::is_ascii_whitespace` defines it:
/// space, tab, line feed, form feed or carriage return.
pub open spec fn is_ascii_ws(b: u8) -> bool {
    b == 32 || b == 9 || b == 10 || b == 12 || b == 13
}

/// The number of line feeds in `b`.
pub open spec fn newline_count(b: Seq<u8>) -> nat
    decreases b.len(),
{
    if b.len() == 0 {
        0
    } else {
        newline_count(b.drop_last()) + if b.last() == 10 { 1nat } else { 0 }
    }
}

/// The number of lines in `b`: each line feed ends one, and a non-empty tail
/// after the last line feed is one more.
pub open spec fn line_count(b: Seq<u8>) -> nat {
    newline_count(b) + if b.len() > 0 && b.last() != 10 { 1nat } else { 0 }
}

/// Whether a word starts at position `i` of `b`: a byte that is not
/// whitespace, first in `b` or after whitespace.
pub open spec fn starts_word(b: Seq<u8>, i: int) -> bool {
    !is_ascii_ws(b[i]) && (i == 0 || is_ascii_ws(b[i - 1]))
}

/// The number of maximal runs of non-whitespace bytes in `b`.
pub open spec fn word_count(b: Seq<u8>) -> nat
    decreases b.len(),
{
    if b.len() == 0 {
        0
    } else {
        word_count(b.drop_last()) + if starts_word(b, b.len() - 1) { 1nat } else { 0 }
    }
}

/// The number of bytes of `b` that are not UTF-8 continuation bytes.
pub open spec fn lead_count(b: Seq<u8>) -> nat
    decreases b.len(),
{
    if b.len() == 0 {
        0
    } else {
        lead_count(b.drop_last()) + if is_continuation_byte(b.last()) { 0 } else { 1nat }
    }
}

/// The four tallies of one source (or the sum over several).
#[derive(Debug, Clone, Copy, PartialEq, Eq, Structural)]
pub struct FileInfo {
    pub num_lines: usize,
    pub num_words: usize,
    pub num_bytes: usize,
    pub num_chars: usize,
}

/// Why a source could not be counted.
#[derive(Debug, Clone, Copy, PartialEq, Eq, Structural)]
pub enum CountError {
    /// The source is not valid UTF-8.
    InvalidUtf8,
}

/// Relies on `std::str::from_utf8`: it succeeds exactly on valid UTF-8.
#[verifier::external_body]
fn is_utf8(b: &[u8]) -> (r: bool)
    ensures
        r == valid_utf8(b@),
{
    std::str::from_utf8(b).is_ok()
}

/// Counts the lines, words (runs of non-ASCII-whitespace), bytes and
/// characters of `text`. Fails exactly when `text` is not valid UTF-8.
pub fn count(text: &[u8]) -> (r: Result<FileInfo, CountError>)
    ensures
        r is Err <==> !valid_utf8(text@),
        r matches Ok(info) ==> {
            &&& info.num_lines == line_count(text@)
            &&& info.num_words == word_count(text@)
            &&& info.num_bytes == text@.len()
            &&& info.num_chars == decode_utf8(text@).len()
        },
{
    if !is_utf8(text) {
        return Err(CountError::InvalidUtf8);
    }
    let n = text.len();
    let mut newlines: usize = 0;
    let mut words: usize = 0;
    let mut leads: usize = 0;
    let mut i: usize = 0;
    while i < n
        invariant
            n == text@.len(),
            i <= n,
            newlines <= i,
            words <= i,
            leads <= i,
            newlines == newline_count(text@.take(i as int)),
            words == word_count(text@.take(i as int)),
            leads == lead_count(text@.take(i as int)),
        decreases n - i,
    {
        let c = text[i];
        let ghost pre = text@.take(i as int);
        let ghost cur = text@.take(i + 1);
        assert(cur.drop_last() =~= pre);
        if c == 10u8 {
            newlines = newlines + 1;
        }
        let ws = c == 32u8 || c == 9u8 || c == 10u8 || c == 12u8 || c == 13u8;
        if !ws && (i == 0 || {
            let p = text[i - 1];
            p == 32u8 || p == 9u8 || p == 10u8 || p == 12u8 || p == 13u8
        }) {
            words = words + 1;
        }
        if !(0x80u8 <= c && c <= 0xbfu8) {
            leads = leads + 1;
        }
        i = i + 1;
    }
    assert(text@.take(n as int) =~= text@);
    if n > 0 {
        proof {
            lemma_newline_count_bound(text@.drop_last());
        }
    }
    let lines: usize = if n > 0 && text[n - 1] != 10u8 { newlines + 1 } else { newlines };
    proof {
        lemma_lead_count_decodes(text@);
    }
    Ok(FileInfo { num_lines: lines, num_words: words, num_bytes: n, num_chars: leads })
}

/// Counting leading bytes distributes over concatenation.
proof fn lemma_lead_count_concat(a: Seq<u8>, b: Seq<u8>)
    ensures
        lead_count(a + b) == lead_count(a) + lead_count(b),
    decreases b.len(),
{
    if b.len() == 0 {
        assert(a + b =~= a);
    } else {
        assert((a + b).drop_last() =~= a + b.drop_last());
        lemma_lead_count_concat(a, b.drop_last());
    }
}

/// A leading byte followed by continuation bytes holds one leading byte.
proof fn lemma_lead_count_one(s: Seq<u8>)
    requires
        s.len() > 0,
        !is_continuation_byte(s[0]),
        forall|j: int| 1 <= j < s.len() ==> is_continuation_byte(#[trigger] s[j]),
    ensures
        lead_count(s) == 1,
    decreases s.len(),
{
    if s.len() > 1 {
        assert(is_continuation_byte(s[s.len() - 1]));
        assert(s.drop_last()[0] == s[0]);
        lemma_lead_count_one(s.drop_last());
        assert(lead_count(s) == lead_count(s.drop_last()));
    } else {
        assert(s.drop_last().len() == 0);
        assert(s.last() == s[0]);
        assert(lead_count(s.drop_last()) == 0);
    }
}

/// A sequence holds no more line feeds than bytes.
proof fn lemma_newline_count_bound(b: Seq<u8>)
    ensures
        newline_count(b) <= b.len(),
    decreases b.len(),
{
    if b.len() > 0 {
        lemma_newline_count_bound(b.drop_last());
    }
}

/// In valid UTF-8 the leading bytes are exactly one per decoded character.
proof fn lemma_lead_count_decodes(b: Seq<u8>)
    requires
        valid_utf8(b),
    ensures
        lead_count(b) == decode_utf8(b).len(),
    decreases b.len(),
{
    if b.len() > 0 {
        let k = vstd::utf8::length_of_first_scalar(b);
        let head = b.subrange(0, k);
        let tail = b.subrange(k, b.len() as int);
        assert(b =~= head + tail);
        lemma_lead_count_concat(head, tail);
        lemma_lead_count_one(head);
        lemma_lead_count_decodes(tail);
    }
}

/// Which counts are shown, from the four flags: with none set, lines, words
/// and bytes; otherwise the flags as given.
pub open spec fn selection(lines: bool, words: bool, bytes: bool, chars: bool) -> (
    bool,
    bool,
    bool,
    bool,
) {
    if !lines && !words && !bytes && !chars {
        (true, true, true, false)
    } else {
        (lines, words, bytes, chars)
    }
}

/// Leaving every count flag off selects the same counts as asking for lines,
/// words and bytes, with characters off.
pub proof fn lemma_default_selection()
    ensures
        selection(false, false, false, false) == selection(true, true, true, false),
{
}

/// The settings of one run of the counting tool.
#[derive(Debug)]
pub struct Config {
    files: Vec<String>,
    lines: bool,
    words: bool,
    bytes: bool,
    chars: bool,
}

/// Why a set of options was refused.
#[derive(Debug, Clone, Copy, PartialEq, Eq, Structural)]
pub enum ConfigError {
    /// Byte and character counts were both asked for.
    BytesWithChars,
}

impl Config {
    /// The input names, in order.
    pub closed spec fn files_spec(&self) -> Seq<Seq<char>> {
        self.files@.map_values(|f: String| f@)
    }

    /// The shown counts: lines, words, bytes, characters.
    pub closed spec fn shown(&self) -> (bool, bool, bool, bool) {
        (self.lines, self.words, self.bytes, self.chars)
    }

    /// Builds the settings from the input names and the four count flags.
    /// Refuses byte and character counts together; applies the default
    /// selection when no flag is set, and reads standard input when no name
    /// is given.
    pub fn new(files: Vec<String>, lines: bool, words: bool, bytes: bool, chars: bool) -> (r: Result<
        Config,
        ConfigError,
    >)
        ensures
            r is Err <==> bytes && chars,
            r matches Ok(c) ==> c.files_spec() == sources_spec(files@) && c.shown() == selection(
                lines,
                words,
                bytes,
                chars,
            ),
    {
        if bytes && chars {
            return Err(ConfigError::BytesWithChars);
        }
        let files = sources(files);
        if !lines && !words && !bytes && !chars {
            Ok(Config { files, lines: true, words: true, bytes: true, chars: false })
        } else {
            Ok(Config { files, lines, words, bytes, chars })
        }
    }

    /// The input names, in order.
    pub fn files(&self) -> (r: &Vec<String>)
        ensures
            r@.map_values(|f: String| f@) == self.files_spec(),
    {
        &self.files
    }
}

/// A count as printed: right-aligned in eight columns when shown, else
/// nothing.
pub open spec fn field_spec(value: nat, show: bool) -> Seq<char> {
    if show {
        right_aligned_spec(value, 8)
    } else {
        Seq::empty()
    }
}

/// Renders `value` right-aligned in eight columns when `show` holds, and as
/// the empty string otherwise.
pub fn format_field(value: usize, show: bool) -> (r: String)
    ensures
        r@ == field_spec(value as nat, show),
{
    if show {
        right_aligned(value, 8)
    } else {
        String::new()
    }
}

/// The shown counts of `info`, in the order lines, words, bytes, characters.
pub open spec fn fields_spec(info: FileInfo, config: Config) -> Seq<char> {
    field_spec(info.num_lines as nat, config.shown().0) + field_spec(
        info.num_words as nat,
        config.shown().1,
    ) + field_spec(info.num_bytes as nat, config.shown().2) + field_spec(
        info.num_chars as nat,
        config.shown().3,
    )
}

/// Renders the shown counts of `info`.
fn fields(info: &FileInfo, config: &Config) -> (r: String)
    ensures
        r@ == fields_spec(*info, *config),
{
    let mut r = format_field(info.num_lines, config.lines);
    let w = format_field(info.num_words, config.words);
    r.append(w.as_str());
    let b = format_field(info.num_bytes, config.bytes);
    r.append(b.as_str());
    let c = format_field(info.num_chars, config.chars);
    r.append(c.as_str());
    r
}

/// The report line of one source: its shown counts, then a space and its
/// name unless it is standard input.
pub open spec fn report_line_spec(info: FileInfo, config: Config, name: Seq<char>) -> Seq<char> {
    fields_spec(info, config) + if name == stdin_name() {
        Seq::empty()
    } else {
        seq![' '] + name
    }
}

/// Renders the report line of the source `name` with tallies `info`.
pub fn report_line(info: &FileInfo, config: &Config, name: &str) -> (r: String)
    ensures
        r@ == report_line_spec(*info, *config, name@),
{
    let mut r = fields(info, config);
    if !is_stdin_name(name) {
        proof {
            reveal_strlit(" ");
        }
        r.append(" ");
        r.append(name);
        assert(r@ =~= report_line_spec(*info, *config, name@));
    } else {
        assert(r@ =~= report_line_spec(*info, *config, name@));
    }
    r
}

/// The line that closes a run over several sources: the shown counts of
/// `total`, then ` total`.
pub open spec fn total_line_spec(total: FileInfo, config: Config) -> Seq<char> {
    fields_spec(total, config) + seq![' ', 't', 'o', 't', 'a', 'l']
}

/// Renders the closing line for the summed tallies `total`.
pub fn total_line(total: &FileInfo, config: &Config) -> (r: String)
    ensures
        r@ == total_line_spec(*total, *config),
{
    let mut r = fields(total, config);
    proof {
        reveal_strlit(" total");
    }
    r.append(" total");
    r
}

/// The field-wise sums of the tallies in `s`: lines, words, bytes, characters.
pub open spec fn sum_spec(s: Seq<FileInfo>) -> (nat, nat, nat, nat)
    decreases s.len(),
{
    if s.len() == 0 {
        (0, 0, 0, 0)
    } else {
        let p = sum_spec(s.drop_last());
        let x = s.last();
        (
            p.0 + x.num_lines as nat,
            p.1 + x.num_words as nat,
            p.2 + x.num_bytes as nat,
            p.3 + x.num_chars as nat,
        )
    }
}

/// Whether all four sums of `s` fit in a `usize`.
pub open spec fn sum_fits(s: Seq<FileInfo>) -> bool {
    let t = sum_spec(s);
    t.0 <= usize::MAX && t.1 <= usize::MAX && t.2 <= usize::MAX && t.3 <= usize::MAX
}

/// The sums over a prefix are no larger than those over the whole.
proof fn lemma_sum_prefix(s: Seq<FileInfo>, i: int)
    requires
        0 <= i <= s.len(),
    ensures
        sum_spec(s.take(i)).0 <= sum_spec(s).0,
        sum_spec(s.take(i)).1 <= sum_spec(s).1,
        sum_spec(s.take(i)).2 <= sum_spec(s).2,
        sum_spec(s.take(i)).3 <= sum_spec(s).3,
    decreases s.len(),
{
    if i < s.len() {
        assert(s.drop_last().take(i) =~= s.take(i));
        lemma_sum_prefix(s.drop_last(), i);
    } else {
        assert(s.take(i) =~= s);
    }
}

/// Sums the tallies of several sources field by field; `None` when a sum
/// does not fit in a `usize`.
pub fn total(infos: &Vec<FileInfo>) -> (r: Option<FileInfo>)
    ensures
        r is Some <==> sum_fits(infos@),
        r matches Some(t) ==> (t.num_lines as nat, t.num_words as nat, t.num_bytes as nat, t.num_chars as nat) == sum_spec(infos@),
{
    let mut t = FileInfo { num_lines: 0, num_words: 0, num_bytes: 0, num_chars: 0 };
    let mut i: usize = 0;
    while i < infos.len()
        invariant
            i <= infos@.len(),
            (t.num_lines as nat, t.num_words as nat, t.num_bytes as nat, t.num_chars as nat) == sum_spec(infos@.take(i as int)),
        decreases infos@.len() - i,
    {
        let x = infos[i];
        assert(infos@.take(i + 1).drop_last() =~= infos@.take(i as int));
        proof {
            lemma_sum_prefix(infos@, i + 1);
        }
        let l = t.num_lines.checked_add(x.num_lines);
        let w = t.num_words.checked_add(x.num_words);
        let b = t.num_bytes.checked_add(x.num_bytes);
        let c = t.num_chars.checked_add(x.num_chars);
        match (l, w, b, c) {
            (Some(l), Some(w), Some(b), Some(c)) => {
                t = FileInfo { num_lines: l, num_words: w, num_bytes: b, num_chars: c };
            },
            _ => {
                return None;
            },
        }
        i = i + 1;
    }
    assert(infos@.take(i as int) =~= infos@);
    Some(t)
}

/// The closing line of a run: present only when the run names more than one
/// source and the sums of `infos` fit in a `usize`; then the shown sums
/// followed by ` total`.
pub fn summary_line(config: &Config, infos: &Vec<FileInfo>) -> (r: Option<String>)
    ensures
        r is Some <==> config.files_spec().len() > 1 && sum_fits(infos@),
        r matches Some(s) ==> exists|t: FileInfo|
            (t.num_lines as nat, t.num_words as nat, t.num_bytes as nat, t.num_chars as nat)
                == sum_spec(infos@) && s@ == total_line_spec(t, *config),
{
    if config.files.len() <= 1 {
        return None;
    }
    match total(infos) {
        Some(t) => Some(total_line(&t, config)),
        None => None,
    }
}

/// Counting line feeds distributes over concatenation.
proof fn lemma_newline_count_concat(a: Seq<u8>, b: Seq<u8>)
    ensures
        newline_count(a + b) == newline_count(a) + newline_count(b),
    decreases b.len(),
{
    if b.len() == 0 {
        assert(a + b =~= a);
    } else {
        assert((a + b).drop_last() =~= a + b.drop_last());
        lemma_newline_count_concat(a, b.drop_last());
    }
}

/// Counting words distributes over concatenation after whitespace.
proof fn lemma_word_count_concat(a: Seq<u8>, b: Seq<u8>)
    requires
        a.len() > 0 ==> is_ascii_ws(a.last()),
    ensures
        word_count(a + b) == word_count(a) + word_count(b),
    decreases b.len(),
{
    if b.len() == 0 {
        assert(a + b =~= a);
    } else {
        let ab = a + b;
        assert(ab.drop_last() =~= a + b.drop_last());
        lemma_word_count_concat(a, b.drop_last());
        let i = ab.len() - 1;
        let k = b.len() - 1;
        assert(ab[i] == b[k]);
        if k > 0 {
            assert(ab[i - 1] == b[k - 1]);
        } else if a.len() > 0 {
            assert(ab[i - 1] == a.last());
        }
        assert(starts_word(ab, i) == starts_word(b, k));
    }
}

/// Counting a text split just after a line feed gives, for each tally, the
/// sum of the tallies of the two parts.
pub proof fn lemma_counts_concat(a: Seq<u8>, b: Seq<u8>)
    requires
        a.len() > 0 ==> a.last() == 10,
    ensures
        line_count(a + b) == line_count(a) + line_count(b),
        word_count(a + b) == word_count(a) + word_count(b),
        (a + b).len() == a.len() + b.len(),
        valid_utf8(a) && valid_utf8(b) && valid_utf8(a + b) ==> decode_utf8(a + b).len()
            == decode_utf8(a).len() + decode_utf8(b).len(),
{
    lemma_newline_count_concat(a, b);
    lemma_word_count_concat(a, b);
    lemma_lead_count_concat(a, b);
    if b.len() == 0 {
        assert(a + b =~= a);
    } else {
        assert((a + b).last() == b.last());
    }
    if valid_utf8(a) && valid_utf8(b) && valid_utf8(a + b) {
        lemma_lead_count_decodes(a);
        lemma_lead_count_decodes(b);
        lemma_lead_count_decodes(a + b);
    }
}

} // verus!
