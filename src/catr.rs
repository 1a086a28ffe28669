//! The display tool: each source's lines as they are, or numbered.
use crate::text::{right_aligned, right_aligned_spec, sources, sources_spec};
use vstd::prelude::*;

verus! {

/// How lines are numbered.
#[derive(Debug, Clone, Copy, PartialEq, Eq, Structural)]
pub enum NumberMode {
    /// Lines as they are.
    Plain,
    /// Every line numbered.
    All,
    /// Non-empty lines numbered; empty lines left empty.
    NonBlank,
}

/// The settings of one run of the display tool.
#[derive(Debug)]
pub struct Config {
    files: Vec<String>,
    number_lines: bool,
    number_nonblock_lines: bool,
}

/// Why a set of options was refused.
#[derive(Debug, Clone, Copy, PartialEq, Eq, Structural)]
pub enum ConfigError {
    /// Numbering of all lines and of non-blank lines were both asked for.
    BothNumberings,
}

/// The numbering mode the two flags select.
pub open spec fn mode_spec(number_lines: bool, number_nonblank: bool) -> NumberMode {
    if number_lines {
        NumberMode::All
    } else if number_nonblank {
        NumberMode::NonBlank
    } else {
        NumberMode::Plain
    }
}

impl Config {
    /// The input names, in order.
    pub closed spec fn files_spec(&self) -> Seq<Seq<char>> {
        self.files@.map_values(|f: String| f@)
    }

    /// The numbering mode.
    pub closed spec fn mode_view(&self) -> NumberMode {
        mode_spec(self.number_lines, self.number_nonblock_lines)
    }

    /// Builds the settings from the input names and the two numbering flags,
    /// which exclude each other. Without names standard input is read.
    pub fn new(files: Vec<String>, number_lines: bool, number_nonblank: bool) -> (r: Result<
        Config,
        ConfigError,
    >)
        ensures
            r is Err <==> number_lines && number_nonblank,
            r matches Ok(c) ==> c.files_spec() == sources_spec(files@) && c.mode_view()
                == mode_spec(number_lines, number_nonblank),
    {
        if number_lines && number_nonblank {
            return Err(ConfigError::BothNumberings);
        }
        Ok(
            Config {
                files: sources(files),
                number_lines,
                number_nonblock_lines: number_nonblank,
            },
        )
    }

    /// The input names, in order.
    pub fn files(&self) -> (r: &Vec<String>)
        ensures
            r@.map_values(|f: String| f@) == self.files_spec(),
    {
        &self.files
    }

    /// The numbering mode.
    pub fn mode(&self) -> (r: NumberMode)
        ensures
            r == self.mode_view(),
    {
        if self.number_lines {
            NumberMode::All
        } else if self.number_nonblock_lines {
            NumberMode::NonBlank
        } else {
            NumberMode::Plain
        }
    }
}

/// The number of non-empty lines in `lines`.
pub open spec fn nonblank_count(lines: Seq<Seq<char>>) -> nat
    decreases lines.len(),
{
    if lines.len() == 0 {
        0
    } else {
        nonblank_count(lines.drop_last()) + if lines.last().len() > 0 { 1nat } else { 0 }
    }
}

/// `line` behind its number, right-aligned in six columns, and a tab.
pub open spec fn numbered_spec(n: nat, line: Seq<char>) -> Seq<char> {
    right_aligned_spec(n, 6) + seq!['\t'] + line
}

/// The number that line `i` (from 0) of `lines` carries in non-blank mode:
/// how many non-empty lines there are up to it, itself included.
pub open spec fn nonblank_number(lines: Seq<Seq<char>>, i: int) -> nat {
    nonblank_count(lines.take(i + 1))
}

/// What is printed, without its line feed, for `line` when it is line
/// number `n` of its source and the `nb`-th non-empty line there.
pub open spec fn render_one_spec(mode: NumberMode, line: Seq<char>, n: nat, nb: nat) -> Seq<char> {
    match mode {
        NumberMode::Plain => line,
        NumberMode::All => numbered_spec(n, line),
        NumberMode::NonBlank => if line.len() == 0 {
            Seq::empty()
        } else {
            numbered_spec(nb, line)
        },
    }
}

/// What is printed for line `i` (from 0) of `lines`, without its line feed.
pub open spec fn render_spec(mode: NumberMode, lines: Seq<Seq<char>>, i: int) -> Seq<char> {
    render_one_spec(mode, lines[i], (i + 1) as nat, nonblank_number(lines, i))
}

/// Renders `line` behind the number `n`.
fn numbered(n: usize, line: &String) -> (r: String)
    ensures
        r@ == numbered_spec(n as nat, line@),
{
    let mut r = right_aligned(n, 6);
    proof {
        reveal_strlit("\t");
    }
    r.append("\t");
    r.append(line.as_str());
    r
}

/// Numbers the lines of one source as they come, one at a time.
pub struct Numberer {
    mode: NumberMode,
    seen: usize,
    nonblank: usize,
}

impl Numberer {
    /// Never more non-empty lines than lines.
    #[verifier::type_invariant]
    spec fn inv(self) -> bool {
        self.nonblank <= self.seen
    }

    /// The numbering mode.
    pub closed spec fn mode_spec(&self) -> NumberMode {
        self.mode
    }

    /// How many lines have been rendered.
    pub closed spec fn seen_spec(&self) -> nat {
        self.seen as nat
    }

    /// How many of them were non-empty.
    pub closed spec fn nonblank_spec(&self) -> nat {
        self.nonblank as nat
    }

    /// A numberer at the start of a source.
    pub fn new(mode: NumberMode) -> (r: Numberer)
        ensures
            r.mode_spec() == mode,
            r.seen_spec() == 0,
            r.nonblank_spec() == 0,
    {
        Numberer { mode, seen: 0, nonblank: 0 }
    }

    /// How many lines have been rendered.
    pub fn seen(&self) -> (r: usize)
        ensures
            r == self.seen_spec(),
    {
        self.seen
    }

    /// Renders the next line of the source, without its line feed.
    pub fn next_line(&mut self, line: &String) -> (r: String)
        requires
            old(self).seen_spec() < usize::MAX,
        ensures
            final(self).mode_spec() == old(self).mode_spec(),
            final(self).seen_spec() == old(self).seen_spec() + 1,
            final(self).nonblank_spec() == old(self).nonblank_spec() + if line@.len() > 0 {
                1nat
            } else {
                0
            },
            final(self).nonblank_spec() <= final(self).seen_spec(),
            r@ == render_one_spec(
                old(self).mode_spec(),
                line@,
                final(self).seen_spec(),
                final(self).nonblank_spec(),
            ),
    {
        proof {
            use_type_invariant(&*self);
        }
        let seen = self.seen + 1;
        let blank = line.as_str().is_empty();
        let nonblank = if blank { self.nonblank } else { self.nonblank + 1 };
        let mode = self.mode;
        *self = Numberer { mode, seen, nonblank };
        match mode {
            NumberMode::Plain => line.clone(),
            NumberMode::All => numbered(seen, line),
            NumberMode::NonBlank => {
                if blank {
                    String::new()
                } else {
                    numbered(nonblank, line)
                }
            },
        }
    }
}

/// The lines printed for the lines of one source, without their line feeds,
/// one for each, in order.
pub fn render_lines(mode: NumberMode, lines: &Vec<String>) -> (r: Vec<String>)
    ensures
        r@.len() == lines@.len(),
        forall|i: int|
            0 <= i < r@.len() ==> #[trigger] r@[i]@ == render_spec(
                mode,
                lines@.map_values(|s: String| s@),
                i,
            ),
{
    let ghost ls = lines@.map_values(|s: String| s@);
    let mut r: Vec<String> = Vec::new();
    let mut numberer = Numberer::new(mode);
    let mut i: usize = 0;
    while i < lines.len()
        invariant
            ls == lines@.map_values(|s: String| s@),
            i <= lines@.len(),
            r@.len() == i,
            numberer.mode_spec() == mode,
            numberer.seen_spec() == i,
            numberer.nonblank_spec() == nonblank_count(ls.take(i as int)),
            forall|j: int| 0 <= j < i ==> #[trigger] r@[j]@ == render_spec(mode, ls, j),
        decreases lines@.len() - i,
    {
        let line = &lines[i];
        assert(ls.take(i + 1).drop_last() =~= ls.take(i as int));
        assert(ls[i as int] == line@);
        let out = numberer.next_line(line);
        r.push(out);
        i = i + 1;
    }
    r
}

/// In non-blank mode the numbers shown increase strictly from one numbered
/// line to the next, and an empty line is printed empty, with no number.
pub proof fn lemma_nonblank_numbers_increase(lines: Seq<Seq<char>>, i: int, j: int)
    requires
        0 <= i < j < lines.len(),
        lines[j].len() > 0,
    ensures
        nonblank_number(lines, i) < nonblank_number(lines, j),
        lines[i].len() == 0 ==> render_spec(NumberMode::NonBlank, lines, i) == Seq::<char>::empty(),
        lines[j] == render_spec(NumberMode::NonBlank, lines, j).subrange(
            render_spec(NumberMode::NonBlank, lines, j).len() - lines[j].len(),
            render_spec(NumberMode::NonBlank, lines, j).len() as int,
        ),
    decreases j - i,
{
    let t = lines.take(j + 1);
    assert(t.drop_last() =~= lines.take(j));
    assert(t.last() == lines[j]);
    lemma_nonblank_monotone(lines, i + 1, j);
    assert(render_spec(NumberMode::NonBlank, lines, j) == numbered_spec(nonblank_number(lines, j), lines[j]));
    assert(render_spec(NumberMode::NonBlank, lines, j).subrange(
            render_spec(NumberMode::NonBlank, lines, j).len() - lines[j].len(),
            render_spec(NumberMode::NonBlank, lines, j).len() as int,
        ) =~= lines[j]);
}

/// Counting non-empty lines over a longer prefix never gives less.
proof fn lemma_nonblank_monotone(lines: Seq<Seq<char>>, a: int, b: int)
    requires
        0 <= a <= b <= lines.len(),
    ensures
        nonblank_count(lines.take(a)) <= nonblank_count(lines.take(b)),
    decreases b - a,
{
    if a < b {
        assert(lines.take(b).drop_last() =~= lines.take(b - 1));
        lemma_nonblank_monotone(lines, a, b - 1);
    }
}

} // verus!
