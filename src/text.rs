//! Decimal rendering, right alignment in a fixed-width column, and the
//! handling of input-source names shared by the three tools.
use vstd::prelude::*;
use vstd::std_specs::iter::IteratorSpec;

verus! {

/// The character of a decimal digit.
pub open spec fn digit_char(d: nat) -> char {
    seq!['0', '1', '2', '3', '4', '5', '6', '7', '8', '9'][(d % 10) as int]
}

/// The decimal digits of `n`, most significant first, without leading zeros.
pub open spec fn decimal(n: nat) -> Seq<char>
    decreases n,
{
    if n < 10 {
        seq![digit_char(n)]
    } else {
        decimal(n / 10).push(digit_char(n % 10))
    }
}

/// `s` preceded by as many spaces as bring it to `width` characters; a longer
/// `s` is left as it is.
pub open spec fn pad_left(s: Seq<char>, width: nat) -> Seq<char> {
    if s.len() >= width {
        s
    } else {
        Seq::new((width - s.len()) as nat, |i: int| ' ') + s
    }
}

/// `n` in decimal, right-aligned in a column of `width` characters.
pub open spec fn right_aligned_spec(n: nat, width: nat) -> Seq<char> {
    pad_left(decimal(n), width)
}

/// Relies on std's `format!` with `{:>width$}` on an unsigned integer: the
/// decimal digits of the value, padded on the left with spaces to `width`.
/// std holds a format width in a `u16` and panics on a larger one.
#[verifier::external_body]
pub(crate) fn right_aligned(n: usize, width: usize) -> (r: String)
    requires
        width <= 65535,
    ensures
        r@ == right_aligned_spec(n as nat, width as nat),
{
    format!("{:>1$}", n, width)
}

/// The sentinel name that stands for standard input.
pub open spec fn stdin_name() -> Seq<char> {
    seq!['-']
}

/// The list of input names a tool works on: the given names, or the
/// standard-input sentinel alone when none is given.
pub open spec fn sources_spec(files: Seq<String>) -> Seq<Seq<char>> {
    if files.len() == 0 {
        seq![stdin_name()]
    } else {
        files.map_values(|f: String| f@)
    }
}

/// Makes the list of input names: `files`, or the single sentinel `-` when
/// `files` is empty.
pub fn sources(files: Vec<String>) -> (r: Vec<String>)
    ensures
        r@.map_values(|f: String| f@) == sources_spec(files@),
{
    if files.len() == 0 {
        let mut v: Vec<String> = Vec::new();
        proof {
            reveal_strlit("-");
        }
        let dash = "-".to_owned();
        assert(dash@ == stdin_name());
        v.push(dash);
        assert(v@.map_values(|f: String| f@) =~= seq![stdin_name()]);
        v
    } else {
        assert(files@.map_values(|f: String| f@) =~= sources_spec(files@));
        files
    }
}

/// The characters of `s`, in order.
pub fn char_vec(s: &str) -> (r: Vec<char>)
    ensures
        r@ == s@,
{
    broadcast use vstd::string::axiom_spec_iter, vstd::string::next_postcondition;

    let mut it = s.chars();
    let mut v: Vec<char> = Vec::new();
    loop
        invariant
            v@ + it.remaining() == s@,
            it.decrease() is Some,
        decreases it.decrease()->0,
    {
        let ghost before = it.remaining();
        match it.next() {
            Some(c) => {
                assert(v@.push(c) + it.remaining() =~= v@ + before);
                v.push(c);
            },
            None => {
                assert(v@ =~= s@);
                return v;
            },
        }
    }
}

/// Whether `name` is the standard-input sentinel `-`.
pub fn is_stdin_name(name: &str) -> (r: bool)
    ensures
        r == (name@ == stdin_name()),
{
    let v = char_vec(name);
    if v.len() == 1 && v[0] == '-' {
        assert(name@ =~= stdin_name());
        true
    } else {
        false
    }
}

} // verus!
