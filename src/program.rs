//! The program-image text format: one binary word per line, with `//` comments,
//! blank lines, and spaces or underscores between digits.
use vstd::prelude::*;

verus! {

/// White space in the Unicode sense (the `White_Space` property), as `trim` removes it.
pub open spec fn is_space(c: char) -> bool {
    let u = c as u32;
    (0x9 <= u && u <= 0xd) || u == 0x20 || u == 0x85 || u == 0xa0 || u == 0x1680 || (0x2000 <= u
        && u <= 0x200a) || u == 0x2028 || u == 0x2029 || u == 0x202f || u == 0x205f || u == 0x3000
}

fn space(c: char) -> (r: bool)
    ensures
        r == is_space(c),
{
    let u = c as u32;
    (0x9 <= u && u <= 0xd) || u == 0x20 || u == 0x85 || u == 0xa0 || u == 0x1680 || (0x2000 <= u
        && u <= 0x200a) || u == 0x2028 || u == 0x2029 || u == 0x202f || u == 0x205f || u == 0x3000
}

/// `s` without leading white space.
pub open spec fn trim_start(s: Seq<char>) -> Seq<char>
    decreases s.len(),
{
    if s.len() > 0 && is_space(s[0]) {
        trim_start(s.drop_first())
    } else {
        s
    }
}

/// `s` without trailing white space.
pub open spec fn trim_end(s: Seq<char>) -> Seq<char>
    decreases s.len(),
{
    if s.len() > 0 && is_space(s.last()) {
        trim_end(s.drop_last())
    } else {
        s
    }
}

/// `s` without white space at either end.
pub open spec fn trim(s: Seq<char>) -> Seq<char> {
    trim_end(trim_start(s))
}

/// What precedes the first `//` in `s`, or all of `s` when it holds none.
pub open spec fn before_comment(s: Seq<char>) -> Seq<char>
    decreases s.len(),
{
    if s.len() < 2 {
        s
    } else if s[0] == '/' && s[1] == '/' {
        Seq::empty()
    } else {
        seq![s[0]] + before_comment(s.drop_first())
    }
}

/// `s` without its spaces and underscores.
pub open spec fn without_separators(s: Seq<char>) -> Seq<char>
    decreases s.len(),
{
    if s.len() == 0 {
        s
    } else if s.last() == ' ' || s.last() == '_' {
        without_separators(s.drop_last())
    } else {
        without_separators(s.drop_last()).push(s.last())
    }
}

/// The value of a string of binary digits; a character other than `1` counts as `0`.
pub open spec fn binary_value(s: Seq<char>) -> nat
    decreases s.len(),
{
    if s.len() == 0 {
        0
    } else {
        2 * binary_value(s.drop_last()) + if s.last() == '1' {
            1nat
        } else {
            0nat
        }
    }
}

/// Every character is a binary digit.
pub open spec fn all_binary(s: Seq<char>) -> bool {
    forall|i: int| 0 <= i < s.len() ==> s[i] == '0' || s[i] == '1'
}

/// The digits of a word: `s` without one leading `+`, unless `s` is just that sign.
pub open spec fn digits_of(s: Seq<char>) -> Seq<char> {
    if s.len() > 1 && s[0] == '+' {
        s.drop_first()
    } else {
        s
    }
}

/// A binary numeral read as a 16-bit word: an optional `+` and at least one
/// digit, of value below 2^16; `None` for anything else.
pub open spec fn binary_word(s: Seq<char>) -> Option<u16> {
    let d = digits_of(s);
    if d.len() > 0 && all_binary(d) && binary_value(d) < 0x10000 {
        Some(binary_value(d) as u16)
    } else {
        None
    }
}

proof fn lemma_binary_value_grows(s: Seq<char>, k: int)
    requires
        0 <= k <= s.len(),
    ensures
        binary_value(s.subrange(0, k)) <= binary_value(s),
    decreases s.len() - k,
{
    if k < s.len() {
        lemma_binary_value_grows(s, k + 1);
        assert(s.subrange(0, k + 1).drop_last() =~= s.subrange(0, k));
    } else {
        assert(s.subrange(0, k) =~= s);
    }
}

/// Returns the bounds of `s[lo..hi]` trimmed of white space at both ends.
fn trim_range(s: &[char], lo: usize, hi: usize) -> (r: (usize, usize))
    requires
        lo <= hi <= s@.len(),
    ensures
        lo <= r.0 <= r.1 <= hi,
        s@.subrange(r.0 as int, r.1 as int) == trim(s@.subrange(lo as int, hi as int)),
{
    let mut a: usize = lo;
    while a < hi && space(s[a])
        invariant
            lo <= a <= hi <= s@.len(),
            trim_start(s@.subrange(lo as int, hi as int)) == trim_start(s@.subrange(a as int, hi as int)),
        decreases hi - a,
    {
        assert(s@.subrange(a as int, hi as int).drop_first() =~= s@.subrange(a + 1, hi as int));
        a = a + 1;
    }
    let mut b: usize = hi;
    while b > a && space(s[b - 1])
        invariant
            lo <= a <= b <= hi <= s@.len(),
            trim_end(s@.subrange(a as int, hi as int)) == trim_end(s@.subrange(a as int, b as int)),
        decreases b - a,
    {
        assert(s@.subrange(a as int, b as int).drop_last() =~= s@.subrange(a as int, b - 1));
        b = b - 1;
    }
    (a, b)
}

/// Returns where `s[lo..hi]` ends once cut at its first `//`.
fn comment_cut(s: &[char], lo: usize, hi: usize) -> (r: usize)
    requires
        lo <= hi <= s@.len(),
    ensures
        lo <= r <= hi,
        s@.subrange(lo as int, r as int) == before_comment(s@.subrange(lo as int, hi as int)),
{
    let mut k: usize = lo;
    while hi - k >= 2 && !(s[k] == '/' && s[k + 1] == '/')
        invariant
            lo <= k <= hi <= s@.len(),
            before_comment(s@.subrange(lo as int, hi as int)) == s@.subrange(lo as int, k as int)
                + before_comment(s@.subrange(k as int, hi as int)),
        decreases hi - k,
    {
        let ghost t = s@.subrange(k as int, hi as int);
        assert(t.drop_first() =~= s@.subrange(k + 1, hi as int));
        assert(s@.subrange(lo as int, k + 1) =~= s@.subrange(lo as int, k as int) + seq![t[0]]);
        k = k + 1;
    }
    if hi - k >= 2 {
        assert(s@.subrange(lo as int, k as int) + Seq::<char>::empty() =~= s@.subrange(lo as int, k as int));
        k
    } else {
        assert(s@.subrange(lo as int, k as int) + s@.subrange(k as int, hi as int) =~= s@.subrange(lo as int, hi as int));
        hi
    }
}

/// The characters of `s[lo..hi]` other than spaces and underscores.
fn strip_separators(s: &[char], lo: usize, hi: usize) -> (r: Vec<char>)
    requires
        lo <= hi <= s@.len(),
    ensures
        r@ == without_separators(s@.subrange(lo as int, hi as int)),
{
    let mut out: Vec<char> = Vec::new();
    let mut k: usize = lo;
    while k < hi
        invariant
            lo <= k <= hi <= s@.len(),
            out@ == without_separators(s@.subrange(lo as int, k as int)),
        decreases hi - k,
    {
        assert(s@.subrange(lo as int, k + 1).drop_last() =~= s@.subrange(lo as int, k as int));
        let c = s[k];
        if c != ' ' && c != '_' {
            out.push(c);
        }
        k = k + 1;
    }
    out
}

/// Reads a binary numeral as a 16-bit word, as `binary_word` states.
fn parse_binary(s: &Vec<char>) -> (r: Option<u16>)
    ensures
        r == binary_word(s@),
{
    let start: usize = if s.len() > 1 && s[0] == '+' {
        1
    } else {
        0
    };
    let ghost d = digits_of(s@);
    assert(d =~= s@.subrange(start as int, s@.len() as int));
    if start == s.len() {
        return None;
    }
    let mut acc: u32 = 0;
    let mut k: usize = start;
    while k < s.len()
        invariant
            start <= k <= s@.len(),
            d == s@.subrange(start as int, s@.len() as int),
            d == digits_of(s@),
            all_binary(s@.subrange(start as int, k as int)),
            acc == binary_value(s@.subrange(start as int, k as int)),
            acc < 0x10000,
        decreases s@.len() - k,
    {
        let c = s[k];
        assert(s@.subrange(start as int, k + 1).drop_last() =~= s@.subrange(start as int, k as int));
        if c != '0' && c != '1' {
            assert(d[k - start] == c);
            assert(!all_binary(d));
            return None;
        }
        acc = 2 * acc + if c == '1' {
            1
        } else {
            0
        };
        k = k + 1;
        assert(acc == binary_value(s@.subrange(start as int, k as int)));
        if acc >= 0x10000 {
            proof {
                lemma_binary_value_grows(d, k - start);
                assert(d.subrange(0, k - start) =~= s@.subrange(start as int, k as int));
            }
            return None;
        }
    }
    Some(acc as u16)
}

/// What a line holds once trimmed, cut at its first `//` and trimmed again:
/// empty for a blank or comment-only line.
pub open spec fn line_content(l: Seq<char>) -> Seq<char> {
    trim(before_comment(trim(l)))
}

/// `l` without one trailing carriage return.
pub open spec fn strip_cr(l: Seq<char>) -> Seq<char> {
    if l.len() > 0 && l.last() == '\r' {
        l.drop_last()
    } else {
        l
    }
}

/// The lines that `t` ends with `\n` (each without its `\r\n` or `\n`), and the
/// characters after the last `\n`.
pub open spec fn scan_lines(t: Seq<char>) -> (Seq<Seq<char>>, Seq<char>)
    decreases t.len(),
{
    if t.len() == 0 {
        (Seq::empty(), Seq::empty())
    } else {
        let (ls, cur) = scan_lines(t.drop_last());
        if t.last() == '\n' {
            (ls.push(strip_cr(cur)), Seq::empty())
        } else {
            (ls, cur.push(t.last()))
        }
    }
}

/// The lines of `t`: split at each `\n`, without a last empty line.
pub open spec fn lines_of(t: Seq<char>) -> Seq<Seq<char>> {
    let (ls, cur) = scan_lines(t);
    if cur.len() > 0 {
        ls.push(cur)
    } else {
        ls
    }
}

/// Reading state: the words so far, the lines skipped so far with their
/// counter, and how many lines have counted.
pub type ReadState = (Seq<u16>, Seq<(int, Seq<char>)>, int);

/// One line read into `st`. A line with no content is passed over and not
/// counted. Any other line counts: its content without separators is a word,
/// or the line is recorded as skipped under the count before it.
pub open spec fn read_line(st: ReadState, l: Seq<char>) -> ReadState {
    let content = line_content(l);
    if content.len() == 0 {
        st
    } else {
        match binary_word(without_separators(content)) {
            Some(w) => (st.0.push(w), st.1, st.2 + 1),
            None => (st.0, st.1.push((st.2, l)), st.2 + 1),
        }
    }
}

/// The state after reading `lines` in order.
pub open spec fn read_lines(lines: Seq<Seq<char>>) -> ReadState
    decreases lines.len(),
{
    if lines.len() == 0 {
        (Seq::empty(), Seq::empty(), 0)
    } else {
        read_line(read_lines(lines.drop_last()), lines.last())
    }
}

/// A line that was not a valid word: its place among the counted lines and its text.
pub struct SkippedLine {
    pub counter: usize,
    pub text: Vec<char>,
}

/// The words read from a program image, and the lines that were skipped.
pub struct ProgramImage {
    pub words: Vec<u16>,
    pub skipped: Vec<SkippedLine>,
}

impl ProgramImage {
    /// The skipped lines as counter and text.
    pub open spec fn skipped_view(&self) -> Seq<(int, Seq<char>)> {
        self.skipped@.map_values(|x: SkippedLine| (x.counter as int, x.text@))
    }
}

fn copy_range(s: &[char], lo: usize, hi: usize) -> (r: Vec<char>)
    requires
        lo <= hi <= s@.len(),
    ensures
        r@ == s@.subrange(lo as int, hi as int),
{
    let mut out: Vec<char> = Vec::new();
    let mut k: usize = lo;
    while k < hi
        invariant
            lo <= k <= hi <= s@.len(),
            out@ == s@.subrange(lo as int, k as int),
        decreases hi - k,
    {
        out.push(s[k]);
        k = k + 1;
        assert(out@ =~= s@.subrange(lo as int, k as int));
    }
    out
}

/// Reads the line `s[lo..hi]` into `image`, as `read_line` states.
fn add_line(s: &[char], lo: usize, hi: usize, image: &mut ProgramImage, counter: &mut usize)
    requires
        lo <= hi <= s@.len(),
        *old(counter) < usize::MAX,
    ensures
        (final(image).words@, final(image).skipped_view(), *final(counter) as int) == read_line(
            (old(image).words@, old(image).skipped_view(), *old(counter) as int),
            s@.subrange(lo as int, hi as int),
        ),
{
    let (a, b) = trim_range(s, lo, hi);
    let cut = comment_cut(s, a, b);
    let (c, d) = trim_range(s, a, cut);
    if c == d {
        return;
    }
    let clean = strip_separators(s, c, d);
    match parse_binary(&clean) {
        Some(w) => {
            image.words.push(w);
        },
        None => {
            let text = copy_range(s, lo, hi);
            let entry = SkippedLine { counter: *counter, text };
            image.skipped.push(entry);
            assert(image.skipped_view() =~= old(image).skipped_view().push((entry.counter as int, entry.text@)));
        },
    }
    *counter = *counter + 1;
}

/// Reads a program image: each line that holds a binary word gives the next
/// word; blank and comment-only lines are passed over; any other line is
/// skipped and recorded with its counter and text.
pub fn parse_image(text: &[char]) -> (r: ProgramImage)
    ensures
        r.words@ == read_lines(lines_of(text@)).0,
        r.skipped_view() == read_lines(lines_of(text@)).1,
{
    let mut image = ProgramImage { words: Vec::new(), skipped: Vec::new() };
    let mut counter: usize = 0;
    let mut start: usize = 0;
    let mut i: usize = 0;
    let ghost mut ls: Seq<Seq<char>> = Seq::empty();
    assert(image.skipped_view() =~= Seq::empty());
    assert(text@.subrange(0, 0) =~= Seq::<char>::empty());
    while i < text.len()
        invariant
            start <= i <= text@.len(),
            scan_lines(text@.subrange(0, i as int)) == (ls, text@.subrange(start as int, i as int)),
            (image.words@, image.skipped_view(), counter as int) == read_lines(ls),
            counter <= ls.len() <= start,
        decreases text@.len() - i,
    {
        assert(text@.subrange(0, i + 1).drop_last() =~= text@.subrange(0, i as int));
        if text[i] == '\n' {
            let end: usize = if i > start && text[i - 1] == '\r' {
                i - 1
            } else {
                i
            };
            assert(text@.subrange(start as int, end as int) =~= strip_cr(text@.subrange(start as int, i as int)));
            add_line(text, start, end, &mut image, &mut counter);
            proof {
                let l = text@.subrange(start as int, end as int);
                assert(ls.push(l).drop_last() =~= ls);
                ls = ls.push(l);
            }
            start = i + 1;
            assert(text@.subrange(start as int, i + 1) =~= Seq::<char>::empty());
        } else {
            assert(text@.subrange(start as int, i + 1) =~= text@.subrange(start as int, i as int).push(text@[i as int]));
        }
        i = i + 1;
    }
    assert(text@.subrange(0, i as int) =~= text@);
    if start < i {
        add_line(text, start, i, &mut image, &mut counter);
        proof {
            let l = text@.subrange(start as int, i as int);
            assert(ls.push(l).drop_last() =~= ls);
        }
    }
    image
}

} // verus!
